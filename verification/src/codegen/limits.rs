//! Whether a program is small enough for the code generator: its stack
//! offsets must fit in `i32` and its label numbers in `i64`.
use vstd::prelude::*;
use crate::ast::{
    Expr, FunDef, Program, expr_size, size_from, child_count, lemma_expr_size_pos, lemma_size_from_nonneg,
    slots, slots_from, max2, lemma_slots_nonneg, lemma_slots_from_nonneg,
};
use crate::codegen::compile::{compile_fits, fundef_fits, program_fits, defs_size, lemma_defs_size_nonneg};

verus! {

/// `x`, or `cap` when `x` is at least `cap`.
pub open spec fn capped(x: int, cap: int) -> int {
    if x < cap {
        x
    } else {
        cap
    }
}

/// The sum of two capped values, capped again.
fn cap_add(a: u64, b: u64, cap: u64) -> (r: u64)
    requires
        a <= cap,
        b <= cap,
        cap <= 0x4000_0000_0000_0000,
    ensures
        r == capped(a + b, cap as int),
{
    if a + b < cap {
        a + b
    } else {
        cap
    }
}

/// The size of `e` (see `expr_size`), or `cap` when it is at least `cap`.
pub fn expr_size_capped(e: &Expr, cap: u64) -> (r: u64)
    requires
        cap <= 0x4000_0000_0000_0000,
    ensures
        r == capped(expr_size(*e), cap as int),
    decreases e, child_count(*e) + 1,
{
    proof {
        lemma_expr_size_pos(*e);
        lemma_size_from_nonneg(*e, 0);
    }
    let one: u64 = if 1 < cap {
        1
    } else {
        cap
    };
    match e {
        Expr::Let(_, _) => cap_add(one, size_from_capped(e, 0, cap), cap),
        Expr::Block(_) => cap_add(one, size_from_capped(e, 0, cap), cap),
        Expr::Call(_, _) => cap_add(one, size_from_capped(e, 0, cap), cap),
        Expr::UnOp(_, x) => {
            proof {
                lemma_expr_size_pos(**x);
            }
            cap_add(one, expr_size_capped(x, cap), cap)
        },
        Expr::Loop(x) => {
            proof {
                lemma_expr_size_pos(**x);
            }
            cap_add(one, expr_size_capped(x, cap), cap)
        },
        Expr::Break(x) => {
            proof {
                lemma_expr_size_pos(**x);
            }
            cap_add(one, expr_size_capped(x, cap), cap)
        },
        Expr::Assign(_, x) => {
            proof {
                lemma_expr_size_pos(**x);
            }
            cap_add(one, expr_size_capped(x, cap), cap)
        },
        Expr::Cast(_, x) => {
            proof {
                lemma_expr_size_pos(**x);
            }
            cap_add(one, expr_size_capped(x, cap), cap)
        },
        Expr::BinOp(_, a, b) => {
            proof {
                lemma_expr_size_pos(**a);
                lemma_expr_size_pos(**b);
            }
            let sa = expr_size_capped(a, cap);
            let sb = expr_size_capped(b, cap);
            cap_add(one, cap_add(sa, sb, cap), cap)
        },
        Expr::If(c, a, b) => {
            proof {
                lemma_expr_size_pos(**c);
                lemma_expr_size_pos(**a);
                lemma_expr_size_pos(**b);
            }
            let sc = expr_size_capped(c, cap);
            let sa = expr_size_capped(a, cap);
            let sb = expr_size_capped(b, cap);
            cap_add(one, cap_add(sc, cap_add(sa, sb, cap), cap), cap)
        },
        _ => one,
    }
}

/// The size of the listed sub-expressions of `e` from the `i`-th on (see
/// `size_from`), or `cap` when it is at least `cap`.
fn size_from_capped(e: &Expr, i: usize, cap: u64) -> (r: u64)
    requires
        cap <= 0x4000_0000_0000_0000,
    ensures
        r == capped(size_from(*e, i as int), cap as int),
    decreases e, child_count(*e) - i,
{
    proof {
        lemma_size_from_nonneg(*e, i as int);
    }
    let one: u64 = if 1 < cap {
        1
    } else {
        cap
    };
    match e {
        Expr::Let(bs, body) => {
            if i < bs.len() {
                proof {
                    lemma_expr_size_pos(bs@[i as int].1);
                    lemma_size_from_nonneg(*e, i + 1);
                    assert(decreases_to!(*e => bs@[i as int].1));
                }
                let s = expr_size_capped(&bs[i].1, cap);
                let rest = size_from_capped(e, i + 1, cap);
                cap_add(cap_add(one, s, cap), rest, cap)
            } else {
                proof {
                    lemma_expr_size_pos(**body);
                }
                expr_size_capped(body, cap)
            }
        },
        Expr::Block(es) => {
            if i < es.len() {
                proof {
                    lemma_expr_size_pos(es@[i as int]);
                    lemma_size_from_nonneg(*e, i + 1);
                    assert(decreases_to!(*e => es@[i as int]));
                }
                let s = expr_size_capped(&es[i], cap);
                let rest = size_from_capped(e, i + 1, cap);
                cap_add(s, rest, cap)
            } else {
                0
            }
        },
        Expr::Call(_, es) => {
            if i < es.len() {
                proof {
                    lemma_expr_size_pos(es@[i as int]);
                    lemma_size_from_nonneg(*e, i + 1);
                    assert(decreases_to!(*e => es@[i as int]));
                }
                let s = expr_size_capped(&es[i], cap);
                let rest = size_from_capped(e, i + 1, cap);
                cap_add(s, rest, cap)
            } else {
                0
            }
        },
        _ => 0,
    }
}

/// The larger of two capped values.
fn cap_max(a: u64, b: u64) -> (r: u64)
    ensures
        r == max2(a as int, b as int),
{
    if a >= b {
        a
    } else {
        b
    }
}

/// The slots that the code of `e` uses above the free one (see `slots`),
/// or `cap` when they are at least `cap`.
pub fn slots_capped(e: &Expr, cap: u64) -> (r: u64)
    requires
        cap <= 0x4000_0000_0000_0000,
    ensures
        r == capped(slots(*e), cap as int),
    decreases e, child_count(*e) + 1,
{
    proof {
        lemma_slots_nonneg(*e);
    }
    let one: u64 = if 1 < cap {
        1
    } else {
        cap
    };
    let two: u64 = if 2 < cap {
        2
    } else {
        cap
    };
    match e {
        Expr::Let(_, _) => slots_from_capped(e, 0, cap),
        Expr::Block(_) => slots_from_capped(e, 0, cap),
        Expr::Call(_, _) => slots_from_capped(e, 0, cap),
        Expr::UnOp(_, x) => slots_capped(x, cap),
        Expr::Loop(x) => slots_capped(x, cap),
        Expr::Break(x) => slots_capped(x, cap),
        Expr::Assign(_, x) => slots_capped(x, cap),
        Expr::Cast(_, x) => slots_capped(x, cap),
        Expr::BinOp(_, a, b) => {
            proof {
                lemma_slots_nonneg(**a);
                lemma_slots_nonneg(**b);
            }
            let sa = slots_capped(a, cap);
            let sb = slots_capped(b, cap);
            cap_max(sa, cap_add(one, sb, cap))
        },
        Expr::If(c, a, b) => {
            proof {
                lemma_slots_nonneg(**c);
                lemma_slots_nonneg(**a);
                lemma_slots_nonneg(**b);
            }
            let sc = slots_capped(c, cap);
            let sa = slots_capped(a, cap);
            let sb = slots_capped(b, cap);
            cap_max(sc, cap_max(cap_add(one, sa, cap), cap_add(two, sb, cap)))
        },
        _ => 0,
    }
}

/// The slots of the listed sub-expressions of `e` from the `i`-th on (see
/// `slots_from`), or `cap` when they are at least `cap`.
fn slots_from_capped(e: &Expr, i: usize, cap: u64) -> (r: u64)
    requires
        cap <= 0x4000_0000_0000_0000,
    ensures
        r == capped(slots_from(*e, i as int), cap as int),
    decreases e, child_count(*e) - i,
{
    proof {
        lemma_slots_from_nonneg(*e, i as int);
    }
    let one: u64 = if 1 < cap {
        1
    } else {
        cap
    };
    match e {
        Expr::Let(bs, body) => {
            if i < bs.len() {
                proof {
                    lemma_slots_nonneg(bs@[i as int].1);
                    lemma_slots_from_nonneg(*e, i + 1);
                    assert(decreases_to!(*e => bs@[i as int].1));
                }
                let s = slots_capped(&bs[i].1, cap);
                let rest = slots_from_capped(e, i + 1, cap);
                cap_max(s, cap_add(one, rest, cap))
            } else {
                slots_capped(body, cap)
            }
        },
        Expr::Block(es) => {
            if i < es.len() {
                proof {
                    lemma_slots_nonneg(es@[i as int]);
                    lemma_slots_from_nonneg(*e, i + 1);
                    assert(decreases_to!(*e => es@[i as int]));
                }
                let s = slots_capped(&es[i], cap);
                let rest = slots_from_capped(e, i + 1, cap);
                cap_max(s, cap_add(one, rest, cap))
            } else {
                0
            }
        },
        Expr::Call(_, es) => {
            if i < es.len() {
                proof {
                    lemma_slots_nonneg(es@[i as int]);
                    lemma_slots_from_nonneg(*e, i + 1);
                    assert(decreases_to!(*e => es@[i as int]));
                }
                let s = slots_capped(&es[i], cap);
                let rest = slots_from_capped(e, i + 1, cap);
                cap_max(cap_add(one, s, cap), cap_add(one, rest, cap))
            } else {
                0
            }
        },
        _ => 0,
    }
}

/// The cap on slot counts: any expression that uses this many slots or
/// more cannot fit in the `i32` offsets below `rsp`.
pub const SLOT_CAP: u64 = 0x4000_0000;

/// The cap on sizes: any expression of this size or more needs label
/// numbers beyond `i64`.
pub const SIZE_CAP: u64 = 0x2000_0000_0000_0000;

/// Whether compiling `e` with the free slot at `si` and the label counter
/// at `n` stays within the machine integers (see `compile_fits`).
pub fn fits_expr(e: &Expr, si: i32, n: i64) -> (r: bool)
    ensures
        r == compile_fits(*e, si as int, n as int),
{
    proof {
        lemma_expr_size_pos(*e);
        lemma_slots_nonneg(*e);
    }
    if (si as i64) < -0x1000_0000 {
        return false;
    }
    let k = slots_capped(e, SLOT_CAP);
    let s = expr_size_capped(e, SIZE_CAP);
    (si as i64) + (k as i64) <= 0x0FFF_FFFF && (n as i128) + 8 * (s as i128) <= (i64::MAX as i128)
}

/// Whether compiling `def` with the free slot at `si` and the label
/// counter at `n` stays within the machine integers (see `fundef_fits`).
pub fn fits_fundef(def: &FunDef, si: i32, n: i64) -> (r: bool)
    ensures
        r == fundef_fits(*def, si as int, n as int),
{
    proof {
        lemma_expr_size_pos(*def.body);
        lemma_slots_nonneg(*def.body);
    }
    if (si as i64) < -0x1000_0000 || def.args.len() > 0x2000_0000 {
        return false;
    }
    let k = slots_capped(&def.body, SLOT_CAP);
    let s = expr_size_capped(&def.body, SIZE_CAP);
    (si as i64) + (def.args.len() as i64) + (k as i64) <= 0x0FFF_FFFF && (n as i128) + 8 * (s as i128)
        <= (i64::MAX as i128)
}

/// Whether compiling `prog` with the free slot at `si` and the label
/// counter at `n` stays within the machine integers (see `program_fits`).
pub fn fits_program(prog: &Program, si: i32, n: i64) -> (r: bool)
    ensures
        r == program_fits(*prog, si as int, n as int),
{
    if (si as i64) < -0x1000_0000 {
        return false;
    }
    proof {
        lemma_expr_size_pos(*prog.main);
        lemma_slots_nonneg(*prog.main);
        lemma_defs_size_nonneg(prog.defs@, 0);
    }
    let mut total: i128 = 0;
    let mut i: usize = 0;
    while i < prog.defs.len()
        invariant
            0 <= i <= prog.defs@.len(),
            -0x1000_0000 <= si,
            0 <= total < 0x2000_0000_0000_0000,
            total + defs_size(prog.defs@, i as int) == defs_size(prog.defs@, 0),
            expr_size(*prog.main) >= 1,
            forall|k: int|
                0 <= k < i ==> si + prog.defs@[k].args@.len() + slots(
                    *(#[trigger] prog.defs@[k]).body,
                ) <= 0x0FFF_FFFF,
        decreases prog.defs@.len() - i,
    {
        let d = &prog.defs[i];
        proof {
            lemma_expr_size_pos(*d.body);
            lemma_slots_nonneg(*d.body);
            lemma_defs_size_nonneg(prog.defs@, i + 1);
        }
        let k = slots_capped(&d.body, SLOT_CAP);
        if d.args.len() > 0x2000_0000 || (si as i64) + (d.args.len() as i64) + (k as i64) > 0x0FFF_FFFF {
            assert(!(si + prog.defs@[i as int].args@.len() + slots(*prog.defs@[i as int].body)
                <= 0x0FFF_FFFF));
            return false;
        }
        let s = expr_size_capped(&d.body, SIZE_CAP);
        if total + (s as i128) >= 0x2000_0000_0000_0000 {
            assert(!((n as int) + 8 * (defs_size(prog.defs@, 0) + expr_size(*prog.main)) <= i64::MAX));
            return false;
        }
        total = total + (s as i128);
        i = i + 1;
    }
    let m = slots_capped(&prog.main, SLOT_CAP);
    if (si as i64) + (m as i64) > 0x0FFF_FFFF {
        return false;
    }
    let ms = expr_size_capped(&prog.main, SIZE_CAP);
    assert(defs_size(prog.defs@, i as int) == 0);
    (n as i128) + 8 * (total + (ms as i128)) <= (i64::MAX as i128)
}

} // verus!
