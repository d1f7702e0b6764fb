//! What generated code means on the machine, for the parts whose meaning
//! is plain arithmetic on `rax` or a conditional jump after a comparison.
use vstd::prelude::*;
use vstd::string::*;
use crate::ast::{Expr, Op1, Op2, Type};
use crate::runtime::error_text;
use crate::codegen::instruction::{InstrView, ValView, Reg};
use crate::codegen::context::CtxView;
use crate::codegen::compile::{if_code, comp, comp_binop, binop_code, compare_code, compare_jump, unop_code, check_code, cast_code, Check, rax, slot, shift_si};
use crate::codegen::assemble::{instr_text, val_text};

verus! {

/// What an arithmetic instruction on `rax` leaves in `rax`, as an integer
/// (before any overflow): `add rax, k`, `sub rax, k` and `neg rax`.
pub open spec fn rax_step(i: InstrView, r: int) -> Option<int> {
    match i {
        InstrView::IAdd(ValView::Reg(Reg::RAX), ValView::I(k)) => Some(r + k),
        InstrView::ISub(ValView::Reg(Reg::RAX), ValView::I(k)) => Some(r - k),
        InstrView::INeg(ValView::Reg(Reg::RAX)) => Some(-r),
        _ => None,
    }
}

/// What a run of arithmetic instructions on `rax` leaves in `rax`, or
/// `None` when one of them is not such an instruction.
pub open spec fn run_rax(is: Seq<InstrView>, r: int) -> Option<int>
    decreases is.len(),
{
    if is.len() == 0 {
        Some(r)
    } else {
        match rax_step(is[0], r) {
            Some(r1) => run_rax(is.drop_first(), r1),
            None => None,
        }
    }
}

/// Whether the NASM conditional jump `m` is taken after `cmp a, b`.
pub open spec fn jump_taken(m: Seq<char>, a: int, b: int) -> bool {
    if m == "je"@ {
        a == b
    } else if m == "jne"@ {
        a != b
    } else if m == "jg"@ {
        a > b
    } else if m == "jge"@ {
        a >= b
    } else if m == "jl"@ {
        a < b
    } else if m == "jle"@ {
        a <= b
    } else {
        false
    }
}

/// Whether `a op b` holds, the operands in the order they are written.
pub open spec fn holds(op: Op2, a: int, b: int) -> bool {
    match op {
        Op2::Less => a < b,
        Op2::Greater => a > b,
        Op2::LessEqual => a <= b,
        Op2::GreaterEqual => a >= b,
        Op2::Equal => a == b,
        _ => false,
    }
}

/// Whether `op` compares its operands.
pub open spec fn is_comparison(op: Op2) -> bool {
    op == Op2::Less || op == Op2::Greater || op == Op2::LessEqual || op == Op2::GreaterEqual || op == Op2::Equal
}

/// The code of `add1`, `sub1` and `negate` on an operand: the code of the
/// operand, then arithmetic on `rax` that takes the encoding `2 * v` of
/// every number `v` to the encoding of `v + 1`, `v - 1` and `-v`.
pub proof fn lemma_unop_meaning(e: Expr, c: CtxView, n: int, v: int)
    requires
        e is UnOp,
        comp(e, c, n).0 is Ok,
    ensures
        ({
            let op = e->UnOp_0;
            let code = comp(e, c, n).0->Ok_0;
            let xi = comp(*e->UnOp_1, c, n).0->Ok_0;
            let step = code.subrange(xi.len() as int, code.len() as int);
            &&& comp(*e->UnOp_1, c, n).0 is Ok
            &&& xi.len() <= code.len()
            &&& code.subrange(0, xi.len() as int) == xi
            &&& op == Op1::Add1 ==> run_rax(step, 2 * v) == Some(2 * (v + 1))
            &&& op == Op1::Sub1 ==> run_rax(step, 2 * v) == Some(2 * (v - 1))
            &&& op == Op1::Negate ==> run_rax(step, 2 * v) == Some(2 * (-v))
        }),
{
    let op = e->UnOp_0;
    let code = comp(e, c, n).0->Ok_0;
    let xi = comp(*e->UnOp_1, c, n).0->Ok_0;
    let u = unop_code(op, c);
    assert(code == xi + u);
    assert(code.subrange(0, xi.len() as int) =~= xi);
    assert(code.subrange(xi.len() as int, code.len() as int) =~= u);
    if op == Op1::Add1 || op == Op1::Sub1 || op == Op1::Negate {
        assert(u.len() == 1);
        assert(u.drop_first() =~= Seq::<InstrView>::empty());
        let r1 = rax_step(u[0], 2 * v)->Some_0;
        assert(rax_step(u[0], 2 * v) is Some);
        assert(run_rax(u.drop_first(), r1) == Some(r1));
        assert(run_rax(u, 2 * v) == Some(r1));
    }
}

/// After computing both operands of a comparison, its code compares `rax`
/// (which holds the operand written first) with the free slot (which holds
/// the operand written last) and jumps, with a NASM jump that is taken
/// exactly when the comparison holds of the operands in written order.
pub proof fn lemma_comparison_meaning(e: Expr, c: CtxView, n: int, a: int, b: int)
    requires
        e is BinOp,
        is_comparison(e->BinOp_0),
        comp(e, c, n).0 is Ok,
    ensures
        ({
            let code = comp(e, c, n).0->Ok_0;
            let k = code.len() - 7;
            &&& k >= 0
            &&& code[k] == InstrView::ICmp(rax(), slot(c.si * 8))
            &&& code[k + 4] is Label
            &&& exists|m: Seq<char>|
                instr_text(code[k + 1]) == m + " "@ + code[k + 4]->Label_0 && (#[trigger] jump_taken(m, a, b) <==> holds(
                    e->BinOp_0,
                    a,
                    b,
                ))
            &&& code[k + 2] == InstrView::IMov(rax(), ValView::I(1))
            &&& code[k + 3] == InstrView::IJmp(ValView::S(code[k + 6]->Label_0))
            &&& code[k + 5] == InstrView::IMov(rax(), ValView::I(3))
            &&& code[k + 6] is Label
            &&& code.len() == k + 7
        }),
{
    let op = e->BinOp_0;
    let x = *e->BinOp_1;
    let y = *e->BinOp_2;
    let n1 = comp(x, c, n + 2).1;
    let n2 = comp(y, shift_si(c, 1), n1).1;
    let v1 = comp(x, c, n + 2).0->Ok_0;
    let v2 = comp(y, shift_si(c, 1), n1).0->Ok_0;
    let off = c.si * 8;
    let code = comp(e, c, n).0->Ok_0;
    assert(comp(e, c, n) == comp_binop(e, c, n));
    assert(comp(x, c, n + 2).0 is Ok);
    assert(comp(y, shift_si(c, 1), n1).0 is Ok);
    assert(code == binop_code(op, v1, v2, off, n, n2).0->Ok_0);
    let cq = compare_code(op, off, n2);
    let pre = code.subrange(0, code.len() - 7);
    assert(code =~= pre + cq);
    assert(code[code.len() - 7] == cq[0]);
    assert(code[code.len() - 6] == cq[1]);
    assert(code[code.len() - 5] == cq[2]);
    assert(code[code.len() - 4] == cq[3]);
    assert(code[code.len() - 3] == cq[4]);
    assert(code[code.len() - 2] == cq[5]);
    assert(code[code.len() - 1] == cq[6]);
    reveal_strlit("je ");
    reveal_strlit("jne ");
    reveal_strlit("jg ");
    reveal_strlit("jge ");
    reveal_strlit("jl ");
    reveal_strlit("jle ");
    reveal_strlit("je");
    reveal_strlit("jne");
    reveal_strlit("jg");
    reveal_strlit("jge");
    reveal_strlit("jl");
    reveal_strlit("jle");
    reveal_strlit(" ");
    let l = crate::codegen::compile::label_text(crate::codegen::compile::compare_prefix(op), n2);
    assert(cq[1] == compare_jump(op, l));
    let m = match op {
        Op2::Equal => "je"@,
        Op2::Greater => "jg"@,
        Op2::GreaterEqual => "jge"@,
        Op2::Less => "jl"@,
        _ => "jle"@,
    };
    assert(instr_text(cq[1]) =~= m + " "@ + l);
    assert("je"@[1] != "jg"@[1] && "je"@[1] != "jl"@[1] && "jg"@[1] != "jl"@[1]);
    assert("jge"@[1] != "jle"@[1] && "jge"@[1] != "jne"@[1] && "jle"@[1] != "jne"@[1]);
    assert("je"@.len() == 2 && "jg"@.len() == 2 && "jl"@.len() == 2 && "jge"@.len() == 3);
    assert(jump_taken(m, a, b) <==> holds(op, a, b));
    assert(cq[4] == InstrView::Label(l));
}

/// Each conditional jump is printed with the NASM mnemonic of its own
/// condition, followed by its label: the jump is taken after `cmp a, b`
/// exactly when `a == b` (`je`), `a != b` (`jne`), `a > b` (`jg`),
/// `a >= b` (`jge`), `a < b` (`jl`) and `a <= b` (`jle`).
pub proof fn lemma_jump_printing(l: Seq<char>, a: int, b: int)
    ensures
        exists|m: Seq<char>| instr_text(InstrView::IJe(l)) == m + " "@ + l && (#[trigger] jump_taken(m, a, b) <==> a == b),
        exists|m: Seq<char>| instr_text(InstrView::IJne(l)) == m + " "@ + l && (#[trigger] jump_taken(m, a, b) <==> a != b),
        exists|m: Seq<char>| instr_text(InstrView::IJg(l)) == m + " "@ + l && (#[trigger] jump_taken(m, a, b) <==> a > b),
        exists|m: Seq<char>| instr_text(InstrView::IJge(l)) == m + " "@ + l && (#[trigger] jump_taken(m, a, b) <==> a >= b),
        exists|m: Seq<char>| instr_text(InstrView::IJl(l)) == m + " "@ + l && (#[trigger] jump_taken(m, a, b) <==> a < b),
        exists|m: Seq<char>| instr_text(InstrView::IJle(l)) == m + " "@ + l && (#[trigger] jump_taken(m, a, b) <==> a <= b),
{
    reveal_strlit("je ");
    reveal_strlit("jne ");
    reveal_strlit("jg ");
    reveal_strlit("jge ");
    reveal_strlit("jl ");
    reveal_strlit("jle ");
    reveal_strlit("je");
    reveal_strlit("jne");
    reveal_strlit("jg");
    reveal_strlit("jge");
    reveal_strlit("jl");
    reveal_strlit("jle");
    reveal_strlit(" ");
    assert("je"@[1] != "jg"@[1] && "je"@[1] != "jl"@[1] && "jg"@[1] != "jl"@[1]);
    assert("jge"@[1] != "jle"@[1] && "jge"@[1] != "jne"@[1] && "jle"@[1] != "jne"@[1]);
    assert("je"@.len() == 2 && "jg"@.len() == 2 && "jl"@.len() == 2 && "jge"@.len() == 3);
    assert("jne"@.len() == 3 && "jle"@.len() == 3);
    assert(instr_text(InstrView::IJe(l)) =~= "je"@ + " "@ + l);
    assert(jump_taken("je"@, a, b) <==> a == b);
    assert(instr_text(InstrView::IJne(l)) =~= "jne"@ + " "@ + l);
    assert(jump_taken("jne"@, a, b) <==> a != b);
    assert(instr_text(InstrView::IJg(l)) =~= "jg"@ + " "@ + l);
    assert(jump_taken("jg"@, a, b) <==> a > b);
    assert(instr_text(InstrView::IJge(l)) =~= "jge"@ + " "@ + l);
    assert(jump_taken("jge"@, a, b) <==> a >= b);
    assert(instr_text(InstrView::IJl(l)) =~= "jl"@ + " "@ + l);
    assert(jump_taken("jl"@, a, b) <==> a < b);
    assert(instr_text(InstrView::IJle(l)) =~= "jle"@ + " "@ + l);
    assert(jump_taken("jle"@, a, b) <==> a <= b);
}

/// What an arithmetic instruction between `rax` and the stack slot at
/// `off` leaves in `rax`, as an integer (before any overflow), with `r`
/// in `rax` and `s` in the slot.
pub open spec fn slot_step(i: InstrView, r: int, s: int, off: int) -> Option<int> {
    match i {
        InstrView::IAdd(ValView::Reg(Reg::RAX), ValView::Mem(Reg::RSP, o)) => if o as int == off {
            Some(r + s)
        } else {
            None
        },
        InstrView::ISub(ValView::Reg(Reg::RAX), ValView::Mem(Reg::RSP, o)) => if o as int == off {
            Some(r - s)
        } else {
            None
        },
        InstrView::IMul(ValView::Reg(Reg::RAX), ValView::Mem(Reg::RSP, o)) => if o as int == off {
            Some(r * s)
        } else {
            None
        },
        _ => None,
    }
}

/// The arithmetic of `+`, `-` and `*`: once both operands are computed,
/// with the operand written first, `a`, encoded in `rax`, and the other,
/// `b`, in the free slot (encoded, or halved to its value for `*`), the
/// operation leaves in `rax` the encoding of `a + b`, `a - b` and `a * b`;
/// then comes the check for overflow.
#[verifier::rlimit(40)]
pub proof fn lemma_arith_meaning(e: Expr, c: CtxView, n: int, a: int, b: int)
    requires
        e is BinOp,
        e->BinOp_0 == Op2::Plus || e->BinOp_0 == Op2::Minus || e->BinOp_0 == Op2::Times,
        comp(e, c, n).0 is Ok,
        i32::MIN <= c.si * 8 <= i32::MAX,
    ensures
        ({
            let op = e->BinOp_0;
            let code = comp(e, c, n).0->Ok_0;
            let k = code.len() - 7;
            let off = c.si * 8;
            &&& k >= 0
            &&& op == Op2::Plus ==> slot_step(code[k], 2 * a, 2 * b, off) == Some(2 * (a + b))
            &&& op == Op2::Minus ==> slot_step(code[k], 2 * a, 2 * b, off) == Some(2 * (a - b))
            &&& op == Op2::Times ==> slot_step(code[k], 2 * a, b, off) == Some(2 * (a * b))
            &&& code.subrange(k + 1, code.len() as int) == check_code(Check::Overflow, comp(e, c, n).1 - 2).0
        }),
{
    let op = e->BinOp_0;
    let x = *e->BinOp_1;
    let y = *e->BinOp_2;
    let n1 = comp(x, c, n + 2).1;
    let n2 = comp(y, shift_si(c, 1), n1).1;
    let v1 = comp(x, c, n + 2).0->Ok_0;
    let v2 = comp(y, shift_si(c, 1), n1).0->Ok_0;
    let off = c.si * 8;
    let code = comp(e, c, n).0->Ok_0;
    assert(comp(e, c, n) == comp_binop(e, c, n));
    assert(comp(x, c, n + 2).0 is Ok);
    assert(comp(y, shift_si(c, 1), n1).0 is Ok);
    assert(code == binop_code(op, v1, v2, off, n, n2).0->Ok_0);
    let ov = check_code(Check::Overflow, n2).0;
    let k = code.len() - 7;
    assert(ov.len() == 6);
    assert(code.subrange(k + 1, code.len() as int) =~= ov);
    assert((off as i32) as int == off);
    assert(2 * a * b == 2 * (a * b)) by (nonlinear_arith);
    assert(b * (2 * a) == 2 * a * b) by (nonlinear_arith);
}

/// What `rax`, the zero flag and the stack slot at `off` hold.
pub struct FlagState {
    pub rax: int,
    pub zero: bool,
    pub slot: int,
}

/// What one instruction of a type test does: `test rax, 1` sets the zero
/// flag exactly when the low bit of `rax` is clear, a move of a constant
/// into `rax` or into the slot stores it, and `cmove rax, [slot]` copies
/// the slot into `rax` when the zero flag is set.
pub open spec fn flag_step(i: InstrView, st: FlagState, off: int) -> Option<FlagState> {
    match i {
        InstrView::ITest(ValView::Reg(Reg::RAX), ValView::I(1)) => Some(FlagState { zero: st.rax % 2 == 0, ..st }),
        InstrView::IMov(ValView::Reg(Reg::RAX), ValView::I(k)) => Some(FlagState { rax: k as int, ..st }),
        InstrView::IMov(ValView::Mem(Reg::RSP, o), ValView::I(k)) => if o as int == off {
            Some(FlagState { slot: k as int, ..st })
        } else {
            None
        },
        InstrView::ICmove(ValView::Reg(Reg::RAX), ValView::Mem(Reg::RSP, o)) => if o as int == off {
            Some(if st.zero { FlagState { rax: st.slot, ..st } } else { st })
        } else {
            None
        },
        _ => None,
    }
}

/// What a run of type-test instructions leaves, or `None` when one of them
/// is not such an instruction.
pub open spec fn run_flags(is: Seq<InstrView>, st: FlagState, off: int) -> Option<FlagState>
    decreases is.len(),
{
    if is.len() == 0 {
        Some(st)
    } else {
        match flag_step(is[0], st, off) {
            Some(st1) => run_flags(is.drop_first(), st1, off),
            None => None,
        }
    }
}

/// The code of `isnum` and `isbool` on an operand: the code of the operand,
/// then a test that leaves `true` (3) in `rax` for a number (an even word)
/// and `false` (1) for a boolean (1 or 3) under `isnum`, and the reverse
/// under `isbool`.
pub proof fn lemma_type_test_meaning(e: Expr, c: CtxView, n: int, v: int, bv: bool, st: FlagState)
    requires
        e is UnOp,
        e->UnOp_0 == Op1::IsNum || e->UnOp_0 == Op1::IsBool,
        comp(e, c, n).0 is Ok,
        i32::MIN <= c.si * 8 <= i32::MAX,
    ensures
        ({
            let op = e->UnOp_0;
            let code = comp(e, c, n).0->Ok_0;
            let xi = comp(*e->UnOp_1, c, n).0->Ok_0;
            let step = code.subrange(xi.len() as int, code.len() as int);
            let off = c.si * 8;
            let on_num = run_flags(step, FlagState { rax: 2 * v, ..st }, off);
            let on_bool = run_flags(step, FlagState { rax: if bv { 3 } else { 1 }, ..st }, off);
            &&& comp(*e->UnOp_1, c, n).0 is Ok
            &&& code.subrange(0, xi.len() as int) == xi
            &&& on_num is Some && on_bool is Some
            &&& op == Op1::IsNum ==> on_num->Some_0.rax == 3 && on_bool->Some_0.rax == 1
            &&& op == Op1::IsBool ==> on_num->Some_0.rax == 1 && on_bool->Some_0.rax == 3
        }),
{
    let op = e->UnOp_0;
    let code = comp(e, c, n).0->Ok_0;
    let xi = comp(*e->UnOp_1, c, n).0->Ok_0;
    let u = unop_code(op, c);
    let off = c.si * 8;
    assert(code == xi + u);
    assert(code.subrange(0, xi.len() as int) =~= xi);
    assert(code.subrange(xi.len() as int, code.len() as int) =~= u);
    assert(((c.si * 8) as i32) as int == off);
    assert(u.drop_first().drop_first().drop_first().drop_first() =~= Seq::<InstrView>::empty());
    let r0 = 2 * v;
    assert(r0 % 2 == 0);
    assert((if bv { 3int } else { 1int }) % 2 == 1);
    let s0 = FlagState { rax: r0, ..st };
    let s1 = flag_step(u[0], s0, off)->Some_0;
    let s2 = flag_step(u[1], s1, off)->Some_0;
    let s3 = flag_step(u[2], s2, off)->Some_0;
    let s4 = flag_step(u[3], s3, off)->Some_0;
    assert(run_flags(u.drop_first().drop_first().drop_first().drop_first(), s4, off) == Some(s4));
    assert(run_flags(u.drop_first().drop_first().drop_first(), s3, off) == Some(s4));
    assert(run_flags(u.drop_first().drop_first(), s2, off) == Some(s4));
    assert(run_flags(u.drop_first(), s1, off) == Some(s4));
    let b0 = FlagState { rax: if bv { 3 } else { 1 }, ..st };
    let b1 = flag_step(u[0], b0, off)->Some_0;
    let b2 = flag_step(u[1], b1, off)->Some_0;
    let b3 = flag_step(u[2], b2, off)->Some_0;
    let b4 = flag_step(u[3], b3, off)->Some_0;
    assert(run_flags(u.drop_first().drop_first().drop_first().drop_first(), b4, off) == Some(b4));
    assert(run_flags(u.drop_first().drop_first().drop_first(), b3, off) == Some(b4));
    assert(run_flags(u.drop_first().drop_first(), b2, off) == Some(b4));
    assert(run_flags(u.drop_first(), b1, off) == Some(b4));
}

/// The run-time checks report the error that each one is for: a check of
/// an operand's kind (a number, a boolean, or two values of one kind)
/// calls the error routine with the code whose message is `invalid
/// argument`, a check for overflow with the code of `overflow`, and the
/// check of a cast that can fail with the code of `bad cast`.
pub proof fn lemma_check_error_codes(ck: Check, t: Type, n: int)
    ensures
        exists|i: int| 0 <= i < check_code(ck, n).0.len() && #[trigger] check_code(ck, n).0[i] is ICallErr,
        forall|i: int|
            0 <= i < check_code(ck, n).0.len() && (#[trigger] check_code(ck, n).0[i]) is ICallErr ==> error_text(
                check_code(ck, n).0[i]->ICallErr_0,
            ) == (if ck == Check::Overflow {
                "overflow"@
            } else {
                "invalid argument"@
            }),
        t != Type::Any ==> exists|i: int| 0 <= i < cast_code(t, n).0.len() && #[trigger] cast_code(t, n).0[i] is ICallErr,
        forall|i: int|
            0 <= i < cast_code(t, n).0.len() && (#[trigger] cast_code(t, n).0[i]) is ICallErr ==> error_text(
                cast_code(t, n).0[i]->ICallErr_0,
            ) == "bad cast"@,
{
    let is = check_code(ck, n).0;
    match ck {
        Check::Bool => assert(is[5] is ICallErr),
        Check::Num => assert(is[3] is ICallErr),
        Check::Overflow => assert(is[4] is ICallErr),
        Check::SameType => assert(is[11] is ICallErr),
    }
    let cs = cast_code(t, n).0;
    match t {
        Type::Num => assert(cs[3] is ICallErr),
        Type::Bool => assert(cs[3] is ICallErr),
        Type::Nothing => assert(cs[1] is ICallErr),
        Type::Any => {},
    }
}

/// What the NASM arithmetic instruction `m` leaves in its destination,
/// holding `r`, with source `s`: `add`, `sub`, `imul`, and `sar` by one.
pub open spec fn nasm_arith(m: Seq<char>, r: int, s: int) -> Option<int> {
    if m == "add"@ {
        Some(r + s)
    } else if m == "sub"@ {
        Some(r - s)
    } else if m == "imul"@ {
        Some(r * s)
    } else if m == "sar"@ && s == 1 {
        Some(r / 2)
    } else {
        None
    }
}

/// Arithmetic instructions are printed with the NASM mnemonic of their
/// own operation, then their operands: `add` adds, `sub` subtracts,
/// `imul` multiplies, `sar` by one halves (rounding down), and `neg`
/// negates.
pub proof fn lemma_arith_printing(x: ValView, y: ValView, r: int, s: int)
    ensures
        exists|m: Seq<char>|
            instr_text(InstrView::IAdd(x, y)) == m + " "@ + val_text(x) + ", "@ + val_text(y) && #[trigger] nasm_arith(m, r, s)
                == Some(r + s),
        exists|m: Seq<char>|
            instr_text(InstrView::ISub(x, y)) == m + " "@ + val_text(x) + ", "@ + val_text(y) && #[trigger] nasm_arith(m, r, s)
                == Some(r - s),
        exists|m: Seq<char>|
            instr_text(InstrView::IMul(x, y)) == m + " "@ + val_text(x) + ", "@ + val_text(y) && #[trigger] nasm_arith(m, r, s)
                == Some(r * s),
        exists|m: Seq<char>|
            instr_text(InstrView::ISar(x, y)) == m + " "@ + val_text(x) + ", "@ + val_text(y) && #[trigger] nasm_arith(m, r, 1)
                == Some(r / 2),
        instr_text(InstrView::INeg(x)) == "neg "@ + val_text(x),
{
    reveal_strlit("add");
    reveal_strlit("sub");
    reveal_strlit("imul");
    reveal_strlit("sar");
    reveal_strlit(" ");
    reveal_strlit(", ");
    assert("add"@[0] != "sub"@[0] && "add"@[0] != "imul"@[0] && "sub"@[0] != "imul"@[0]);
    assert("add"@[0] != "sar"@[0] && "sub"@[1] != "sar"@[1] && "imul"@[0] != "sar"@[0]);
    assert(instr_text(InstrView::IAdd(x, y)) =~= "add"@ + " "@ + val_text(x) + ", "@ + val_text(y));
    assert(instr_text(InstrView::ISub(x, y)) =~= "sub"@ + " "@ + val_text(x) + ", "@ + val_text(y));
    assert(instr_text(InstrView::IMul(x, y)) =~= "imul"@ + " "@ + val_text(x) + ", "@ + val_text(y));
    assert(instr_text(InstrView::ISar(x, y)) =~= "sar"@ + " "@ + val_text(x) + ", "@ + val_text(y));
    assert(nasm_arith("add"@, r, s) == Some(r + s));
    assert(nasm_arith("sub"@, r, s) == Some(r - s));
    assert(nasm_arith("imul"@, r, s) == Some(r * s));
    assert(nasm_arith("sar"@, r, 1) == Some(r / 2));
}

/// The code of an `if`: the code of the condition and its check, then a
/// comparison of `rax` with `true` (3) and a jump, taken exactly when the
/// condition is not `true`, to the label that starts the `else` branch;
/// the `then` branch comes right after the jump and ends with a jump past
/// the `else` branch, whose code follows its label.
pub proof fn lemma_if_meaning(e: Expr, c: CtxView, n: int, r: int)
    requires
        e is If,
        comp(e, c, n).0 is Ok,
    ensures
        ({
            let code = comp(e, c, n).0->Ok_0;
            let n1 = comp(*e->If_0, c, n + 2).1;
            let ci = comp(*e->If_0, c, n + 2).0->Ok_0;
            let ti = comp(*e->If_1, shift_si(c, 1), n1 + 1).0->Ok_0;
            let n2 = comp(*e->If_1, shift_si(c, 1), n1 + 1).1;
            let ei = comp(*e->If_2, shift_si(c, 2), n2).0->Ok_0;
            let p = (ci.len() + check_code(Check::Bool, n1).0.len()) as int;
            let q = p + 2 + ti.len() as int;
            &&& code.len() == q + 3 + ei.len()
            &&& code[p] == InstrView::ICmp(rax(), ValView::I(3))
            &&& code[q + 1] is Label
            &&& exists|m: Seq<char>|
                instr_text(code[p + 1]) == m + " "@ + code[q + 1]->Label_0 && (#[trigger] jump_taken(m, r, 3) <==> r != 3)
            &&& code.subrange(p + 2, q) == ti
            &&& code[q] == InstrView::IJmp(ValView::S(code[code.len() - 1]->Label_0))
            &&& code[code.len() - 1] is Label
            &&& code.subrange(q + 2, q + 2 + ei.len()) == ei
        }),
{
    let x = *e->If_0;
    let a = *e->If_1;
    let b = *e->If_2;
    let n1 = comp(x, c, n + 2).1;
    let ci = comp(x, c, n + 2).0->Ok_0;
    assert(comp(x, c, n + 2).0 is Ok);
    assert(comp(a, shift_si(c, 1), n1 + 1).0 is Ok);
    let ti = comp(a, shift_si(c, 1), n1 + 1).0->Ok_0;
    let n2 = comp(a, shift_si(c, 1), n1 + 1).1;
    assert(comp(b, shift_si(c, 2), n2).0 is Ok);
    let ei = comp(b, shift_si(c, 2), n2).0->Ok_0;
    let code = comp(e, c, n).0->Ok_0;
    assert(code == if_code(ci, ti, ei, n, n1));
    let chk = check_code(Check::Bool, n1).0;
    let else_l = crate::codegen::compile::label_text("else"@, n);
    let end_l = crate::codegen::compile::label_text("end"@, n + 1);
    let p = (ci.len() + chk.len()) as int;
    let q = p + 2 + ti.len() as int;
    assert(code =~= ci + chk + seq![InstrView::ICmp(rax(), ValView::I(3)), InstrView::IJne(else_l)] + ti + seq![
        InstrView::IJmp(ValView::S(end_l)),
    ] + seq![InstrView::Label(else_l)] + ei + seq![InstrView::Label(end_l)]);
    assert(code[p] == InstrView::ICmp(rax(), ValView::I(3)));
    assert(code[p + 1] == InstrView::IJne(else_l));
    assert(code[q] == InstrView::IJmp(ValView::S(end_l)));
    assert(code[q + 1] == InstrView::Label(else_l));
    assert(code[code.len() - 1] == InstrView::Label(end_l));
    assert(code.subrange(p + 2, q) =~= ti);
    assert(code.subrange(q + 2, q + 2 + ei.len()) =~= ei);
    reveal_strlit("jne ");
    reveal_strlit("jne");
    reveal_strlit("je");
    reveal_strlit("jg");
    reveal_strlit("jge");
    reveal_strlit("jl");
    reveal_strlit("jle");
    reveal_strlit(" ");
    assert("jne"@.len() == 3 && "je"@.len() == 2);
    assert(instr_text(InstrView::IJne(else_l)) =~= "jne"@ + " "@ + else_l);
    assert(jump_taken("jne"@, r, 3) <==> r != 3);
}

/// The code of a loop starts with a label, ends with a jump back to it and
/// then a second label, and its body is compiled with that second label
/// as the target of `break`: leaving the loop goes right past its end.
pub proof fn lemma_loop_meaning(e: Expr, c: CtxView, n: int)
    requires
        e is Loop,
        comp(e, c, n).0 is Ok,
    ensures
        ({
            let code = comp(e, c, n).0->Ok_0;
            let len = code.len() as int;
            &&& len >= 3
            &&& code[0] is Label
            &&& code[len - 2] == InstrView::IJmp(ValView::S(code[0]->Label_0))
            &&& code[len - 1] is Label
            &&& code[0]->Label_0 != code[len - 1]->Label_0
            &&& ({
                let inner = CtxView { break_label: Some(code[len - 1]->Label_0), ..c };
                comp(*e->Loop_0, inner, n + 2).0 == Ok::<Seq<InstrView>, Seq<char>>(code.subrange(1, len - 2))
            })
        }),
{
    let start = crate::codegen::compile::label_text("loop_start"@, n);
    let end = crate::codegen::compile::label_text("loop_end"@, n + 1);
    let inner = CtxView { break_label: Some(end), ..c };
    let bi = comp(*e->Loop_0, inner, n + 2).0->Ok_0;
    let code = comp(e, c, n).0->Ok_0;
    assert(code =~= seq![InstrView::Label(start)] + bi + seq![InstrView::IJmp(ValView::S(start)), InstrView::Label(end)]);
    assert(code.subrange(1, code.len() - 2) =~= bi);
    reveal_strlit("loop_start");
    reveal_strlit("loop_end");
    assert(start[5] == 's' && end[5] == 'e');
}

/// The code of a `break` computes its value and then jumps to the label
/// of the innermost loop; outside any loop, `break` is refused.
pub proof fn lemma_break_meaning(e: Expr, c: CtxView, n: int)
    requires
        e is Break,
    ensures
        c.break_label is None ==> comp(e, c, n).0 is Err,
        c.break_label is Some && comp(e, c, n).0 is Ok ==> ({
            let code = comp(e, c, n).0->Ok_0;
            &&& code.len() >= 1
            &&& code[code.len() - 1] == InstrView::IJmp(ValView::S(c.break_label->Some_0))
        }),
{
    if c.break_label is Some && comp(e, c, n).0 is Ok {
        let c2 = CtxView { break_label: None, ..c };
        let xi = comp(*e->Break_0, c2, n).0->Ok_0;
        let code = comp(e, c, n).0->Ok_0;
        assert(code == xi + seq![InstrView::IJmp(ValView::S(c.break_label->Some_0))]);
    }
}

} // verus!
