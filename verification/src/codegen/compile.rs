//! Compiling expressions to instructions.
use vstd::prelude::*;
use vstd::string::*;
use crate::ast::{Program, Expr, Op1, Op2, FunDef, Type, op2_text, child_count, expr_size, size_from, slots, slots_from, lemma_slots_nonneg, lemma_slots_from_nonneg};
use crate::snek::encode_num;
use crate::text::{int_text, nat_text, push_int, push_nat, push_str, str_eq};
use crate::snek::{SNEK_TRUE, SNEK_FALSE, bool_to_snek, num_to_snek};
use crate::ast::lemma_expr_size_pos;
use super::instruction::{Instruction, Val, Reg, ValView, InstrView, instrs_view};
use super::context::{Context, CtxView};
use crate::maps::{i32_map_get, i64_map_get, i32_map_contents, i64_map_contents};

verus! {

/// The text of the label that a label counter at `n` gives for `prefix`.
pub open spec fn label_text(prefix: Seq<char>, n: int) -> Seq<char> {
    prefix + "_"@ + int_text(n)
}

/// The register `rax`.
pub open spec fn rax() -> ValView {
    ValView::Reg(Reg::RAX)
}

/// The stack slot at `off` bytes below `rsp`.
pub open spec fn slot(off: int) -> ValView {
    ValView::Mem(Reg::RSP, off as i32)
}

/// The context `c` with its next free slot moved `k` slots on.
pub open spec fn shift_si(c: CtxView, k: int) -> CtxView {
    CtxView { si: c.si + k, ..c }
}

/// Code that a compilation step produced, or its error message, with the
/// label counter after it.
pub type Code = (Result<Seq<InstrView>, Seq<char>>, int);

/// The run-time checks that the compiler inserts.
pub enum Check {
    Bool,
    Num,
    Overflow,
    SameType,
}

/// The code of a run-time check, and the label counter after it.
pub open spec fn check_code(c: Check, n: int) -> (Seq<InstrView>, int) {
    let ok = label_text("ok"@, n);
    match c {
        Check::Bool => (
            seq![
                InstrView::Comment("Check: Bool"@),
                InstrView::ICmp(rax(), ValView::I(1)),
                InstrView::IJe(ok),
                InstrView::ICmp(rax(), ValView::I(3)),
                InstrView::IJe(ok),
                InstrView::ICallErr(1),
                InstrView::Label(ok),
            ],
            n + 1,
        ),
        Check::Num => (
            seq![
                InstrView::Comment("Check: Num"@),
                InstrView::ITest(rax(), ValView::I(1)),
                InstrView::IJe(ok),
                InstrView::ICallErr(1),
                InstrView::Label(ok),
            ],
            n + 1,
        ),
        Check::Overflow => {
            let err = label_text("err"@, n + 1);
            (
                seq![
                    InstrView::Comment("Check: Overflow"@),
                    InstrView::IJo(err),
                    InstrView::IJmp(ValView::S(ok)),
                    InstrView::Label(err),
                    InstrView::ICallErr(2),
                    InstrView::Label(ok),
                ],
                n + 2,
            )
        },
        Check::SameType => {
            let is_bool = label_text("is_bool"@, n + 1);
            let is_num = label_text("is_num"@, n + 2);
            let err = label_text("err"@, n + 3);
            (
                seq![
                    InstrView::Comment("Check: SameType"@),
                    InstrView::ITest(rax(), ValView::I(1)),
                    InstrView::IJne(is_bool),
                    InstrView::Label(is_num),
                    InstrView::ITest(ValView::Reg(Reg::RCX), ValView::I(1)),
                    InstrView::IJne(err),
                    InstrView::IJmp(ValView::S(ok)),
                    InstrView::Label(is_bool),
                    InstrView::ITest(ValView::Reg(Reg::RCX), ValView::I(1)),
                    InstrView::IJne(ok),
                    InstrView::Label(err),
                    InstrView::ICallErr(1),
                    InstrView::Label(ok),
                ],
                n + 4,
            )
        },
    }
}

/// The code of the run-time check of a cast, and the label counter after it.
pub open spec fn cast_code(t: Type, n: int) -> (Seq<InstrView>, int) {
    let ok = label_text("cast_ok"@, n);
    match t {
        Type::Num => (
            seq![
                InstrView::Comment("Check: Cast to Num"@),
                InstrView::ITest(rax(), ValView::I(1)),
                InstrView::IJe(ok),
                InstrView::ICallErr(3),
                InstrView::Label(ok),
            ],
            n + 1,
        ),
        Type::Bool => (
            seq![
                InstrView::Comment("Check: Cast to Bool"@),
                InstrView::ITest(rax(), ValView::I(1)),
                InstrView::IJne(ok),
                InstrView::ICallErr(3),
                InstrView::Label(ok),
            ],
            n + 1,
        ),
        Type::Nothing => (
            seq![InstrView::Comment("Check: Cast to Nothing (always fails)"@), InstrView::ICallErr(3)],
            n,
        ),
        Type::Any => (seq![InstrView::Comment("Check: Cast to Any (always succeeds)"@)], n),
    }
}

/// The code of a unary operation on `rax`, using the free slot of `c`.
pub open spec fn unop_code(op: Op1, c: CtxView) -> Seq<InstrView> {
    let off = c.si * 8;
    match op {
        Op1::Add1 => seq![InstrView::IAdd(rax(), ValView::I(2))],
        Op1::Sub1 => seq![InstrView::ISub(rax(), ValView::I(2))],
        Op1::Negate => seq![InstrView::INeg(rax())],
        Op1::IsNum => seq![
            InstrView::ITest(rax(), ValView::I(1)),
            InstrView::IMov(rax(), ValView::I(1)),
            InstrView::IMov(slot(off), ValView::I(3)),
            InstrView::ICmove(rax(), slot(off)),
        ],
        Op1::IsBool => seq![
            InstrView::ITest(rax(), ValView::I(1)),
            InstrView::IMov(rax(), ValView::I(3)),
            InstrView::IMov(slot(off), ValView::I(1)),
            InstrView::ICmove(rax(), slot(off)),
        ],
        Op1::Print => seq![InstrView::IPrint],
    }
}

/// The prefix of the labels of a comparison.
pub open spec fn compare_prefix(op: Op2) -> Seq<char> {
    match op {
        Op2::Equal => "eq"@,
        Op2::Greater => "greater"@,
        Op2::GreaterEqual => "greater_equal"@,
        Op2::Less => "less"@,
        _ => "less_equal"@,
    }
}

/// The conditional jump of a comparison.
pub open spec fn compare_jump(op: Op2, l: Seq<char>) -> InstrView {
    match op {
        Op2::Equal => InstrView::IJe(l),
        Op2::Greater => InstrView::IJg(l),
        Op2::GreaterEqual => InstrView::IJge(l),
        Op2::Less => InstrView::IJl(l),
        _ => InstrView::IJle(l),
    }
}

/// The code that compares `rax` with the slot at `off` and leaves a
/// boolean in `rax`, with labels numbered from `n`.
pub open spec fn compare_code(op: Op2, off: int, n: int) -> Seq<InstrView> {
    let yes = label_text(compare_prefix(op), n);
    let end = label_text("end"@, n + 1);
    seq![
        InstrView::ICmp(rax(), slot(off)),
        compare_jump(op, yes),
        InstrView::IMov(rax(), ValView::I(1)),
        InstrView::IJmp(ValView::S(end)),
        InstrView::Label(yes),
        InstrView::IMov(rax(), ValView::I(3)),
        InstrView::Label(end),
    ]
}

/// The message for a name that is not bound.
pub open spec fn msg_unbound(x: Seq<char>) -> Seq<char> {
    "unbound variable: "@ + x
}

/// The message for a call of an unknown function.
pub open spec fn msg_unknown_function(f: Seq<char>) -> Seq<char> {
    "unknown function: "@ + f
}

/// The message for a call with the wrong number of arguments.
pub open spec fn msg_arity(f: Seq<char>, expected: i32, got: i32) -> Seq<char> {
    "function "@ + f + " expects "@ + int_text(expected as int) + " arguments, got "@ + int_text(
        got as int,
    )
}

/// The code of `e` in context `c` with the label counter at `n`.
pub open spec fn comp(e: Expr, c: CtxView, n: int) -> Code
    decreases e, child_count(e) + 2,
{
    match e {
        Expr::Num(v) => (Ok(seq![InstrView::IMov(rax(), ValView::I(encode_num(v)))]), n),
        Expr::Bool(b) => (Ok(seq![InstrView::IMov(rax(), ValView::I(if b { 3 } else { 1 }))]), n),
        Expr::Input => (Ok(seq![InstrView::IMov(rax(), ValView::Reg(Reg::RDI))]), n),
        Expr::Id(x) => if c.stack.contains_key(x@) {
            (Ok(seq![InstrView::IMov(rax(), ValView::Mem(Reg::RSP, c.stack[x@]))]), n)
        } else if c.defines.contains_key(x@) {
            (
                Ok(
                    seq![
                        InstrView::IMov(rax(), ValView::I(c.defines[x@])),
                        InstrView::IMov(rax(), ValView::Mem(Reg::RAX, 0)),
                    ],
                ),
                n,
            )
        } else if c.funs.contains_key(x@) {
            comp_call(e, c, n)
        } else {
            (Err(msg_unbound(x@)), n)
        },
        Expr::Let(_, _) => comp_let(e, 0, c, n, Seq::empty()),
        Expr::UnOp(op, x) => match comp(*x, c, n) {
            (Ok(xi), n1) => (Ok(xi + unop_code(op, c)), n1),
            (Err(m), n1) => (Err(m), n1),
        },
        Expr::BinOp(_, _, _) => comp_binop(e, c, n),
        Expr::If(cond, a, b) => match comp(*cond, c, n + 2) {
            (Ok(ci), n1) => match comp(*a, shift_si(c, 1), n1 + 1) {
                (Ok(ti), n2) => match comp(*b, shift_si(c, 2), n2) {
                    (Ok(ei), n3) => (Ok(if_code(ci, ti, ei, n, n1)), n3),
                    (Err(m), n3) => (Err(m), n3),
                },
                (Err(m), n2) => (Err(m), n2),
            },
            (Err(m), n1) => (Err(m), n1),
        },
        Expr::Loop(body) => {
            let start = label_text("loop_start"@, n);
            let end = label_text("loop_end"@, n + 1);
            match comp(*body, CtxView { break_label: Some(end), ..c }, n + 2) {
                (Ok(bi), n1) => (
                    Ok(
                        seq![InstrView::Label(start)] + bi + seq![
                            InstrView::IJmp(ValView::S(start)),
                            InstrView::Label(end),
                        ],
                    ),
                    n1,
                ),
                (Err(m), n1) => (Err(m), n1),
            }
        },
        Expr::Break(x) => match comp(*x, CtxView { break_label: None, ..c }, n) {
            (Ok(xi), n1) => match c.break_label {
                Some(l) => (Ok(xi + seq![InstrView::IJmp(ValView::S(l))]), n1),
                None => (Err("break used outside of loop"@), n1),
            },
            (Err(m), n1) => (Err(m), n1),
        },
        Expr::Assign(x, v) => match comp(*v, c, n) {
            (Ok(vi), n1) => if c.stack.contains_key(x@) {
                (Ok(vi + seq![InstrView::IMov(ValView::Mem(Reg::RSP, c.stack[x@]), rax())]), n1)
            } else if c.defines.contains_key(x@) {
                (
                    Ok(
                        vi + seq![
                            InstrView::IMov(ValView::Reg(Reg::RCX), ValView::I(c.defines[x@])),
                            InstrView::IMov(ValView::Mem(Reg::RCX, 0), rax()),
                        ],
                    ),
                    n1,
                )
            } else {
                (Err(msg_unbound(x@)), n1)
            },
            (Err(m), n1) => (Err(m), n1),
        },
        Expr::Block(_) => comp_block(e, 0, c, n),
        Expr::Call(_, _) => comp_call(e, c, n),
        Expr::Cast(t, x) => match comp(*x, c, n) {
            (Ok(xi), n1) => (Ok(xi + cast_code(t, n1).0), cast_code(t, n1).1),
            (Err(m), n1) => (Err(m), n1),
        },
    }
}

/// The code of a binary operation once its operands are compiled: `v1`
/// and `v2` are their code, `off` the free slot, `n` the label counter
/// before the operands (the two number checks take labels `n` and `n + 1`)
/// and `n2` after them.
pub open spec fn binop_code(op: Op2, v1: Seq<InstrView>, v2: Seq<InstrView>, off: int, n: int, n2: int) -> Code {
    let comment = seq![InstrView::Comment(op2_text(op))];
    let num1 = check_code(Check::Num, n).0;
    let num2 = check_code(Check::Num, n + 1).0;
    let save = seq![InstrView::IMov(slot(off), rax())];
    match op {
        Op2::Plus => (
            Ok(
                comment + v1 + num1 + save + v2 + num2 + seq![InstrView::IAdd(rax(), slot(off))]
                    + check_code(Check::Overflow, n2).0,
            ),
            n2 + 2,
        ),
        Op2::Minus => (
            Ok(
                comment + v1 + num1 + save + v2 + num2 + seq![InstrView::ISub(rax(), slot(off))]
                    + check_code(Check::Overflow, n2).0,
            ),
            n2 + 2,
        ),
        Op2::Times => (
            Ok(
                comment + v1 + num1 + seq![InstrView::ISar(rax(), ValView::I(1))] + save + v2
                    + num2 + seq![InstrView::IMul(rax(), slot(off))] + check_code(
                    Check::Overflow,
                    n2,
                ).0,
            ),
            n2 + 2,
        ),
        Op2::Equal => (
            Ok(
                comment + v1 + save + v2 + seq![InstrView::IMov(ValView::Reg(Reg::RCX), slot(off))]
                    + check_code(Check::SameType, n2 + 2).0 + compare_code(op, off, n2),
            ),
            n2 + 6,
        ),
        _ => (Ok(comment + v1 + num1 + save + v2 + num2 + compare_code(op, off, n2)), n2 + 2),
    }
}

/// The code of a binary operation `e` in context `c`, labels from `n`:
/// the first operand is kept in the free slot while the second is computed.
pub open spec fn comp_binop(e: Expr, c: CtxView, n: int) -> Code
    decreases e, child_count(e) + 1,
{
    match e {
        Expr::BinOp(op, a, b) => match comp(*a, c, n + 2) {
            (Ok(v1), n1) => match comp(*b, shift_si(c, 1), n1) {
                (Ok(v2), n2) => binop_code(op, v1, v2, c.si * 8, n, n2),
                (Err(m), n2) => (Err(m), n2),
            },
            (Err(m), n1) => (Err(m), n1),
        },
        _ => (Ok(Seq::empty()), n),
    }
}

/// The code of an `if` once its parts are compiled: `ci`, `ti` and `ei`
/// are the code of the condition and the branches, `n` the label counter
/// before the `if` and `n1` after the condition.
pub open spec fn if_code(ci: Seq<InstrView>, ti: Seq<InstrView>, ei: Seq<InstrView>, n: int, n1: int) -> Seq<InstrView> {
    let else_l = label_text("else"@, n);
    let end_l = label_text("end"@, n + 1);
    ci + check_code(Check::Bool, n1).0 + seq![
        InstrView::ICmp(rax(), ValView::I(3)),
        InstrView::IJne(else_l),
    ] + ti + seq![InstrView::IJmp(ValView::S(end_l))] + seq![InstrView::Label(else_l)] + ei + seq![
        InstrView::Label(end_l),
    ]
}

/// The bindings of a `let` from the `i`-th on, in context `c` that the
/// earlier ones extend, `seen` holding their names; then the body.
pub open spec fn comp_let(e: Expr, i: int, c: CtxView, n: int, seen: Seq<Seq<char>>) -> Code
    decreases e, child_count(e) - i,
{
    match e {
        Expr::Let(bs, body) => if 0 <= i < bs@.len() {
            let x = bs@[i].0@;
            if seen.contains(x) {
                (Err("duplicate binding"@), n)
            } else {
                match comp(bs@[i].1, c, n) {
                    (Ok(bi), n1) => {
                        let off = c.si * 8;
                        let c2 = CtxView { si: c.si + 1, stack: c.stack.insert(x, off as i32), ..c };
                        match comp_let(e, i + 1, c2, n1, seen.push(x)) {
                            (Ok(rest), n2) => (
                                Ok(bi + seq![InstrView::IMov(slot(off), rax())] + rest),
                                n2,
                            ),
                            (Err(m), n2) => (Err(m), n2),
                        }
                    },
                    (Err(m), n1) => (Err(m), n1),
                }
            }
        } else {
            comp(*body, c, n)
        },
        _ => (Ok(Seq::empty()), n),
    }
}

/// The expressions of a block from the `i`-th on; the `k`-th is compiled
/// `k` slots above the block's context `c`.
pub open spec fn comp_block(e: Expr, i: int, c: CtxView, n: int) -> Code
    decreases e, child_count(e) - i,
{
    match e {
        Expr::Block(es) => if 0 <= i < es@.len() {
            match comp(es@[i], shift_si(c, i), n) {
                (Ok(xi), n1) => match comp_block(e, i + 1, c, n1) {
                    (Ok(rest), n2) => (Ok(xi + rest), n2),
                    (Err(m), n2) => (Err(m), n2),
                },
                (Err(m), n1) => (Err(m), n1),
            }
        } else {
            (Ok(Seq::empty()), n)
        },
        _ => (Ok(Seq::empty()), n),
    }
}

/// The arguments of a call from the `i`-th on: the `k`-th is computed
/// `k + 1` slots above the caller's context `c` and stored in that slot.
pub open spec fn comp_args(e: Expr, i: int, c: CtxView, n: int) -> Code
    decreases e, child_count(e) - i,
{
    match e {
        Expr::Call(_, args) => if 0 <= i < args@.len() {
            match comp(args@[i], shift_si(c, i + 1), n) {
                (Ok(ai), n1) => match comp_args(e, i + 1, c, n1) {
                    (Ok(rest), n2) => (
                        Ok(ai + seq![InstrView::IMov(slot((c.si + i + 1) * 8), rax())] + rest),
                        n2,
                    ),
                    (Err(m), n2) => (Err(m), n2),
                },
                (Err(m), n1) => (Err(m), n1),
            }
        } else {
            (Ok(Seq::empty()), n)
        },
        _ => (Ok(Seq::empty()), n),
    }
}

/// The name that a call (or a bare function name) calls.
pub open spec fn callee(e: Expr) -> Seq<char> {
    match e {
        Expr::Call(f, _) => f@,
        Expr::Id(f) => f@,
        _ => Seq::empty(),
    }
}

/// The code of a call (or of a bare function name, a call with no
/// arguments): the return address and the arguments are stored in the
/// slots from the free one on, `rsp` is moved down to them, and control
/// jumps to the function.
pub open spec fn comp_call(e: Expr, c: CtxView, n: int) -> Code
    decreases e, child_count(e) + 1,
{
    let f = callee(e);
    let nargs = child_count(e);
    if !c.funs.contains_key(f) {
        (Err(msg_unknown_function(f)), n)
    } else if (nargs as i32) != c.funs[f] {
        (Err(msg_arity(f, c.funs[f], nargs as i32)), n)
    } else {
        let off = c.si * 8;
        let after = label_text("after_call_"@ + f, n);
        let head = seq![
            InstrView::Comment("Call: "@ + f + " with "@ + int_text((nargs as i32) as int) + " args"@),
            InstrView::Comment("Save return address"@),
            InstrView::ILea(ValView::Reg(Reg::RCX), after),
            InstrView::IMov(slot(off), ValView::Reg(Reg::RCX)),
            InstrView::Comment("Evaluate and store arguments"@),
        ];
        let tail = seq![
            InstrView::Comment("Adjust RSP"@),
            InstrView::ISub(ValView::Reg(Reg::RSP), ValView::I(off as i64)),
            InstrView::Comment("Jump to function "@ + f),
            InstrView::IJmp(ValView::S("fun_"@ + f)),
            InstrView::Label(after),
            InstrView::Comment("Returned from function"@),
            InstrView::IAdd(ValView::Reg(Reg::RSP), ValView::I(off as i64)),
        ];
        match comp_args(e, 0, c, n + 1) {
            (Ok(ai), n1) => (Ok(head + ai + tail), n1),
            (Err(m), n1) => (Err(m), n1),
        }
    }
}

/// Code, or an error message, read through views.
pub open spec fn code_view(r: Result<Vec<Instruction>, String>) -> Result<Seq<InstrView>, Seq<char>> {
    match r {
        Ok(v) => Ok(instrs_view(v@)),
        Err(m) => Err(m@),
    }
}

/// The bounds within which compiling `e` with the free slot at `si` and the
/// label counter at `n` computes no offset and no label number outside the
/// machine integers that hold them.
pub open spec fn compile_fits(e: Expr, si: int, n: int) -> bool {
    -0x1000_0000 <= si && si + slots(e) <= 0x0FFF_FFFF && n + 8 * expr_size(e)
        <= i64::MAX
}

/// Appends the instructions of `b` to `a`.
fn extend(a: &mut Vec<Instruction>, b: Vec<Instruction>)
    ensures
        instrs_view(final(a)@) == instrs_view(old(a)@) + instrs_view(b@),
{
    let mut b = b;
    let ghost a0 = a@;
    let ghost b0 = b@;
    a.append(&mut b);
    assert(instrs_view(a@) =~= instrs_view(a0) + instrs_view(b0));
}

/// Appends one instruction to `a`.
fn emit(a: &mut Vec<Instruction>, i: Instruction)
    ensures
        instrs_view(final(a)@) == instrs_view(old(a)@).push(i@),
{
    let ghost a0 = a@;
    a.push(i);
    assert(instrs_view(a@) =~= instrs_view(a0).push(i@));
}

/// A fresh label: `prefix`, an underscore, and the counter, which moves on.
fn create_label(prefix: &str, labels: &mut i64) -> (r: String)
    requires
        *old(labels) < i64::MAX,
    ensures
        r@ == label_text(prefix@, *old(labels) as int),
        *final(labels) == *old(labels) + 1,
{
    let mut s = String::from_str(prefix);
    push_str(&mut s, "_");
    push_int(&mut s, *labels);
    *labels = *labels + 1;
    s
}

fn text(s: &str) -> (r: String)
    ensures
        r@ == s@,
{
    String::from_str(s)
}

fn rax_val() -> (r: Val)
    ensures
        r@ == rax(),
{
    Val::Reg(Reg::RAX)
}

/// The code of a run-time check.
pub fn create_check(c: Check, labels: &mut i64) -> (r: Vec<Instruction>)
    requires
        *old(labels) + 4 <= i64::MAX,
    ensures
        instrs_view(r@) == check_code(c, *old(labels) as int).0,
        *final(labels) == check_code(c, *old(labels) as int).1,
{
    let label_ok = create_label("ok", labels);
    let mut v: Vec<Instruction> = Vec::new();
    match c {
        Check::Bool => {
            emit(&mut v, Instruction::Comment(text("Check: Bool")));
            emit(&mut v, Instruction::ICmp(rax_val(), Val::I(SNEK_FALSE)));
            emit(&mut v, Instruction::IJe(label_ok.clone()));
            emit(&mut v, Instruction::ICmp(rax_val(), Val::I(SNEK_TRUE)));
            emit(&mut v, Instruction::IJe(label_ok.clone()));
            emit(&mut v, Instruction::ICallErr(1));
            emit(&mut v, Instruction::Label(label_ok));
        },
        Check::Num => {
            emit(&mut v, Instruction::Comment(text("Check: Num")));
            emit(&mut v, Instruction::ITest(rax_val(), Val::I(1)));
            emit(&mut v, Instruction::IJe(label_ok.clone()));
            emit(&mut v, Instruction::ICallErr(1));
            emit(&mut v, Instruction::Label(label_ok));
        },
        Check::Overflow => {
            let label_err = create_label("err", labels);
            emit(&mut v, Instruction::Comment(text("Check: Overflow")));
            emit(&mut v, Instruction::IJo(label_err.clone()));
            emit(&mut v, Instruction::IJmp(Val::S(label_ok.clone())));
            emit(&mut v, Instruction::Label(label_err));
            emit(&mut v, Instruction::ICallErr(2));
            emit(&mut v, Instruction::Label(label_ok));
        },
        Check::SameType => {
            let label_is_bool = create_label("is_bool", labels);
            let label_is_num = create_label("is_num", labels);
            let label_err = create_label("err", labels);
            emit(&mut v, Instruction::Comment(text("Check: SameType")));
            emit(&mut v, Instruction::ITest(rax_val(), Val::I(1)));
            emit(&mut v, Instruction::IJne(label_is_bool.clone()));
            emit(&mut v, Instruction::Label(label_is_num));
            emit(&mut v, Instruction::ITest(Val::Reg(Reg::RCX), Val::I(1)));
            emit(&mut v, Instruction::IJne(label_err.clone()));
            emit(&mut v, Instruction::IJmp(Val::S(label_ok.clone())));
            emit(&mut v, Instruction::Label(label_is_bool));
            emit(&mut v, Instruction::ITest(Val::Reg(Reg::RCX), Val::I(1)));
            emit(&mut v, Instruction::IJne(label_ok.clone()));
            emit(&mut v, Instruction::Label(label_err));
            emit(&mut v, Instruction::ICallErr(1));
            emit(&mut v, Instruction::Label(label_ok));
        },
    }
    assert(instrs_view(v@) =~= check_code(c, *old(labels) as int).0);
    v
}

/// The code of the run-time check of a cast.
pub fn create_cast_check(ty: &Type, labels: &mut i64) -> (r: Vec<Instruction>)
    requires
        *old(labels) + 1 <= i64::MAX,
    ensures
        instrs_view(r@) == cast_code(*ty, *old(labels) as int).0,
        *final(labels) == cast_code(*ty, *old(labels) as int).1,
{
    let mut v: Vec<Instruction> = Vec::new();
    match ty {
        Type::Num => {
            let label_ok = create_label("cast_ok", labels);
            emit(&mut v, Instruction::Comment(text("Check: Cast to Num")));
            emit(&mut v, Instruction::ITest(rax_val(), Val::I(1)));
            emit(&mut v, Instruction::IJe(label_ok.clone()));
            emit(&mut v, Instruction::ICallErr(3));
            emit(&mut v, Instruction::Label(label_ok));
        },
        Type::Bool => {
            let label_ok = create_label("cast_ok", labels);
            emit(&mut v, Instruction::Comment(text("Check: Cast to Bool")));
            emit(&mut v, Instruction::ITest(rax_val(), Val::I(1)));
            emit(&mut v, Instruction::IJne(label_ok.clone()));
            emit(&mut v, Instruction::ICallErr(3));
            emit(&mut v, Instruction::Label(label_ok));
        },
        Type::Nothing => {
            emit(&mut v, Instruction::Comment(text("Check: Cast to Nothing (always fails)")));
            emit(&mut v, Instruction::ICallErr(3));
        },
        Type::Any => {
            emit(&mut v, Instruction::Comment(text("Check: Cast to Any (always succeeds)")));
        },
    }
    assert(instrs_view(v@) =~= cast_code(*ty, *old(labels) as int).0);
    v
}

/// The code of a unary operation on `rax`.
fn compile_unop(o: &Op1, ctx: &Context) -> (r: Vec<Instruction>)
    requires
        -0x1000_0000 <= ctx.si <= 0x0FFF_FFFF,
    ensures
        instrs_view(r@) == unop_code(*o, ctx@),
{
    let stack_offset = ctx.curr_offset();
    let mut v: Vec<Instruction> = Vec::new();
    match o {
        Op1::Add1 => emit(&mut v, Instruction::IAdd(rax_val(), Val::I(num_to_snek(&1)))),
        Op1::Sub1 => emit(&mut v, Instruction::ISub(rax_val(), Val::I(num_to_snek(&1)))),
        Op1::Negate => emit(&mut v, Instruction::INeg(rax_val())),
        Op1::IsNum => {
            emit(&mut v, Instruction::ITest(rax_val(), Val::I(SNEK_FALSE)));
            emit(&mut v, Instruction::IMov(rax_val(), Val::I(SNEK_FALSE)));
            emit(&mut v, Instruction::IMov(Val::Mem(Reg::RSP, stack_offset), Val::I(SNEK_TRUE)));
            emit(&mut v, Instruction::ICmove(rax_val(), Val::Mem(Reg::RSP, stack_offset)));
        },
        Op1::IsBool => {
            emit(&mut v, Instruction::ITest(rax_val(), Val::I(SNEK_FALSE)));
            emit(&mut v, Instruction::IMov(rax_val(), Val::I(SNEK_TRUE)));
            emit(&mut v, Instruction::IMov(Val::Mem(Reg::RSP, stack_offset), Val::I(SNEK_FALSE)));
            emit(&mut v, Instruction::ICmove(rax_val(), Val::Mem(Reg::RSP, stack_offset)));
        },
        Op1::Print => emit(&mut v, Instruction::IPrint),
    }
    proof {
        assert(encode_num(1) == 2);
    }
    assert(instrs_view(v@) =~= unop_code(*o, ctx@));
    v
}

/// The names in `v`, read as characters.
pub open spec fn names_view(v: Seq<String>) -> Seq<Seq<char>> {
    v.map_values(|s: String| s@)
}

/// Whether one of `names` has the characters of `x`.
fn contains_name(names: &Vec<String>, x: &String) -> (r: bool)
    ensures
        r == names_view(names@).contains(x@),
{
    let mut i: usize = 0;
    while i < names.len()
        invariant
            0 <= i <= names@.len(),
            forall|j: int| 0 <= j < i ==> names@[j]@ != x@,
        decreases names@.len() - i,
    {
        if str_eq(names[i].as_str(), x.as_str()) {
            assert(names_view(names@)[i as int] == x@);
            return true;
        }
        i = i + 1;
    }
    assert forall|j: int| 0 <= j < names_view(names@).len() implies names_view(names@)[j] != x@ by {
        assert(names_view(names@)[j] == names@[j]@);
    }
    false
}

fn err_unbound(x: &str) -> (r: String)
    ensures
        r@ == msg_unbound(x@),
{
    let mut s = text("unbound variable: ");
    push_str(&mut s, x);
    s
}

/// Compiles `e` in context `ctx`, numbering new labels from the counter
/// `labels`, which moves past the labels used. The value of `e` is left
/// in `rax`.
pub fn compile_to_instructions(e: &Expr, ctx: &Context, labels: &mut i64) -> (r: Result<
    Vec<Instruction>,
    String,
>)
    requires
        compile_fits(*e, ctx.si as int, *old(labels) as int),
    ensures
        (code_view(r), *final(labels) as int) == comp(*e, ctx@, *old(labels) as int),
        *old(labels) <= *final(labels) <= *old(labels) + 8 * expr_size(*e),
    decreases e, 3nat,
{
    proof {
        lemma_expr_size_pos(*e);
    }
    match e {
        Expr::Num(n) => {
            let mut v: Vec<Instruction> = Vec::new();
            emit(&mut v, Instruction::IMov(rax_val(), Val::I(num_to_snek(n))));
            assert(instrs_view(v@) =~= seq![InstrView::IMov(rax(), ValView::I(encode_num(*n)))]);
            Ok(v)
        },
        Expr::Bool(b) => {
            let mut v: Vec<Instruction> = Vec::new();
            emit(&mut v, Instruction::IMov(rax_val(), Val::I(bool_to_snek(*b))));
            assert(instrs_view(v@) =~= seq![InstrView::IMov(rax(), ValView::I(if *b { 3 } else { 1 }))]);
            Ok(v)
        },
        Expr::Input => {
            let mut v: Vec<Instruction> = Vec::new();
            emit(&mut v, Instruction::IMov(rax_val(), Val::Reg(Reg::RDI)));
            assert(instrs_view(v@) =~= seq![InstrView::IMov(rax(), ValView::Reg(Reg::RDI))]);
            Ok(v)
        },
        Expr::Id(_) => compile_id(e, ctx, labels),
        Expr::Let(_, _) => compile_let(e, ctx, labels),
        Expr::UnOp(op, x) => {
            proof {
                lemma_slots_nonneg(**x);
            }
            let mut v = match compile_to_instructions(x, ctx, labels) {
                Ok(v) => v,
                Err(m) => {
                    return Err(m);
                },
            };
            extend(&mut v, compile_unop(op, ctx));
            Ok(v)
        },
        Expr::BinOp(_, _, _) => compile_binop(e, ctx, labels),
        Expr::If(_, _, _) => compile_if(e, ctx, labels),
        Expr::Loop(_) => compile_loop(e, ctx, labels),
        Expr::Break(_) => compile_break(e, ctx, labels),
        Expr::Assign(_, _) => compile_assign(e, ctx, labels),
        Expr::Block(_) => compile_block(e, ctx, labels),
        Expr::Call(_, _) => compile_call(e, ctx, labels),
        Expr::Cast(ty, x) => {
            let mut v = match compile_to_instructions(x, ctx, labels) {
                Ok(v) => v,
                Err(m) => {
                    return Err(m);
                },
            };
            extend(&mut v, create_cast_check(ty, labels));
            Ok(v)
        },
    }
}

/// A name: a local variable, a variable defined at the prompt, or a
/// function called with no arguments.
fn compile_id(e: &Expr, ctx: &Context, labels: &mut i64) -> (r: Result<Vec<Instruction>, String>)
    requires
        e is Id,
        compile_fits(*e, ctx.si as int, *old(labels) as int),
    ensures
        (code_view(r), *final(labels) as int) == comp(*e, ctx@, *old(labels) as int),
        *old(labels) <= *final(labels) <= *old(labels) + 8 * expr_size(*e),
    decreases e, 2nat,
{
    match e {
        Expr::Id(s) => {
            match i32_map_get(&ctx.stack_env, s.as_str()) {
                Some(offset) => {
                    let mut v: Vec<Instruction> = Vec::new();
                    emit(&mut v, Instruction::IMov(rax_val(), Val::Mem(Reg::RSP, offset)));
                    assert(instrs_view(v@) =~= seq![InstrView::IMov(rax(), ValView::Mem(Reg::RSP, offset))]);
                    Ok(v)
                },
                None => {
                    match i64_map_get(&ctx.define_env, s.as_str()) {
                        Some(value) => {
                            let mut v: Vec<Instruction> = Vec::new();
                            emit(&mut v, Instruction::IMov(rax_val(), Val::I(value)));
                            emit(&mut v, Instruction::IMov(rax_val(), Val::Mem(Reg::RAX, 0)));
                            assert(instrs_view(v@) =~= seq![
                                InstrView::IMov(rax(), ValView::I(value)),
                                InstrView::IMov(rax(), ValView::Mem(Reg::RAX, 0)),
                            ]);
                            Ok(v)
                        },
                        None => {
                            match i32_map_get(&ctx.fun_env, s.as_str()) {
                                Some(_) => compile_call(e, ctx, labels),
                                None => Err(err_unbound(s.as_str())),
                            }
                        },
                    }
                },
            }
        },
        _ => Ok(Vec::new()),
    }
}

/// A `let`: each binding is computed and stored in the next free slot,
/// where later bindings and the body find it.
fn compile_let(e: &Expr, ctx: &Context, labels: &mut i64) -> (r: Result<Vec<Instruction>, String>)
    requires
        e is Let,
        compile_fits(*e, ctx.si as int, *old(labels) as int),
    ensures
        (code_view(r), *final(labels) as int) == comp(*e, ctx@, *old(labels) as int),
        *old(labels) <= *final(labels) <= *old(labels) + 8 * expr_size(*e),
    decreases e, 0nat,
{
    let ghost n0 = *labels as int;
    match e {
        Expr::Let(bindings, subexpr) => {
            let mut instrs: Vec<Instruction> = Vec::new();
            let mut new_ctx = ctx.clone();
            let mut curr_bindings: Vec<String> = Vec::new();
            let mut i: usize = 0;
            assert(names_view(curr_bindings@) =~= Seq::<Seq<char>>::empty());
            assert(instrs_view(instrs@) + Seq::<InstrView>::empty() =~= Seq::<InstrView>::empty());
            while i < bindings.len()
                invariant
                    0 <= i <= bindings@.len(),
                    *e == Expr::Let(*bindings, *subexpr),
                    new_ctx.si == ctx.si + i,
                    -0x1000_0000 <= ctx.si,
                    new_ctx.si + slots_from(*e, i as int) <= ctx.si + slots(*e),
                    *labels + 8 * size_from(*e, i as int) <= n0 + 8 * expr_size(*e) - 8,
                    n0 <= *labels,
                    n0 == *old(labels) as int,
                    ctx.si + slots(*e) <= 0x0FFF_FFFF,
                    n0 + 8 * expr_size(*e) <= i64::MAX,
                    comp(*e, ctx@, n0) == (match comp_let(*e, i as int, new_ctx@, *labels as int, names_view(curr_bindings@)) {
                        (Ok(rest), n2) => (Ok(instrs_view(instrs@) + rest), n2),
                        (Err(m), n2) => (Err(m), n2),
                    }),
                decreases bindings@.len() - i,
            {
                proof {
                    lemma_expr_size_pos(bindings@[i as int].1);
                    lemma_slots_from_nonneg(*e, i + 1);
                    lemma_slots_nonneg(bindings@[i as int].1);
                    crate::ast::lemma_size_from_nonneg(*e, i + 1);
                    crate::ast::lemma_size_from_nonneg(*e, i as int);
                    assert(decreases_to!(*e => bindings@[i as int].1));
                }
                if contains_name(&curr_bindings, &bindings[i].0) {
                    let m = text("duplicate binding");
                    assert(comp_let(*e, i as int, new_ctx@, *labels as int, names_view(curr_bindings@))
                        == (Err::<Seq<InstrView>, Seq<char>>("duplicate binding"@), *labels as int));
                    return Err(m);
                }
                let ghost seen = names_view(curr_bindings@);
                let ghost c_before = new_ctx@;
                let ghost before = instrs_view(instrs@);
                curr_bindings.push(bindings[i].0.clone());
                assert(names_view(curr_bindings@) =~= seen.push(bindings@[i as int].0@));
                let bind_instrs = match compile_to_instructions(&bindings[i].1, &new_ctx, labels) {
                    Ok(v) => v,
                    Err(m) => {
                        return Err(m);
                    },
                };
                let ghost bi = instrs_view(bind_instrs@);
                let offset = new_ctx.curr_offset();
                extend(&mut instrs, bind_instrs);
                emit(&mut instrs, Instruction::IMov(Val::Mem(Reg::RSP, offset), rax_val()));
                new_ctx.insert_stack(bindings[i].0.clone(), offset);
                new_ctx.increment_si_by(1);
                i = i + 1;
                proof {
                    let c2 = CtxView {
                        si: c_before.si + 1,
                        stack: c_before.stack.insert(bindings@[i - 1].0@, (c_before.si * 8) as i32),
                        ..c_before
                    };
                    assert(new_ctx@ == c2);
                    if let (Ok(rest), _) = comp_let(*e, i as int, new_ctx@, *labels as int, names_view(curr_bindings@)) {
                        assert(before + (bi + seq![InstrView::IMov(slot(c_before.si * 8), rax())] + rest)
                            =~= instrs_view(instrs@) + rest);
                    }
                }
            }
            let sub_instrs = match compile_to_instructions(subexpr, &new_ctx, labels) {
                Ok(v) => v,
                Err(m) => {
                    return Err(m);
                },
            };
            extend(&mut instrs, sub_instrs);
            Ok(instrs)
        },
        _ => Ok(Vec::new()),
    }
}

/// A block: each expression in turn, the `k`-th one slot above the
/// `k - 1`-th; the value of the last is left in `rax`.
fn compile_block(e: &Expr, ctx: &Context, labels: &mut i64) -> (r: Result<Vec<Instruction>, String>)
    requires
        e is Block,
        compile_fits(*e, ctx.si as int, *old(labels) as int),
    ensures
        (code_view(r), *final(labels) as int) == comp(*e, ctx@, *old(labels) as int),
        *old(labels) <= *final(labels) <= *old(labels) + 8 * expr_size(*e),
    decreases e, 0nat,
{
    let ghost n0 = *labels as int;
    match e {
        Expr::Block(subexprs) => {
            let mut instrs: Vec<Instruction> = Vec::new();
            let mut block_ctx = ctx.clone();
            let mut i: usize = 0;
            assert(instrs_view(instrs@) =~= Seq::<InstrView>::empty());
            while i < subexprs.len()
                invariant
                    0 <= i <= subexprs@.len(),
                    *e == Expr::Block(*subexprs),
                    block_ctx@ == shift_si(ctx@, i as int),
                    block_ctx.si == ctx.si + i,
                    -0x1000_0000 <= ctx.si,
                    block_ctx.si + slots_from(*e, i as int) <= ctx.si + slots(*e),
                    *labels + 8 * size_from(*e, i as int) <= n0 + 8 * expr_size(*e) - 8,
                    n0 <= *labels,
                    n0 == *old(labels) as int,
                    ctx.si + slots(*e) <= 0x0FFF_FFFF,
                    n0 + 8 * expr_size(*e) <= i64::MAX,
                    comp(*e, ctx@, n0) == (match comp_block(*e, i as int, ctx@, *labels as int) {
                        (Ok(rest), n2) => (Ok(instrs_view(instrs@) + rest), n2),
                        (Err(m), n2) => (Err(m), n2),
                    }),
                decreases subexprs@.len() - i,
            {
                proof {
                    lemma_expr_size_pos(subexprs@[i as int]);
                    lemma_slots_from_nonneg(*e, i + 1);
                    lemma_slots_nonneg(subexprs@[i as int]);
                    crate::ast::lemma_size_from_nonneg(*e, i + 1);
                    crate::ast::lemma_size_from_nonneg(*e, i as int);
                    assert(decreases_to!(*e => subexprs@[i as int]));
                }
                let ghost before = instrs_view(instrs@);
                let instr = match compile_to_instructions(&subexprs[i], &block_ctx, labels) {
                    Ok(v) => v,
                    Err(m) => {
                        return Err(m);
                    },
                };
                let ghost xi = instrs_view(instr@);
                extend(&mut instrs, instr);
                block_ctx.increment_si_by(1);
                i = i + 1;
                proof {
                    if let (Ok(rest), _) = comp_block(*e, i as int, ctx@, *labels as int) {
                        assert(before + (xi + rest) =~= instrs_view(instrs@) + rest);
                    }
                }
            }
            proof {
                crate::ast::lemma_size_from_nonneg(*e, i as int);
                assert(instrs_view(instrs@) + Seq::<InstrView>::empty() =~= instrs_view(instrs@));
            }
            Ok(instrs)
        },
        _ => Ok(Vec::new()),
    }
}

/// A loop: the body runs again and again until a `break` jumps to its end.
fn compile_loop(e: &Expr, ctx: &Context, labels: &mut i64) -> (r: Result<Vec<Instruction>, String>)
    requires
        e is Loop,
        compile_fits(*e, ctx.si as int, *old(labels) as int),
    ensures
        (code_view(r), *final(labels) as int) == comp(*e, ctx@, *old(labels) as int),
        *old(labels) <= *final(labels) <= *old(labels) + 8 * expr_size(*e),
    decreases e, 0nat,
{
    match e {
        Expr::Loop(body) => {
            proof {
                lemma_expr_size_pos(**body);
            }
            let label_start = create_label("loop_start", labels);
            let label_end = create_label("loop_end", labels);
            let mut body_ctx = ctx.clone();
            body_ctx.with_break_label(label_end.clone());
            let mut instrs: Vec<Instruction> = Vec::new();
            emit(&mut instrs, Instruction::Label(label_start.clone()));
            let i_body = match compile_to_instructions(body, &body_ctx, labels) {
                Ok(v) => v,
                Err(m) => {
                    return Err(m);
                },
            };
            let ghost bi = instrs_view(i_body@);
            extend(&mut instrs, i_body);
            emit(&mut instrs, Instruction::IJmp(Val::S(label_start)));
            emit(&mut instrs, Instruction::Label(label_end));
            assert(instrs_view(instrs@) =~= seq![InstrView::Label(label_text("loop_start"@, *old(labels) as int))] + bi + seq![
                InstrView::IJmp(ValView::S(label_text("loop_start"@, *old(labels) as int))),
                InstrView::Label(label_text("loop_end"@, *old(labels) + 1)),
            ]);
            Ok(instrs)
        },
        _ => Ok(Vec::new()),
    }
}

/// A `break`: its value is computed (where no loop is open), then control
/// jumps to the end of the enclosing loop.
fn compile_break(e: &Expr, ctx: &Context, labels: &mut i64) -> (r: Result<Vec<Instruction>, String>)
    requires
        e is Break,
        compile_fits(*e, ctx.si as int, *old(labels) as int),
    ensures
        (code_view(r), *final(labels) as int) == comp(*e, ctx@, *old(labels) as int),
        *old(labels) <= *final(labels) <= *old(labels) + 8 * expr_size(*e),
    decreases e, 0nat,
{
    match e {
        Expr::Break(subexpr) => {
            let mut break_ctx = ctx.clone();
            break_ctx.clear_break_label();
            let mut i_ret = match compile_to_instructions(subexpr, &break_ctx, labels) {
                Ok(v) => v,
                Err(m) => {
                    return Err(m);
                },
            };
            match &ctx.break_label {
                Some(label_loop_end) => {
                    let ghost xi = instrs_view(i_ret@);
                    emit(&mut i_ret, Instruction::IJmp(Val::S(label_loop_end.clone())));
                    assert(instrs_view(i_ret@) =~= xi + seq![InstrView::IJmp(ValView::S(label_loop_end@))]);
                    Ok(i_ret)
                },
                None => Err(text("break used outside of loop")),
            }
        },
        _ => Ok(Vec::new()),
    }
}

/// An assignment: the value is computed, then stored where the variable
/// lives.
fn compile_assign(e: &Expr, ctx: &Context, labels: &mut i64) -> (r: Result<Vec<Instruction>, String>)
    requires
        e is Assign,
        compile_fits(*e, ctx.si as int, *old(labels) as int),
    ensures
        (code_view(r), *final(labels) as int) == comp(*e, ctx@, *old(labels) as int),
        *old(labels) <= *final(labels) <= *old(labels) + 8 * expr_size(*e),
    decreases e, 0nat,
{
    match e {
        Expr::Assign(id, subexpr) => {
            let mut instrs = match compile_to_instructions(subexpr, ctx, labels) {
                Ok(v) => v,
                Err(m) => {
                    return Err(m);
                },
            };
            match i32_map_get(&ctx.stack_env, id.as_str()) {
                Some(offset) => {
                    let ghost vi = instrs_view(instrs@);
                    emit(&mut instrs, Instruction::IMov(Val::Mem(Reg::RSP, offset), rax_val()));
                    assert(instrs_view(instrs@) =~= vi + seq![InstrView::IMov(ValView::Mem(Reg::RSP, offset), rax())]);
                    Ok(instrs)
                },
                None => match i64_map_get(&ctx.define_env, id.as_str()) {
                    Some(ptr) => {
                        let ghost vi = instrs_view(instrs@);
                        emit(&mut instrs, Instruction::IMov(Val::Reg(Reg::RCX), Val::I(ptr)));
                        emit(&mut instrs, Instruction::IMov(Val::Mem(Reg::RCX, 0), rax_val()));
                        assert(instrs_view(instrs@) =~= vi + seq![
                            InstrView::IMov(ValView::Reg(Reg::RCX), ValView::I(ptr)),
                            InstrView::IMov(ValView::Mem(Reg::RCX, 0), rax()),
                        ]);
                        Ok(instrs)
                    },
                    None => Err(err_unbound(id.as_str())),
                },
            }
        },
        _ => Ok(Vec::new()),
    }
}

fn err_arity(name: &str, expected: i32, got: i32) -> (r: String)
    ensures
        r@ == msg_arity(name@, expected, got),
{
    let mut s = text("function ");
    push_str(&mut s, name);
    push_str(&mut s, " expects ");
    push_int(&mut s, expected as i64);
    push_str(&mut s, " arguments, got ");
    push_int(&mut s, got as i64);
    s
}

/// A call of a function by name (`e` is a call, or a bare name that calls
/// with no arguments): the return address is stored in the free slot and
/// each argument in the slots above it, `rsp` is moved down to them, and
/// control jumps to the function and comes back.
#[verifier::rlimit(40)]
fn compile_call(e: &Expr, ctx: &Context, labels: &mut i64) -> (r: Result<Vec<Instruction>, String>)
    requires
        e is Call || e is Id,
        compile_fits(*e, ctx.si as int, *old(labels) as int),
    ensures
        (code_view(r), *final(labels) as int) == comp_call(*e, ctx@, *old(labels) as int),
        *old(labels) <= *final(labels) <= *old(labels) + 8 * expr_size(*e),
    decreases e, 1nat,
{
    let ghost n0 = *labels as int;
    let empty: Vec<Expr> = Vec::new();
    let empty_name: String = String::new();
    let (name, args): (&String, &Vec<Expr>) = match e {
        Expr::Call(n, a) => (n, a),
        Expr::Id(n) => (n, &empty),
        _ => (&empty_name, &empty),
    };
    assert(name@ == callee(*e));
    assert(args@.len() == child_count(*e));
    proof {
        lemma_expr_size_pos(*e);
        crate::ast::lemma_size_from_nonneg(*e, 0);
        lemma_slots_from_nonneg(*e, 0);
        lemma_slots_nonneg(*e);
    }
    match i32_map_get(&ctx.fun_env, name.as_str()) {
        Some(expected_args) => {
            let num_args = args.len() as i32;
            if num_args != expected_args {
                return Err(err_arity(name.as_str(), expected_args, num_args));
            }
            proof {
                lemma_expr_size_pos(*e);
                crate::ast::lemma_size_from_nonneg(*e, 0);
            }
            let mut new_ctx = ctx.clone();
            let mut instrs: Vec<Instruction> = Vec::new();
            let mut comment = text("Call: ");
            push_str(&mut comment, name.as_str());
            push_str(&mut comment, " with ");
            push_int(&mut comment, num_args as i64);
            push_str(&mut comment, " args");
            emit(&mut instrs, Instruction::Comment(comment));
            let fun_offset = new_ctx.curr_offset();
            let mut prefix = text("after_call_");
            push_str(&mut prefix, name.as_str());
            let after_call_label = create_label(prefix.as_str(), labels);
            emit(&mut instrs, Instruction::Comment(text("Save return address")));
            emit(&mut instrs, Instruction::ILea(Val::Reg(Reg::RCX), after_call_label.clone()));
            emit(&mut instrs, Instruction::IMov(Val::Mem(Reg::RSP, fun_offset), Val::Reg(Reg::RCX)));
            emit(&mut instrs, Instruction::Comment(text("Evaluate and store arguments")));
            let ghost head = instrs_view(instrs@);
            assert(head =~= seq![
                InstrView::Comment("Call: "@ + name@ + " with "@ + int_text((child_count(*e) as i32) as int) + " args"@),
                InstrView::Comment("Save return address"@),
                InstrView::ILea(ValView::Reg(Reg::RCX), label_text("after_call_"@ + name@, n0)),
                InstrView::IMov(slot(ctx.si * 8), ValView::Reg(Reg::RCX)),
                InstrView::Comment("Evaluate and store arguments"@),
            ]);
            let arg_code = match compile_args(e, args, ctx, labels) {
                Ok(v) => v,
                Err(m) => {
                    return Err(m);
                },
            };
            let ghost ai = instrs_view(arg_code@);
            extend(&mut instrs, arg_code);
            emit(&mut instrs, Instruction::Comment(text("Adjust RSP")));
            emit(&mut instrs, Instruction::ISub(Val::Reg(Reg::RSP), Val::I(fun_offset as i64)));
            let mut fun_label = text("fun_");
            push_str(&mut fun_label, name.as_str());
            let mut jump_comment = text("Jump to function ");
            push_str(&mut jump_comment, name.as_str());
            emit(&mut instrs, Instruction::Comment(jump_comment));
            emit(&mut instrs, Instruction::IJmp(Val::S(fun_label)));
            emit(&mut instrs, Instruction::Label(after_call_label));
            emit(&mut instrs, Instruction::Comment(text("Returned from function")));
            emit(&mut instrs, Instruction::IAdd(Val::Reg(Reg::RSP), Val::I(fun_offset as i64)));
            let ghost f = name@;
            let ghost off = ctx.si * 8;
            let ghost after = label_text("after_call_"@ + f, n0);
            assert(instrs_view(instrs@) =~= head + ai + seq![
                InstrView::Comment("Adjust RSP"@),
                InstrView::ISub(ValView::Reg(Reg::RSP), ValView::I(off as i64)),
                InstrView::Comment("Jump to function "@ + f),
                InstrView::IJmp(ValView::S("fun_"@ + f)),
                InstrView::Label(after),
                InstrView::Comment("Returned from function"@),
                InstrView::IAdd(ValView::Reg(Reg::RSP), ValView::I(off as i64)),
            ]);
            Ok(instrs)
        },
        None => Err(err_unknown_function(name.as_str())),
    }
}

fn err_unknown_function(f: &str) -> (r: String)
    ensures
        r@ == msg_unknown_function(f@),
{
    let mut s = text("unknown function: ");
    push_str(&mut s, f);
    s
}

/// The arguments of a call: the `k`-th is computed `k + 1` slots above the
/// caller's context and stored in that slot.
fn compile_args(e: &Expr, args: &Vec<Expr>, ctx: &Context, labels: &mut i64) -> (r: Result<Vec<Instruction>, String>)
    requires
        e is Call || e is Id,
        args@.len() == child_count(*e),
        e is Call ==> (e matches Expr::Call(_, a) && a@ == args@),
        -0x1000_0000 <= ctx.si,
        ctx.si + slots_from(*e, 0) <= 0x0FFF_FFFF,
        *old(labels) + 8 * size_from(*e, 0) <= i64::MAX,
    ensures
        (code_view(r), *final(labels) as int) == comp_args(*e, 0, ctx@, *old(labels) as int),
        *old(labels) <= *final(labels) <= *old(labels) + 8 * size_from(*e, 0),
    decreases e, 0nat,
{
    let ghost n1 = *labels as int;
    let mut new_ctx = ctx.clone();
    let mut arg_code: Vec<Instruction> = Vec::new();
    let mut i: usize = 0;
    assert(instrs_view(arg_code@) + Seq::<InstrView>::empty() =~= Seq::<InstrView>::empty());
    while i < args.len()
        invariant
            0 <= i <= args@.len(),
            args@.len() == child_count(*e),
            e is Call ==> (e matches Expr::Call(_, a) && a@ == args@),
            !(e is Call) ==> args@.len() == 0,
            new_ctx@ == shift_si(ctx@, i as int),
            new_ctx.si == ctx.si + i,
            -0x1000_0000 <= ctx.si,
            new_ctx.si + slots_from(*e, i as int) <= ctx.si + slots_from(*e, 0),
            *labels + 8 * size_from(*e, i as int) <= n1 + 8 * size_from(*e, 0),
            n1 <= *labels,
            n1 == *old(labels) as int,
            ctx.si + slots_from(*e, 0) <= 0x0FFF_FFFF,
            n1 + 8 * size_from(*e, 0) <= i64::MAX,
            comp_args(*e, 0, ctx@, n1) == (match comp_args(*e, i as int, ctx@, *labels as int) {
                (Ok(rest), n2) => (Ok(instrs_view(arg_code@) + rest), n2),
                (Err(m), n2) => (Err(m), n2),
            }),
        decreases args@.len() - i,
    {
        proof {
            lemma_expr_size_pos(args@[i as int]);
            lemma_slots_nonneg(args@[i as int]);
            lemma_slots_from_nonneg(*e, i + 1);
            crate::ast::lemma_size_from_nonneg(*e, i + 1);
            crate::ast::lemma_size_from_nonneg(*e, i as int);
            if let Expr::Call(_, a) = e {
                assert(decreases_to!(*e => a@[i as int]));
            }
        }
        new_ctx.increment_si_by(1);
        let ghost before = instrs_view(arg_code@);
        let ghost li = *labels as int;
        let a = match compile_to_instructions(&args[i], &new_ctx, labels) {
            Ok(v) => v,
            Err(m) => {
                assert(new_ctx@ == shift_si(ctx@, i + 1));
                return Err(m);
            },
        };
        let ghost ai = instrs_view(a@);
        extend(&mut arg_code, a);
        let off = new_ctx.curr_offset();
        emit(&mut arg_code, Instruction::IMov(Val::Mem(Reg::RSP, off), rax_val()));
        i = i + 1;
        proof {
            if let (Ok(rest), _) = comp_args(*e, i as int, ctx@, *labels as int) {
                assert(before + (ai + seq![InstrView::IMov(slot((ctx.si + i) * 8), rax())] + rest)
                    =~= instrs_view(arg_code@) + rest);
            }
        }
    }
    proof {
        assert(instrs_view(arg_code@) + Seq::<InstrView>::empty() =~= instrs_view(arg_code@));
        crate::ast::lemma_size_from_nonneg(*e, i as int);
    }
    Ok(arg_code)
}

/// An `if`: the condition is checked to be a boolean, then one branch runs.
fn compile_if(e: &Expr, ctx: &Context, labels: &mut i64) -> (r: Result<Vec<Instruction>, String>)
    requires
        e is If,
        compile_fits(*e, ctx.si as int, *old(labels) as int),
    ensures
        (code_view(r), *final(labels) as int) == comp(*e, ctx@, *old(labels) as int),
        *old(labels) <= *final(labels) <= *old(labels) + 8 * expr_size(*e),
    decreases e, 0nat,
{
    match e {
        Expr::If(cond, then, els) => {
            proof {
                lemma_expr_size_pos(**cond);
                lemma_expr_size_pos(**then);
                lemma_expr_size_pos(**els);
                lemma_slots_nonneg(**cond);
                lemma_slots_nonneg(**then);
                lemma_slots_nonneg(**els);
            }
            let label_else = create_label("else", labels);
            let label_end = create_label("end", labels);
            let i_cond = match compile_to_instructions(cond, ctx, labels) {
                Ok(v) => v,
                Err(m) => {
                    return Err(m);
                },
            };
            let ghost n1 = *labels as int;
            let ghost ci = instrs_view(i_cond@);
            let i_check_bool = create_check(Check::Bool, labels);
            let mut instrs = i_cond;
            extend(&mut instrs, i_check_bool);
            emit(&mut instrs, Instruction::ICmp(rax_val(), Val::I(SNEK_TRUE)));
            emit(&mut instrs, Instruction::IJne(label_else.clone()));
            let mut then_ctx = ctx.clone();
            then_ctx.increment_si_by(1);
            let i_then = match compile_to_instructions(then, &then_ctx, labels) {
                Ok(v) => v,
                Err(m) => {
                    return Err(m);
                },
            };
            let ghost ti = instrs_view(i_then@);
            let ghost pre = instrs_view(instrs@);
            extend(&mut instrs, i_then);
            emit(&mut instrs, Instruction::IJmp(Val::S(label_end.clone())));
            let mut else_ctx = ctx.clone();
            else_ctx.increment_si_by(2);
            emit(&mut instrs, Instruction::Label(label_else));
            let i_else = match compile_to_instructions(els, &else_ctx, labels) {
                Ok(v) => v,
                Err(m) => {
                    return Err(m);
                },
            };
            let ghost ei = instrs_view(i_else@);
            extend(&mut instrs, i_else);
            emit(&mut instrs, Instruction::Label(label_end));
            proof {
                let else_l = label_text("else"@, *old(labels) as int);
                let end_l = label_text("end"@, *old(labels) + 1);
                assert(instrs_view(instrs@) =~= if_code(ci, ti, ei, *old(labels) as int, n1));
            }
            Ok(instrs)
        },
        _ => Ok(Vec::new()),
    }
}

/// A binary operation: the first operand is computed and kept in the free
/// slot while the second is computed into `rax`; operands are checked to
/// be numbers (or, for `=`, of the same kind), and sums, differences and
/// products are checked for overflow.
fn compile_binop(e: &Expr, ctx: &Context, labels: &mut i64) -> (r: Result<Vec<Instruction>, String>)
    requires
        e is BinOp,
        compile_fits(*e, ctx.si as int, *old(labels) as int),
    ensures
        (code_view(r), *final(labels) as int) == comp(*e, ctx@, *old(labels) as int),
        *old(labels) <= *final(labels) <= *old(labels) + 8 * expr_size(*e),
    decreases e, 0nat,
{
    let ghost n0 = *labels as int;
    match e {
        Expr::BinOp(o, e1, e2) => {
            proof {
                lemma_expr_size_pos(**e1);
                lemma_expr_size_pos(**e2);
                lemma_slots_nonneg(**e1);
                lemma_slots_nonneg(**e2);
            }
            let stack_offset = ctx.curr_offset();
            let check_num1_instrs = create_check(Check::Num, labels);
            let check_num2_instrs = create_check(Check::Num, labels);
            let val1_instrs = match compile_to_instructions(e1, ctx, labels) {
                Ok(v) => v,
                Err(m) => {
                    assert(comp_binop(*e, ctx@, n0) == (Err::<Seq<InstrView>, Seq<char>>(m@), *labels as int));
                    return Err(m);
                },
            };
            let ghost n1 = *labels as int;
            let mut v2_ctx = ctx.clone();
            v2_ctx.increment_si_by(1);
            let val2_instrs = match compile_to_instructions(e2, &v2_ctx, labels) {
                Ok(v) => v,
                Err(m) => {
                    assert(comp(**e1, ctx@, n0 + 2) == (Ok::<Seq<InstrView>, Seq<char>>(instrs_view(val1_instrs@)), n1));
                    assert(comp_binop(*e, ctx@, n0) == (Err::<Seq<InstrView>, Seq<char>>(m@), *labels as int));
                    return Err(m);
                },
            };
            let ghost n2 = *labels as int;
            let ghost v1 = instrs_view(val1_instrs@);
            let ghost v2 = instrs_view(val2_instrs@);
            assert(v2_ctx@ == shift_si(ctx@, 1));
            assert(comp_binop(*e, ctx@, n0) == binop_code(*o, v1, v2, ctx.si * 8, n0, n2));
            let r = assemble_binop(o, val1_instrs, val2_instrs, check_num1_instrs, check_num2_instrs, stack_offset, labels, Ghost(n0));
            Ok(r)
        },
        _ => Ok(Vec::new()),
    }
}

/// Puts together the code of a binary operation from its compiled operands.
fn assemble_binop(
    o: &Op2,
    val1_instrs: Vec<Instruction>,
    val2_instrs: Vec<Instruction>,
    check_num1_instrs: Vec<Instruction>,
    check_num2_instrs: Vec<Instruction>,
    stack_offset: i32,
    labels: &mut i64,
    Ghost(n0): Ghost<int>,
) -> (r: Vec<Instruction>)
    requires
        *old(labels) + 6 <= i64::MAX,
        instrs_view(check_num1_instrs@) == check_code(Check::Num, n0).0,
        instrs_view(check_num2_instrs@) == check_code(Check::Num, n0 + 1).0,
    ensures
        (Ok::<Seq<InstrView>, Seq<char>>(instrs_view(r@)), *final(labels) as int) == binop_code(
            *o,
            instrs_view(val1_instrs@),
            instrs_view(val2_instrs@),
            stack_offset as int,
            n0,
            *old(labels) as int,
        ),
{
    let ghost n2 = *labels as int;
    let ghost num1 = instrs_view(check_num1_instrs@);
    let ghost num2 = instrs_view(check_num2_instrs@);
    let ghost v1 = instrs_view(val1_instrs@);
    let ghost v2 = instrs_view(val2_instrs@);
    let ghost off = stack_offset as int;
    let ghost save = seq![InstrView::IMov(slot(off), rax())];
    let mut out: Vec<Instruction> = Vec::new();
    emit(&mut out, Instruction::Comment(text(o.name())));
    let ghost comment = instrs_view(out@);
    assert(comment =~= seq![InstrView::Comment(op2_text(*o))]);
    match o {
        Op2::Plus | Op2::Minus | Op2::Times => {
            extend(&mut out, val1_instrs);
            extend(&mut out, check_num1_instrs);
            if let Op2::Times = o {
                emit(&mut out, Instruction::ISar(rax_val(), Val::I(1)));
            }
            emit(&mut out, Instruction::IMov(Val::Mem(Reg::RSP, stack_offset), rax_val()));
            extend(&mut out, val2_instrs);
            extend(&mut out, check_num2_instrs);
            match o {
                Op2::Plus => emit(&mut out, Instruction::IAdd(rax_val(), Val::Mem(Reg::RSP, stack_offset))),
                Op2::Minus => emit(&mut out, Instruction::ISub(rax_val(), Val::Mem(Reg::RSP, stack_offset))),
                _ => emit(&mut out, Instruction::IMul(rax_val(), Val::Mem(Reg::RSP, stack_offset))),
            }
            let check_overflow_instrs = create_check(Check::Overflow, labels);
            extend(&mut out, check_overflow_instrs);
            proof {
                let ov = check_code(Check::Overflow, n2).0;
                match o {
                    Op2::Plus => {
                        assert(instrs_view(out@) =~= comment + v1 + num1 + save + v2 + num2 + seq![
                            InstrView::IAdd(rax(), slot(off)),
                        ] + ov);
                    },
                    Op2::Minus => {
                        assert(instrs_view(out@) =~= comment + v1 + num1 + save + v2 + num2 + seq![
                            InstrView::ISub(rax(), slot(off)),
                        ] + ov);
                    },
                    _ => {
                        assert(instrs_view(out@) =~= comment + v1 + num1 + seq![InstrView::ISar(rax(), ValView::I(1))]
                            + save + v2 + num2 + seq![InstrView::IMul(rax(), slot(off))] + ov);
                    },
                }
            }
        },
        _ => {
            let op_instrs = create_compare(o, stack_offset, labels);
            let ghost cq = instrs_view(op_instrs@);
            if let Op2::Equal = o {
                extend(&mut out, val1_instrs);
                emit(&mut out, Instruction::IMov(Val::Mem(Reg::RSP, stack_offset), rax_val()));
                extend(&mut out, val2_instrs);
                emit(&mut out, Instruction::IMov(Val::Reg(Reg::RCX), Val::Mem(Reg::RSP, stack_offset)));
                let check_type_instrs = create_check(Check::SameType, labels);
                let ghost st = instrs_view(check_type_instrs@);
                extend(&mut out, check_type_instrs);
                extend(&mut out, op_instrs);
                assert(instrs_view(out@) =~= comment + v1 + save + v2 + seq![
                    InstrView::IMov(ValView::Reg(Reg::RCX), slot(off)),
                ] + st + cq);
            } else {
                extend(&mut out, val1_instrs);
                extend(&mut out, check_num1_instrs);
                emit(&mut out, Instruction::IMov(Val::Mem(Reg::RSP, stack_offset), rax_val()));
                extend(&mut out, val2_instrs);
                extend(&mut out, check_num2_instrs);
                extend(&mut out, op_instrs);
                assert(instrs_view(out@) =~= comment + v1 + num1 + save + v2 + num2 + cq);
            }
        },
    }
    out
}

/// The code that compares `rax` with the slot at `off` and leaves the
/// outcome of `o` (a comparison) as a boolean in `rax`.
fn create_compare(o: &Op2, off: i32, labels: &mut i64) -> (r: Vec<Instruction>)
    requires
        *old(labels) + 2 <= i64::MAX,
    ensures
        instrs_view(r@) == compare_code(*o, off as int, *old(labels) as int),
        *final(labels) == *old(labels) + 2,
{
    let prefix = match o {
        Op2::Equal => "eq",
        Op2::Greater => "greater",
        Op2::GreaterEqual => "greater_equal",
        Op2::Less => "less",
        _ => "less_equal",
    };
    let label_yes = create_label(prefix, labels);
    let label_end = create_label("end", labels);
    let jump = match o {
        Op2::Equal => Instruction::IJe(label_yes.clone()),
        Op2::Greater => Instruction::IJg(label_yes.clone()),
        Op2::GreaterEqual => Instruction::IJge(label_yes.clone()),
        Op2::Less => Instruction::IJl(label_yes.clone()),
        _ => Instruction::IJle(label_yes.clone()),
    };
    let mut v: Vec<Instruction> = Vec::new();
    emit(&mut v, Instruction::ICmp(rax_val(), Val::Mem(Reg::RSP, off)));
    emit(&mut v, jump);
    emit(&mut v, Instruction::IMov(rax_val(), Val::I(SNEK_FALSE)));
    emit(&mut v, Instruction::IJmp(Val::S(label_end.clone())));
    emit(&mut v, Instruction::Label(label_yes));
    emit(&mut v, Instruction::IMov(rax_val(), Val::I(SNEK_TRUE)));
    emit(&mut v, Instruction::Label(label_end));
    assert(instrs_view(v@) =~= compare_code(*o, off as int, *old(labels) as int));
    v
}

/// The context of a function body: each parameter, in order, in the next
/// free slot of `c`.
pub open spec fn param_ctx(c: CtxView, params: Seq<String>, i: int) -> CtxView
    decreases i,
{
    if i <= 0 {
        c
    } else {
        let p = param_ctx(c, params, i - 1);
        CtxView { stack: p.stack.insert(params[i - 1]@, (p.si * 8) as i32), si: p.si + 1, ..p }
    }
}

/// The code of a function definition in context `c`: its label, then its
/// body with the parameters in the slots from the free one on, then a jump
/// back to the return address.
pub open spec fn comp_fundef(def: FunDef, c: CtxView, n: int) -> Code {
    let f = def.name@;
    let head = seq![
        InstrView::Label("fun_"@ + f),
        InstrView::Comment("Function: "@ + f + " with "@ + nat_text(def.args@.len()) + " args"@),
    ];
    match comp(*def.body, param_ctx(c, def.args@, def.args@.len() as int), n) {
        (Ok(bi), n1) => (
            Ok(
                head + bi + seq![
                    InstrView::Comment("Return from function"@),
                    InstrView::IJmp(ValView::Mem(Reg::RSP, 0)),
                ],
            ),
            n1,
        ),
        (Err(m), n1) => (Err(m), n1),
    }
}

/// The bounds within which compiling `def` with the free slot at `si` and
/// the label counter at `n` stays within the machine integers.
pub open spec fn fundef_fits(def: FunDef, si: int, n: int) -> bool {
    -0x1000_0000 <= si && si + def.args@.len() + slots(*def.body) <= 0x0FFF_FFFF && n + 8
        * expr_size(*def.body) <= i64::MAX
}

/// Compiles a function definition.
pub fn compile_fundef(def: &FunDef, ctx: &Context, labels: &mut i64) -> (r: Result<Vec<Instruction>, String>)
    requires
        fundef_fits(*def, ctx.si as int, *old(labels) as int),
    ensures
        (code_view(r), *final(labels) as int) == comp_fundef(*def, ctx@, *old(labels) as int),
        *old(labels) <= *final(labels) <= *old(labels) + 8 * expr_size(*def.body),
{
    let mut instrs: Vec<Instruction> = Vec::new();
    let mut fun_label = text("fun_");
    push_str(&mut fun_label, def.name.as_str());
    emit(&mut instrs, Instruction::Label(fun_label));
    let mut comment = text("Function: ");
    push_str(&mut comment, def.name.as_str());
    push_str(&mut comment, " with ");
    push_nat(&mut comment, def.args.len() as u64);
    push_str(&mut comment, " args");
    emit(&mut instrs, Instruction::Comment(comment));
    let ghost head = instrs_view(instrs@);
    assert(head =~= seq![
        InstrView::Label("fun_"@ + def.name@),
        InstrView::Comment("Function: "@ + def.name@ + " with "@ + nat_text(def.args@.len()) + " args"@),
    ]);
    proof {
        lemma_expr_size_pos(*def.body);
        lemma_slots_nonneg(*def.body);
    }
    let mut new_ctx = ctx.clone();
    let mut i: usize = 0;
    while i < def.args.len()
        invariant
            0 <= i <= def.args@.len(),
            new_ctx@ == param_ctx(ctx@, def.args@, i as int),
            new_ctx.si == ctx.si + i,
            fundef_fits(*def, ctx.si as int, *labels as int),
            expr_size(*def.body) >= 1,
            slots(*def.body) >= 0,
        decreases def.args@.len() - i,
    {
        let off = new_ctx.curr_offset();
        new_ctx.insert_stack(def.args[i].clone(), off);
        new_ctx.increment_si_by(1);
        i = i + 1;
    }
    let body_instrs = match compile_to_instructions(&def.body, &new_ctx, labels) {
        Ok(v) => v,
        Err(m) => {
            return Err(m);
        },
    };
    let ghost bi = instrs_view(body_instrs@);
    extend(&mut instrs, body_instrs);
    emit(&mut instrs, Instruction::Comment(text("Return from function")));
    emit(&mut instrs, Instruction::IJmp(Val::Mem(Reg::RSP, 0)));
    assert(instrs_view(instrs@) =~= head + bi + seq![
        InstrView::Comment("Return from function"@),
        InstrView::IJmp(ValView::Mem(Reg::RSP, 0)),
    ]);
    Ok(instrs)
}

/// The function table of the first `n` definitions (each name bound to its
/// number of arguments), or the message for the first name defined twice.
pub open spec fn fun_table(defs: Seq<FunDef>, n: int) -> Result<Map<Seq<char>, i32>, Seq<char>>
    decreases n,
{
    if n <= 0 {
        Ok(Map::empty())
    } else {
        match fun_table(defs, n - 1) {
            Ok(m) => {
                let f = defs[n - 1].name@;
                if m.contains_key(f) {
                    Err("duplicate function definition: "@ + f)
                } else {
                    Ok(m.insert(f, defs[n - 1].args@.len() as i32))
                }
            },
            Err(m) => Err(m),
        }
    }
}

/// The code of the definitions from the `i`-th on, one after the other.
pub open spec fn comp_defs(defs: Seq<FunDef>, i: int, c: CtxView, n: int) -> Code
    decreases defs.len() - i,
{
    if 0 <= i < defs.len() {
        match comp_fundef(defs[i], c, n) {
            (Ok(di), n1) => match comp_defs(defs, i + 1, c, n1) {
                (Ok(rest), n2) => (Ok(di + rest), n2),
                (Err(m), n2) => (Err(m), n2),
            },
            (Err(m), n1) => (Err(m), n1),
        }
    } else {
        (Ok(Seq::empty()), n)
    }
}

/// The total size of the bodies of the definitions from the `i`-th on.
pub open spec fn defs_size(defs: Seq<FunDef>, i: int) -> int
    decreases defs.len() - i,
{
    if 0 <= i < defs.len() {
        expr_size(*defs[i].body) + defs_size(defs, i + 1)
    } else {
        0
    }
}

pub proof fn lemma_defs_size_nonneg(defs: Seq<FunDef>, i: int)
    ensures
        defs_size(defs, i) >= 0,
    decreases defs.len() - i,
{
    if 0 <= i < defs.len() {
        lemma_expr_size_pos(*defs[i].body);
        lemma_defs_size_nonneg(defs, i + 1);
    }
}

/// The bounds within which compiling `prog` with the free slot at `si` and
/// the label counter at `n` stays within the machine integers.
pub open spec fn program_fits(prog: Program, si: int, n: int) -> bool {
    &&& -0x1000_0000 <= si
    &&& forall|k: int|
        0 <= k < prog.defs@.len() ==> si + prog.defs@[k].args@.len() + slots(
            *(#[trigger] prog.defs@[k]).body,
        ) <= 0x0FFF_FFFF
    &&& si + slots(*prog.main) <= 0x0FFF_FFFF
    &&& n + 8 * (defs_size(prog.defs@, 0) + expr_size(*prog.main)) <= i64::MAX
}

/// The code of a whole program in context `c`: the code of its definitions
/// and the code of its main expression, compiled with the function table
/// of the program in place of the functions of `c`.
pub open spec fn comp_program(prog: Program, c: CtxView, n: int) -> (
    Result<(Seq<InstrView>, Seq<InstrView>), Seq<char>>,
    int,
) {
    match fun_table(prog.defs@, prog.defs@.len() as int) {
        Err(m) => (Err(m), n),
        Ok(table) => {
            let c2 = CtxView { funs: table, ..c };
            match comp_defs(prog.defs@, 0, c2, n) {
                (Ok(fi), n1) => match comp(*prog.main, c2, n1) {
                    (Ok(mi), n2) => (Ok((fi, mi.push(InstrView::Comment("Main expression"@)))), n2),
                    (Err(m), n2) => (Err(m), n2),
                },
                (Err(m), n1) => (Err(m), n1),
            }
        },
    }
}

/// A result of compiling a program, read through views.
pub open spec fn program_code_view(r: Result<(Vec<Instruction>, Vec<Instruction>), String>) -> Result<
    (Seq<InstrView>, Seq<InstrView>),
    Seq<char>,
> {
    match r {
        Ok((f, m)) => Ok((instrs_view(f@), instrs_view(m@))),
        Err(m) => Err(m@),
    }
}

fn err_duplicate_function(f: &str) -> (r: String)
    ensures
        r@ == "duplicate function definition: "@ + f@,
{
    let mut s = text("duplicate function definition: ");
    push_str(&mut s, f);
    s
}

/// Compiles a program: the code of its function definitions, and the code
/// of its main expression.
pub fn compile_program(prog: &Program, ctx: &Context, labels: &mut i64) -> (r: Result<
    (Vec<Instruction>, Vec<Instruction>),
    String,
>)
    requires
        program_fits(*prog, ctx.si as int, *old(labels) as int),
    ensures
        (program_code_view(r), *final(labels) as int) == comp_program(*prog, ctx@, *old(labels) as int),
{
    let ghost n0 = *labels as int;
    let mut fun_env = crate::maps::i32_map_new();
    let mut k: usize = 0;
    while k < prog.defs.len()
        invariant
            0 <= k <= prog.defs@.len(),
            fun_table(prog.defs@, k as int) == Ok::<Map<Seq<char>, i32>, Seq<char>>(i32_map_contents(fun_env)),
        decreases prog.defs@.len() - k,
    {
        let def = &prog.defs[k];
        if i32_map_get(&fun_env, def.name.as_str()).is_some() {
            let m = err_duplicate_function(def.name.as_str());
            proof {
                assert(fun_table(prog.defs@, k + 1) == Err::<Map<Seq<char>, i32>, Seq<char>>(m@));
                lemma_fun_table_err_stays(prog.defs@, k + 1, prog.defs@.len() as int);
            }
            return Err(m);
        }
        fun_env = crate::maps::i32_map_update(&fun_env, def.name.clone(), def.args.len() as i32);
        k = k + 1;
    }
    let mut new_ctx = ctx.clone();
    new_ctx.with_fun_env(crate::maps::i32_map_clone(&fun_env));
    let ghost c2 = new_ctx@;
    proof {
        lemma_defs_size_nonneg(prog.defs@, 0);
        lemma_expr_size_pos(*prog.main);
    }
    let mut fun_instrs: Vec<Instruction> = Vec::new();
    let mut i: usize = 0;
    assert(instrs_view(fun_instrs@) + Seq::<InstrView>::empty() =~= Seq::<InstrView>::empty());
    while i < prog.defs.len()
        invariant
            0 <= i <= prog.defs@.len(),
            new_ctx@ == c2,
            new_ctx.si == ctx.si,
            program_fits(*prog, ctx.si as int, n0),
            expr_size(*prog.main) >= 1,
            n0 <= *labels,
            n0 == *old(labels) as int,
            fun_table(prog.defs@, prog.defs@.len() as int) == Ok::<Map<Seq<char>, i32>, Seq<char>>(c2.funs),
            c2 == (CtxView { funs: c2.funs, ..ctx@ }),
            *labels + 8 * defs_size(prog.defs@, i as int) <= n0 + 8 * defs_size(prog.defs@, 0),
            comp_defs(prog.defs@, 0, c2, n0) == (match comp_defs(prog.defs@, i as int, c2, *labels as int) {
                (Ok(rest), n2) => (Ok(instrs_view(fun_instrs@) + rest), n2),
                (Err(m), n2) => (Err(m), n2),
            }),
        decreases prog.defs@.len() - i,
    {
        proof {
            lemma_defs_size_nonneg(prog.defs@, i + 1);
            assert(program_fits(*prog, ctx.si as int, n0));
            let d = prog.defs@[i as int];
            assert(ctx.si + d.args@.len() + slots(*d.body) <= 0x0FFF_FFFF);
            assert(defs_size(prog.defs@, i as int) == expr_size(*d.body) + defs_size(prog.defs@, i + 1));
            assert(*labels + 8 * expr_size(*d.body) <= i64::MAX);
            assert(fundef_fits(d, ctx.si as int, *labels as int));
        }
        let fctx = new_ctx.clone();
        let ghost before = instrs_view(fun_instrs@);
        let ghost li = *labels as int;
        let def_instrs = match compile_fundef(&prog.defs[i], &fctx, labels) {
            Ok(v) => v,
            Err(m) => {
                assert(comp_defs(prog.defs@, i as int, c2, li) == (Err::<Seq<InstrView>, Seq<char>>(m@), *labels as int));
                return Err(m);
            },
        };
        let ghost di = instrs_view(def_instrs@);
        extend(&mut fun_instrs, def_instrs);
        i = i + 1;
        proof {
            if let (Ok(rest), _) = comp_defs(prog.defs@, i as int, c2, *labels as int) {
                assert(before + (di + rest) =~= instrs_view(fun_instrs@) + rest);
            }
        }
    }
    proof {
        assert(instrs_view(fun_instrs@) + Seq::<InstrView>::empty() =~= instrs_view(fun_instrs@));
        lemma_defs_size_nonneg(prog.defs@, i as int);
    }
    let mut main_instrs = match compile_to_instructions(&prog.main, &new_ctx, labels) {
        Ok(v) => v,
        Err(m) => {
            return Err(m);
        },
    };
    emit(&mut main_instrs, Instruction::Comment(text("Main expression")));
    Ok((fun_instrs, main_instrs))
}

/// Once the function table of a prefix of the definitions has an error,
/// so has the table of every longer prefix.
proof fn lemma_fun_table_err_stays(defs: Seq<FunDef>, i: int, j: int)
    requires
        0 < i <= j,
        fun_table(defs, i) is Err,
    ensures
        fun_table(defs, j) == fun_table(defs, i),
    decreases j - i,
{
    if j > i {
        lemma_fun_table_err_stays(defs, i, j - 1);
    }
}

} // verus!
