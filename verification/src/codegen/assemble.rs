//! Printing instructions as assembly text (NASM syntax).
use vstd::prelude::*;
use vstd::string::*;
use crate::text::{int_text, push_int, push_str};
use super::instruction::{Instruction, Val, Reg, ValView, InstrView, instrs_view};

verus! {

/// The name of a register.
pub open spec fn reg_text(r: Reg) -> Seq<char> {
    match r {
        Reg::RAX => "rax"@,
        Reg::RCX => "rcx"@,
        Reg::RSP => "rsp"@,
        Reg::RDI => "rdi"@,
    }
}

/// How an operand is written.
pub open spec fn val_text(v: ValView) -> Seq<char> {
    match v {
        ValView::Reg(r) => reg_text(r),
        ValView::Mem(r, off) => "["@ + reg_text(r) + " - "@ + int_text(off as int) + "]"@,
        ValView::I(n) => int_text(n as int),
        ValView::S(s) => s,
    }
}

/// A mnemonic with two operands.
pub open spec fn two_text(m: Seq<char>, a: ValView, b: ValView) -> Seq<char> {
    m + " "@ + val_text(a) + ", "@ + val_text(b)
}

/// How an instruction is written (possibly on several lines).
pub open spec fn instr_text(i: InstrView) -> Seq<char> {
    match i {
        InstrView::IMov(a, b) => two_text("mov"@, a, b),
        InstrView::ILea(a, s) => "lea "@ + val_text(a) + ", [rel "@ + s + "]"@,
        InstrView::IAdd(a, b) => two_text("add"@, a, b),
        InstrView::ISub(a, b) => two_text("sub"@, a, b),
        InstrView::IMul(a, b) => two_text("imul"@, a, b),
        InstrView::INeg(a) => "neg "@ + val_text(a),
        InstrView::ISar(a, b) => two_text("sar"@, a, b),
        InstrView::ICmp(a, b) => two_text("cmp"@, a, b),
        InstrView::ITest(a, b) => two_text("test"@, a, b),
        InstrView::ICmove(a, b) => two_text("cmove"@, a, b),
        InstrView::Label(s) => s + ":"@,
        InstrView::Comment(s) => ";"@ + s,
        InstrView::ICallErr(e) => "mov rdi, "@ + int_text(e as int) + "\ncall snek_error"@,
        InstrView::IJmp(v) => "jmp "@ + val_text(v),
        InstrView::IJe(s) => "je "@ + s,
        InstrView::IJne(s) => "jne "@ + s,
        InstrView::IJg(s) => "jg "@ + s,
        InstrView::IJl(s) => "jl "@ + s,
        InstrView::IJge(s) => "jge "@ + s,
        InstrView::IJle(s) => "jle "@ + s,
        InstrView::IJo(s) => "jo "@ + s,
        InstrView::IPrint => "mov rdi, rax\npush rsp\npush rax\ncall snek_print\npop rax\npop rsp"@,
    }
}

/// The instructions written one after the other, separated by newlines.
pub open spec fn listing_text(is: Seq<InstrView>) -> Seq<char>
    decreases is.len(),
{
    if is.len() == 0 {
        Seq::empty()
    } else if is.len() == 1 {
        instr_text(is[0])
    } else {
        listing_text(is.drop_last()) + "\n"@ + instr_text(is.last())
    }
}

pub fn reg_to_str(r: &Reg) -> (s: String)
    ensures
        s@ == reg_text(*r),
{
    match r {
        Reg::RAX => String::from_str("rax"),
        Reg::RCX => String::from_str("rcx"),
        Reg::RSP => String::from_str("rsp"),
        Reg::RDI => String::from_str("rdi"),
    }
}

pub fn val_to_str(v: &Val) -> (s: String)
    ensures
        s@ == val_text(v@),
{
    match v {
        Val::Reg(r) => reg_to_str(r),
        Val::Mem(r, offset) => {
            let mut s = String::from_str("[");
            push_str(&mut s, reg_to_str(r).as_str());
            push_str(&mut s, " - ");
            push_int(&mut s, *offset as i64);
            push_str(&mut s, "]");
            s
        },
        Val::I(n) => {
            let mut s = String::new();
            push_int(&mut s, *n);
            assert(s@ =~= int_text(*n as int));
            s
        },
        Val::S(s) => s.clone(),
    }
}

fn two_to_str(m: &str, a: &Val, b: &Val) -> (s: String)
    ensures
        s@ == two_text(m@, a@, b@),
{
    let mut s = String::from_str(m);
    push_str(&mut s, " ");
    push_str(&mut s, val_to_str(a).as_str());
    push_str(&mut s, ", ");
    push_str(&mut s, val_to_str(b).as_str());
    s
}

fn prefixed(m: &str, rest: &str) -> (s: String)
    ensures
        s@ == m@ + rest@,
{
    let mut s = String::from_str(m);
    push_str(&mut s, rest);
    s
}

pub fn instr_to_str(i: &Instruction) -> (s: String)
    ensures
        s@ == instr_text(i@),
{
    match i {
        Instruction::IMov(r, v) => two_to_str("mov", r, v),
        Instruction::ILea(r, v) => {
            let mut s = String::from_str("lea ");
            push_str(&mut s, val_to_str(r).as_str());
            push_str(&mut s, ", [rel ");
            push_str(&mut s, v.as_str());
            push_str(&mut s, "]");
            s
        },
        Instruction::IAdd(r, v) => two_to_str("add", r, v),
        Instruction::ISub(r, v) => two_to_str("sub", r, v),
        Instruction::IMul(r, v) => two_to_str("imul", r, v),
        Instruction::INeg(r) => prefixed("neg ", val_to_str(r).as_str()),
        Instruction::ISar(r, v) => two_to_str("sar", r, v),
        Instruction::ICmp(r, v) => two_to_str("cmp", r, v),
        Instruction::ITest(r, v) => two_to_str("test", r, v),
        Instruction::ICmove(r, v) => two_to_str("cmove", r, v),
        Instruction::Label(s) => {
            let mut t = s.clone();
            push_str(&mut t, ":");
            t
        },
        Instruction::Comment(s) => prefixed(";", s.as_str()),
        Instruction::ICallErr(e) => {
            let mut s = String::from_str("mov rdi, ");
            push_int(&mut s, *e);
            push_str(&mut s, "\ncall snek_error");
            s
        },
        Instruction::IJmp(v) => prefixed("jmp ", val_to_str(v).as_str()),
        Instruction::IJe(s) => prefixed("je ", s.as_str()),
        Instruction::IJne(s) => prefixed("jne ", s.as_str()),
        Instruction::IJg(s) => prefixed("jg ", s.as_str()),
        Instruction::IJl(s) => prefixed("jl ", s.as_str()),
        Instruction::IJge(s) => prefixed("jge ", s.as_str()),
        Instruction::IJle(s) => prefixed("jle ", s.as_str()),
        Instruction::IJo(s) => prefixed("jo ", s.as_str()),
        Instruction::IPrint => String::from_str(
            "mov rdi, rax\npush rsp\npush rax\ncall snek_print\npop rax\npop rsp",
        ),
    }
}

/// The assembly text of a list of instructions, one per line.
pub fn instructions_to_str(instrs: &Vec<Instruction>) -> (s: String)
    ensures
        s@ == listing_text(instrs_view(instrs@)),
{
    let mut s = String::new();
    let mut i: usize = 0;
    assert(instrs_view(instrs@).subrange(0, 0) =~= Seq::<InstrView>::empty());
    while i < instrs.len()
        invariant
            0 <= i <= instrs@.len(),
            s@ == listing_text(instrs_view(instrs@).subrange(0, i as int)),
        decreases instrs@.len() - i,
    {
        let ghost pre = instrs_view(instrs@).subrange(0, i as int);
        let ghost next = instrs_view(instrs@).subrange(0, i + 1);
        assert(next.drop_last() =~= pre);
        assert(next.last() == instrs@[i as int]@);
        if i > 0 {
            push_str(&mut s, "\n");
        } else {
            assert(pre =~= Seq::<InstrView>::empty());
        }
        push_str(&mut s, instr_to_str(&instrs[i]).as_str());
        i = i + 1;
    }
    assert(instrs_view(instrs@).subrange(0, i as int) =~= instrs_view(instrs@));
    s
}

} // verus!
