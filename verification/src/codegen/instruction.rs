//! The x86-64 instructions that the compiler emits.
use vstd::prelude::*;

verus! {

/// An instruction.
#[derive(Debug, Clone)]
pub enum Instruction {
    IMov(Val, Val),
    ILea(Val, String),
    IAdd(Val, Val),
    ISub(Val, Val),
    IMul(Val, Val),
    INeg(Val),
    ISar(Val, Val),
    ICmp(Val, Val),
    ITest(Val, Val),
    ICmove(Val, Val),
    Label(String),
    Comment(String),
    ICallErr(i64),
    IJmp(Val),
    IJe(String),
    IJne(String),
    IJg(String),
    IJl(String),
    IJge(String),
    IJle(String),
    IJo(String),
    IPrint,
}

/// An operand: a register, a memory slot below a register, an immediate,
/// or a label.
#[derive(Debug, Clone)]
pub enum Val {
    Reg(Reg),
    Mem(Reg, i32),
    I(i64),
    S(String),
}

/// The registers that the compiler uses.
#[derive(Debug, Clone, Copy, PartialEq, Eq, Structural)]
pub enum Reg {
    RAX,
    RCX,
    RSP,
    RDI,
}

/// An operand, with its label read as characters.
pub enum ValView {
    Reg(Reg),
    Mem(Reg, i32),
    I(i64),
    S(Seq<char>),
}

/// An instruction, with its labels and comments read as characters.
pub enum InstrView {
    IMov(ValView, ValView),
    ILea(ValView, Seq<char>),
    IAdd(ValView, ValView),
    ISub(ValView, ValView),
    IMul(ValView, ValView),
    INeg(ValView),
    ISar(ValView, ValView),
    ICmp(ValView, ValView),
    ITest(ValView, ValView),
    ICmove(ValView, ValView),
    Label(Seq<char>),
    Comment(Seq<char>),
    ICallErr(i64),
    IJmp(ValView),
    IJe(Seq<char>),
    IJne(Seq<char>),
    IJg(Seq<char>),
    IJl(Seq<char>),
    IJge(Seq<char>),
    IJle(Seq<char>),
    IJo(Seq<char>),
    IPrint,
}

impl View for Val {
    type V = ValView;

    open spec fn view(&self) -> ValView {
        match self {
            Val::Reg(r) => ValView::Reg(*r),
            Val::Mem(r, o) => ValView::Mem(*r, *o),
            Val::I(n) => ValView::I(*n),
            Val::S(s) => ValView::S(s@),
        }
    }
}

impl View for Instruction {
    type V = InstrView;

    open spec fn view(&self) -> InstrView {
        match self {
            Instruction::IMov(a, b) => InstrView::IMov(a@, b@),
            Instruction::ILea(a, s) => InstrView::ILea(a@, s@),
            Instruction::IAdd(a, b) => InstrView::IAdd(a@, b@),
            Instruction::ISub(a, b) => InstrView::ISub(a@, b@),
            Instruction::IMul(a, b) => InstrView::IMul(a@, b@),
            Instruction::INeg(a) => InstrView::INeg(a@),
            Instruction::ISar(a, b) => InstrView::ISar(a@, b@),
            Instruction::ICmp(a, b) => InstrView::ICmp(a@, b@),
            Instruction::ITest(a, b) => InstrView::ITest(a@, b@),
            Instruction::ICmove(a, b) => InstrView::ICmove(a@, b@),
            Instruction::Label(s) => InstrView::Label(s@),
            Instruction::Comment(s) => InstrView::Comment(s@),
            Instruction::ICallErr(n) => InstrView::ICallErr(*n),
            Instruction::IJmp(a) => InstrView::IJmp(a@),
            Instruction::IJe(s) => InstrView::IJe(s@),
            Instruction::IJne(s) => InstrView::IJne(s@),
            Instruction::IJg(s) => InstrView::IJg(s@),
            Instruction::IJl(s) => InstrView::IJl(s@),
            Instruction::IJge(s) => InstrView::IJge(s@),
            Instruction::IJle(s) => InstrView::IJle(s@),
            Instruction::IJo(s) => InstrView::IJo(s@),
            Instruction::IPrint => InstrView::IPrint,
        }
    }
}

/// A list of instructions, each read through its view.
pub open spec fn instrs_view(v: Seq<Instruction>) -> Seq<InstrView> {
    v.map_values(|i: Instruction| i@)
}

} // verus!
