//! The ways through the compiler: from the text of a program to assembly text,
//! to the code that runs in memory, or to its type.
use vstd::prelude::*;
use vstd::string::*;
use crate::ast::{Program, Type};
use crate::sexpr::{read_sexp, sexp_reading};
use crate::parser::{parse_program, program_error, program_parses};
use crate::typecheck::{typecheck_program, tc_program};
use crate::codegen::context::{Context, CtxView, opt_text};
use crate::codegen::compile::{compile_program, comp_program, program_fits, names_view};
use crate::codegen::limits::fits_program;
use crate::codegen::labels::{labels_distinct, lemma_program_labels_distinct};
use crate::codegen::assemble::{instructions_to_str, listing_text};
use crate::codegen::instruction::{Instruction, InstrView, instrs_view};
use crate::numparse::{parse_i64, spec_parse_i64, lemma_parse_i64_of_text, is_digit};
use crate::snek::{encode_num, num_to_snek};
use crate::text::{push_str, str_eq, int_text};

verus! {

/// The stage of the compiler at which a program was refused.
#[derive(Debug, Clone, Copy, PartialEq, Eq, Structural)]
pub enum Stage {
    /// The text is not an s-expression.
    Read,
    /// The s-expression is not a program.
    Parse,
    /// The program does not type-check.
    Type,
    /// The code generator refused the program.
    Compile,
    /// The program is too large for the code generator's offsets and labels.
    Limit,
}

/// Why a program was refused, and the message that says so.
#[derive(Debug)]
pub struct BuildError {
    pub stage: Stage,
    pub message: String,
}

/// A failed outcome, read as the stage and the characters of its message.
pub type Failure = (Stage, Seq<char>);

/// The message when the text is not an s-expression.
pub open spec fn read_error_text() -> Seq<char> {
    "Input parse error"@
}

/// The message when a program is too large to compile.
pub open spec fn too_large_text() -> Seq<char> {
    "program too large"@
}

/// A refusal, read as stage and characters.
pub open spec fn failure(e: BuildError) -> Failure {
    (e.stage, e.message@)
}

/// The line that reports a refusal: the stage's prefix, then the message.
pub open spec fn report_text(f: Failure) -> Seq<char> {
    match f.0 {
        Stage::Read => f.1,
        Stage::Parse => "Parse error: "@ + f.1,
        Stage::Type => f.1,
        Stage::Compile => "Compile error: "@ + f.1,
        Stage::Limit => "Compile error: "@ + f.1,
    }
}

impl BuildError {
    /// The line that reports this refusal.
    pub fn report(&self) -> (r: String)
        ensures
            r@ == report_text(failure(*self)),
    {
        let mut s = String::new();
        match self.stage {
            Stage::Parse => push_str(&mut s, "Parse error: "),
            Stage::Compile => push_str(&mut s, "Compile error: "),
            Stage::Limit => push_str(&mut s, "Compile error: "),
            _ => {},
        }
        push_str(&mut s, self.message.as_str());
        s
    }
}

fn refuse(stage: Stage, message: String) -> (r: BuildError)
    ensures
        failure(r) == (stage, message@),
{
    BuildError { stage, message }
}

fn text(s: &str) -> (r: String)
    ensures
        r@ == s@,
{
    String::from_str(s)
}

/// The context that whole programs are compiled in.
pub open spec fn start_ctx() -> CtxView {
    CtxView {
        si: 1,
        defines: Map::empty(),
        funs: Map::empty(),
        stack: Map::empty(),
        break_label: None,
    }
}

/// The text of a source file read as one list: its items between brackets.
pub open spec fn wrap_source(source: Seq<char>) -> Seq<char> {
    "("@ + source + ")"@
}

/// The assembly file around the code of the functions and of the main
/// expression.
pub open spec fn asm_text(fun: Seq<char>, main: Seq<char>) -> Seq<char> {
    "section .text\n        extern snek_error\n        extern snek_print\n        global our_code_starts_here\n        "@
        + fun + "\n        our_code_starts_here:\n "@ + main + "\nret\n"@
}

/// The assembly file around the code of the functions and of the main
/// expression.
pub fn asm_program(fun_str: &str, main_str: &str) -> (r: String)
    ensures
        r@ == asm_text(fun_str@, main_str@),
{
    let mut s = text(
        "section .text\n        extern snek_error\n        extern snek_print\n        global our_code_starts_here\n        ",
    );
    push_str(&mut s, fun_str);
    push_str(&mut s, "\n        our_code_starts_here:\n ");
    push_str(&mut s, main_str);
    push_str(&mut s, "\nret\n");
    s
}

/// The outcome of compiling the program `p` ahead of time: when asked,
/// it is type-checked first (with no type for the input); then its code
/// is generated and printed as an assembly file.
pub open spec fn aot_outcome(p: Program, typecheck: bool) -> Result<Seq<char>, Failure> {
    if typecheck && tc_program(p, None) is Err {
        Err((Stage::Type, tc_program(p, None)->Err_0))
    } else if !program_fits(p, 1, 0) {
        Err((Stage::Limit, too_large_text()))
    } else {
        match comp_program(p, start_ctx(), 0).0 {
            Ok((f, m)) => Ok(asm_text(listing_text(f), listing_text(m))),
            Err(m) => Err((Stage::Compile, m)),
        }
    }
}

/// A text outcome, read through views.
pub open spec fn text_outcome(r: Result<String, BuildError>) -> Result<Seq<char>, Failure> {
    match r {
        Ok(s) => Ok(s@),
        Err(e) => Err(failure(e)),
    }
}

/// Compiles a program ahead of time to the text of an assembly file.
pub fn assembly_of_program(prog: &Program, typecheck: bool) -> (r: Result<String, BuildError>)
    ensures
        text_outcome(r) == aot_outcome(*prog, typecheck),
{
    if typecheck {
        match typecheck_program(prog, None) {
            Ok(_) => {},
            Err(m) => {
                return Err(refuse(Stage::Type, m));
            },
        }
    }
    let ctx = Context::new();
    if !fits_program(prog, ctx.si, 0) {
        return Err(refuse(Stage::Limit, text("program too large")));
    }
    let mut labels: i64 = 0;
    match compile_program(prog, &ctx, &mut labels) {
        Ok((fun_instrs, main_instrs)) => {
            let fun_str = instructions_to_str(&fun_instrs);
            let main_str = instructions_to_str(&main_instrs);
            Ok(asm_program(fun_str.as_str(), main_str.as_str()))
        },
        Err(m) => Err(refuse(Stage::Compile, m)),
    }
}

/// The outcome of reading `source` as a program and then going on with
/// it as `then` says, whatever program it reads as.
pub open spec fn source_outcome<T>(
    source: Seq<char>,
    r: Result<T, Failure>,
    then: spec_fn(Program) -> Result<T, Failure>,
) -> bool {
    match sexp_reading(wrap_source(source)) {
        None => r == Err::<T, Failure>((Stage::Read, read_error_text())),
        Some(s) => match program_error(s) {
            Some(m) => r == Err::<T, Failure>((Stage::Parse, m)),
            None => exists|p: Program| program_parses(s, p) && r == then(p),
        },
    }
}

/// Reads the text of a source file as a program.
pub fn read_program(source: &str) -> (r: Result<Program, BuildError>)
    ensures
        match sexp_reading(wrap_source(source@)) {
            None => r is Err && failure(r->Err_0) == (Stage::Read, read_error_text()),
            Some(s) => match r {
                Ok(p) => program_error(s) is None && program_parses(s, p),
                Err(e) => program_error(s) is Some && failure(e) == (Stage::Parse, program_error(s)->0),
            },
        },
{
    let mut wrapped = text("(");
    push_str(&mut wrapped, source);
    push_str(&mut wrapped, ")");
    assert(wrapped@ == wrap_source(source@));
    let parsed = match read_sexp(wrapped.as_str()) {
        Some(s) => s,
        None => {
            return Err(refuse(Stage::Read, text("Input parse error")));
        },
    };
    match parse_program(&parsed) {
        Ok(p) => Ok(p),
        Err(m) => Err(refuse(Stage::Parse, m)),
    }
}

/// Compiles the text of a source file ahead of time to the text of an
/// assembly file.
pub fn compile_source(source: &str, typecheck: bool) -> (r: Result<String, BuildError>)
    ensures
        source_outcome(source@, text_outcome(r), |p: Program| aot_outcome(p, typecheck)),
{
    let prog = match read_program(source) {
        Ok(p) => p,
        Err(e) => {
            return Err(e);
        },
    };
    assembly_of_program(&prog, typecheck)
}

/// A type outcome, read through views.
pub open spec fn type_outcome(r: Result<Type, BuildError>) -> Result<Type, Failure> {
    match r {
        Ok(t) => Ok(t),
        Err(e) => Err(failure(e)),
    }
}

/// Reads the text of a source file as a program and gives its type (with
/// no type for the input).
pub fn check_source(source: &str) -> (r: Result<Type, BuildError>)
    ensures
        source_outcome(
            source@,
            type_outcome(r),
            |p: Program|
                match tc_program(p, None) {
                    Ok(t) => Ok(t),
                    Err(m) => Err((Stage::Type, m)),
                },
        ),
{
    let prog = match read_program(source) {
        Ok(p) => p,
        Err(e) => {
            return Err(e);
        },
    };
    match typecheck_program(&prog, None) {
        Ok(t) => Ok(t),
        Err(m) => Err(refuse(Stage::Type, m)),
    }
}

/// The word and the type that the input given to a program run in memory
/// stands for: `true` and `false` as booleans, a decimal number as its
/// encoding, and anything else, or no input, as `false`.
pub open spec fn input_value(input: Option<Seq<char>>) -> (i64, Type) {
    match input {
        None => (1, Type::Bool),
        Some(t) => if t == "true"@ {
            (3, Type::Bool)
        } else if t == "false"@ {
            (1, Type::Bool)
        } else {
            match spec_parse_i64(t) {
                Some(n) => (encode_num(n), Type::Num),
                None => (1, Type::Bool),
            }
        },
    }
}

/// The word and the type that the input given to a program run in memory
/// stands for.
pub fn decode_input(input: &Option<String>) -> (r: (i64, Type))
    ensures
        r == input_value(opt_text(*input)),
{
    match input {
        None => (1, Type::Bool),
        Some(t) => {
            if str_eq(t.as_str(), "true") {
                (3, Type::Bool)
            } else if str_eq(t.as_str(), "false") {
                (1, Type::Bool)
            } else {
                match parse_i64(t.as_str()) {
                    Some(n) => (num_to_snek(&n), Type::Num),
                    None => (1, Type::Bool),
                }
            }
        },
    }
}

/// The input of a run in memory, given as the decimal text of a number,
/// stands for that number's encoding and has type `Num`; `true` and
/// `false` stand for the booleans.
pub proof fn lemma_decoded_input(n: i64)
    ensures
        input_value(Some(int_text(n as int))) == (encode_num(n), Type::Num),
        input_value(Some("true"@)) == (3i64, Type::Bool),
        input_value(Some("false"@)) == (1i64, Type::Bool),
{
    reveal_strlit("true");
    reveal_strlit("false");
    lemma_parse_i64_of_text(n);
    let s = int_text(n as int);
    if n < 0 {
        assert(s[0] == '-');
    } else {
        crate::numparse::lemma_nat_text_digits(n as nat);
        assert(is_digit(s[0]));
    }
}

/// The code of a program to run in memory: the code of its functions, the
/// code of its main expression, and the word it is given as input.
#[derive(Debug)]
pub struct JitCode {
    pub fun_instrs: Vec<Instruction>,
    pub main_instrs: Vec<Instruction>,
    pub input: i64,
}

/// The code to run in memory, read through views.
pub type JitView = (Seq<InstrView>, Seq<InstrView>, i64);

/// A code outcome, read through views.
pub open spec fn jit_view(r: Result<JitCode, BuildError>) -> Result<JitView, Failure> {
    match r {
        Ok(c) => Ok((instrs_view(c.fun_instrs@), instrs_view(c.main_instrs@), c.input)),
        Err(e) => Err(failure(e)),
    }
}

/// The outcome of preparing the program `p` to run in memory with the
/// given input: its code is generated first; then, when asked, it is
/// type-checked with the type of the input.
pub open spec fn jit_outcome(p: Program, input: Option<Seq<char>>, typecheck: bool) -> Result<
    JitView,
    Failure,
> {
    if !program_fits(p, 1, 0) {
        Err((Stage::Limit, too_large_text()))
    } else {
        match comp_program(p, start_ctx(), 0).0 {
            Err(m) => Err((Stage::Compile, m)),
            Ok((f, m)) => {
                let (word, ty) = input_value(input);
                if typecheck && tc_program(p, Some(ty)) is Err {
                    Err((Stage::Type, tc_program(p, Some(ty))->Err_0))
                } else {
                    Ok((f, m, word))
                }
            },
        }
    }
}

/// Prepares a program to run in memory with the given input.
pub fn jit_code_of_program(prog: &Program, input: &Option<String>, typecheck: bool) -> (r: Result<
    JitCode,
    BuildError,
>)
    ensures
        jit_view(r) == jit_outcome(*prog, opt_text(*input), typecheck),
        r is Ok ==> labels_distinct(instrs_view(r->Ok_0.fun_instrs@) + instrs_view(r->Ok_0.main_instrs@)),
{
    let ctx = Context::new();
    if !fits_program(prog, ctx.si, 0) {
        return Err(refuse(Stage::Limit, text("program too large")));
    }
    let mut labels: i64 = 0;
    let (fun_instrs, main_instrs) = match compile_program(prog, &ctx, &mut labels) {
        Ok(code) => code,
        Err(m) => {
            return Err(refuse(Stage::Compile, m));
        },
    };
    proof {
        lemma_program_labels_distinct(*prog, ctx@, 0);
    }
    let (word, ty) = decode_input(input);
    if typecheck {
        match typecheck_program(prog, Some(ty)) {
            Ok(_) => {},
            Err(m) => {
                return Err(refuse(Stage::Type, m));
            },
        }
    }
    Ok(JitCode { fun_instrs, main_instrs, input: word })
}

/// Reads the text of a source file as a program and prepares it to run in
/// memory with the given input.
pub fn prepare_jit(source: &str, input: &Option<String>, typecheck: bool) -> (r: Result<
    JitCode,
    BuildError,
>)
    ensures
        source_outcome(source@, jit_view(r), |p: Program| jit_outcome(p, opt_text(*input), typecheck)),
        r is Ok ==> labels_distinct(instrs_view(r->Ok_0.fun_instrs@) + instrs_view(r->Ok_0.main_instrs@)),
{
    let prog = match read_program(source) {
        Ok(p) => p,
        Err(e) => {
            return Err(e);
        },
    };
    jit_code_of_program(&prog, input, typecheck)
}

/// Compiling ahead of time and preparing to run in memory generate the
/// same code for a program: where the latter succeeds (without type
/// checking), the assembly file holds exactly that code.
pub proof fn lemma_aot_jit_same_code(p: Program, input: Option<Seq<char>>)
    requires
        jit_outcome(p, input, false) is Ok,
    ensures
        ({
            let (f, m, _) = jit_outcome(p, input, false)->Ok_0;
            aot_outcome(p, false) == Ok::<Seq<char>, Failure>(asm_text(listing_text(f), listing_text(m)))
        }),
{
}

/// Type checking only refuses programs: with it, the outcome is the one
/// without it, or a type error.
pub proof fn lemma_typecheck_only_refuses(p: Program, input: Option<Seq<char>>)
    ensures
        aot_outcome(p, true) == aot_outcome(p, false) || (aot_outcome(p, true) is Err && aot_outcome(
            p,
            true,
        )->Err_0.0 == Stage::Type),
        jit_outcome(p, input, true) == jit_outcome(p, input, false) || (jit_outcome(p, input, true) is Err
            && jit_outcome(p, input, true)->Err_0.0 == Stage::Type),
{
}

/// The labels that a list of instructions defines, in order.
pub open spec fn labels_of(is: Seq<InstrView>) -> Seq<Seq<char>>
    decreases is.len(),
{
    if is.len() == 0 {
        Seq::empty()
    } else {
        labels_of(is.drop_last()) + match is.last() {
            InstrView::Label(l) => seq![l],
            _ => Seq::empty(),
        }
    }
}

/// The labels that a list of instructions defines, in order.
pub fn label_names(instrs: &Vec<Instruction>) -> (r: Vec<String>)
    ensures
        names_view(r@) == labels_of(instrs_view(instrs@)),
{
    let mut names: Vec<String> = Vec::new();
    let mut i: usize = 0;
    while i < instrs.len()
        invariant
            0 <= i <= instrs@.len(),
            names_view(names@) == labels_of(instrs_view(instrs@).subrange(0, i as int)),
        decreases instrs@.len() - i,
    {
        let ghost pre = instrs_view(instrs@).subrange(0, i as int);
        let ghost next = instrs_view(instrs@).subrange(0, i + 1);
        assert(next.drop_last() =~= pre);
        assert(next.last() == instrs@[i as int]@);
        let ghost before = names@;
        match &instrs[i] {
            Instruction::Label(l) => {
                names.push(l.clone());
                assert(names_view(names@) =~= names_view(before) + seq![l@]);
            },
            _ => {
                assert(names_view(names@) =~= names_view(before) + Seq::<Seq<char>>::empty());
            },
        }
        i = i + 1;
    }
    assert(instrs_view(instrs@).subrange(0, i as int) =~= instrs_view(instrs@));
    names
}

} // verus!
