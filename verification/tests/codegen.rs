use snek::ast::{Expr, Type};
use snek::codegen::assemble::{instr_to_str, instructions_to_str, reg_to_str, val_to_str};
use snek::codegen::compile::{compile_fundef, compile_program, compile_to_instructions, create_cast_check, create_check, Check};
use snek::codegen::context::Context;
use snek::codegen::instruction::{Instruction, Reg, Val};
use snek::parser::{parse_expr, parse_program};
use snek::sexpr::{SAtom, SExp};
fn convert(s: &sexp::Sexp) -> SExp {
    match s {
        sexp::Sexp::Atom(sexp::Atom::S(x)) => SExp::Atom(SAtom::S(x.clone())),
        sexp::Sexp::Atom(sexp::Atom::I(n)) => SExp::Atom(SAtom::I(*n)),
        sexp::Sexp::Atom(sexp::Atom::F(_)) => SExp::Atom(SAtom::F),
        sexp::Sexp::List(xs) => SExp::List(xs.iter().map(convert).collect()),
    }
}

fn read_sexp(text: &str) -> Option<SExp> {
    sexp::parse(text).ok().map(|s| convert(&s))
}


fn expr(text: &str) -> Expr {
    parse_expr(&read_sexp(text).unwrap()).unwrap()
}

fn listing(text: &str, labels: &mut i64) -> Result<String, String> {
    let ctx = Context::new();
    compile_to_instructions(&expr(text), &ctx, labels).map(|v| instructions_to_str(&v))
}

#[test]
fn operands_and_instructions_print_in_nasm_syntax() {
    assert_eq!(reg_to_str(&Reg::RAX), "rax");
    assert_eq!(reg_to_str(&Reg::RDI), "rdi");
    assert_eq!(val_to_str(&Val::Mem(Reg::RSP, 16)), "[rsp - 16]");
    assert_eq!(val_to_str(&Val::I(-3)), "-3");
    assert_eq!(val_to_str(&Val::S("lbl".to_string())), "lbl");
    assert_eq!(instr_to_str(&Instruction::IMov(Val::Mem(Reg::RSP, 8), Val::Reg(Reg::RAX))), "mov [rsp - 8], rax");
    assert_eq!(instr_to_str(&Instruction::ILea(Val::Reg(Reg::RAX), "f".to_string())), "lea rax, [rel f]");
    assert_eq!(instr_to_str(&Instruction::IMul(Val::Reg(Reg::RAX), Val::Reg(Reg::RCX))), "imul rax, rcx");
    assert_eq!(instr_to_str(&Instruction::Label("x".to_string())), "x:");
    assert_eq!(instr_to_str(&Instruction::Comment("note".to_string())), ";note");
    assert_eq!(instr_to_str(&Instruction::ICallErr(2)), "mov rdi, 2\ncall snek_error");
    assert_eq!(instr_to_str(&Instruction::IJo("e".to_string())), "jo e");
    assert_eq!(
        instr_to_str(&Instruction::IPrint),
        "mov rdi, rax\npush rsp\npush rax\ncall snek_print\npop rax\npop rsp"
    );
    let two = vec![Instruction::IMov(Val::Reg(Reg::RAX), Val::I(10)), Instruction::INeg(Val::Reg(Reg::RAX))];
    assert_eq!(instructions_to_str(&two), "mov rax, 10\nneg rax");
    assert_eq!(instructions_to_str(&Vec::new()), "");
}

#[test]
fn constants_compile_to_one_move() {
    let mut n = 0;
    assert_eq!(listing("5", &mut n).unwrap(), "mov rax, 10");
    assert_eq!(listing("true", &mut n).unwrap(), "mov rax, 3");
    assert_eq!(listing("false", &mut n).unwrap(), "mov rax, 1");
    assert_eq!(listing("input", &mut n).unwrap(), "mov rax, rdi");
    assert_eq!(n, 0);
}

#[test]
fn unary_operators() {
    let mut n = 0;
    assert_eq!(listing("(add1 5)", &mut n).unwrap(), "mov rax, 10\nadd rax, 2");
    assert_eq!(listing("(negate 5)", &mut n).unwrap(), "mov rax, 10\nneg rax");
    assert_eq!(
        listing("(isnum 5)", &mut n).unwrap(),
        "mov rax, 10\ntest rax, 1\nmov rax, 1\nmov [rsp - 8], 3\ncmove rax, [rsp - 8]"
    );
}

#[test]
fn equality_checks_kinds_with_the_first_operand_from_its_slot() {
    let mut n = 0;
    let text = listing("(= (= true true) 1)", &mut n).unwrap();
    // the first operand (written last) is kept in its slot, and reloaded
    // into rcx only after the second has run
    assert!(!text.contains("mov rcx, rax"));
    let save = text.rfind("mov [rsp - 8], rax").unwrap();
    let reload = text.rfind("mov rcx, [rsp - 8]").unwrap();
    assert!(save < reload);
    let check = text.rfind(";Check: SameType").unwrap();
    assert!(reload < check);
}

#[test]
fn labels_are_numbered_from_the_counter() {
    let mut n = 40;
    let text = listing("(if true 1 2)", &mut n).unwrap();
    assert!(text.contains("else_40:"));
    assert!(text.contains("end_41:"));
    assert!(text.contains("ok_42:"));
    assert_eq!(n, 43);
    let again = listing("(if true 1 2)", &mut n).unwrap();
    assert!(again.contains("else_43:"));
    assert!(n > 43);
}

#[test]
fn code_generator_errors() {
    let mut n = 0;
    assert_eq!(listing("x", &mut n).unwrap_err(), "unbound variable: x");
    assert_eq!(listing("(let ((x 1) (x 2)) x)", &mut n).unwrap_err(), "duplicate binding");
    assert_eq!(listing("(break 1)", &mut n).unwrap_err(), "break used outside of loop");
    assert_eq!(listing("(f 1)", &mut n).unwrap_err(), "unknown function: f");
    assert_eq!(listing("(set! y 1)", &mut n).unwrap_err(), "unbound variable: y");
}

#[test]
fn the_context_reads_what_was_written() {
    let mut ctx = Context::new();
    assert_eq!(ctx.si, 1);
    assert_eq!(ctx.curr_offset(), 8);
    ctx.increment_si_by(2);
    assert_eq!(ctx.curr_offset(), 24);
    ctx.insert_stack("x".to_string(), 24);
    assert_eq!(ctx.stack_env.get("x"), Some(&24));
    ctx.insert_fun("f".to_string(), 2);
    assert_eq!(ctx.fun_env.get("f"), Some(&2));
    ctx.insert_define("g".to_string(), 4096);
    assert_eq!(ctx.define_env.get("g"), Some(&4096));
    ctx.with_break_label("loop_end_0".to_string());
    assert_eq!(ctx.break_label.as_deref(), Some("loop_end_0"));
    ctx.clear_break_label();
    assert!(ctx.break_label.is_none());
    ctx.clear_stack();
    assert!(ctx.stack_env.get("x").is_none());
    assert_eq!(ctx.fun_env.get("f"), Some(&2));
    let copy = ctx.clone();
    assert_eq!(copy.si, 3);
    assert_eq!(copy.define_env.get("g"), Some(&4096));
}

#[test]
fn defined_names_read_through_their_cell() {
    let mut ctx = Context::new();
    ctx.insert_define("g".to_string(), 4096);
    let mut n = 0;
    let code = compile_to_instructions(&expr("g"), &ctx, &mut n).unwrap();
    assert_eq!(instructions_to_str(&code), "mov rax, 4096\nmov rax, [rax - 0]");
}

#[test]
fn checks() {
    let mut n = 7;
    let num = create_check(Check::Num, &mut n);
    assert_eq!(
        instructions_to_str(&num),
        ";Check: Num\ntest rax, 1\nje ok_7\nmov rdi, 1\ncall snek_error\nok_7:"
    );
    assert_eq!(n, 8);
    let cast = create_cast_check(&Type::Any, &mut n);
    assert!(cast.len() <= 2);
    let _ = create_cast_check(&Type::Bool, &mut n);
    assert!(n >= 8);
}

#[test]
fn functions_compile_with_their_label() {
    let p = parse_program(&read_sexp("((fun (f x y) y) (f 1 2))").unwrap()).unwrap();
    let mut n = 0;
    let code = compile_fundef(&p.defs[0], &Context::new(), &mut n).unwrap();
    let text = instructions_to_str(&code);
    assert!(text.starts_with("fun_f:\n;Function: f with 2 args\n"));
    assert!(text.ends_with(";Return from function\njmp [rsp - 0]"));
    let (funs, main) = compile_program(&p, &Context::new(), &mut n).unwrap();
    assert!(instructions_to_str(&funs).starts_with("fun_f:"));
    assert!(instructions_to_str(&main).ends_with(";Main expression"));
}

#[test]
fn duplicate_functions_are_refused_by_the_code_generator() {
    let a = parse_program(&read_sexp("((fun (f x) x) 1)").unwrap()).unwrap();
    let b = parse_program(&read_sexp("((fun (f y) y) 1)").unwrap()).unwrap();
    let mut defs = a.defs;
    defs.extend(b.defs);
    let p = snek::ast::Program { defs, main: a.main };
    let mut n = 0;
    assert_eq!(compile_program(&p, &Context::new(), &mut n).unwrap_err(), "duplicate function definition: f");
}
