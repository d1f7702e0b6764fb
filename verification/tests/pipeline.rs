use snek::ast::Type;
use snek::codegen::assemble::instructions_to_str;
use snek::codegen::instruction::{Instruction, Reg, Val};
use snek::driver::{
    asm_program, assembly_of_program, check_source, compile_source, decode_input, label_names, prepare_jit,
    BuildError, Stage,
};
use snek::parser::parse_program;
use snek::sexpr::{SAtom, SExp};
fn convert(s: &sexp::Sexp) -> SExp {
    match s {
        sexp::Sexp::Atom(sexp::Atom::S(x)) => SExp::Atom(SAtom::S(x.clone())),
        sexp::Sexp::Atom(sexp::Atom::I(n)) => SExp::Atom(SAtom::I(*n)),
        sexp::Sexp::Atom(sexp::Atom::F(_)) => SExp::Atom(SAtom::F),
        sexp::Sexp::List(xs) => SExp::List(xs.iter().map(convert).collect()),
    }
}

fn read_sexp(text: &str) -> Option<SExp> {
    sexp::parse(text).ok().map(|s| convert(&s))
}


const HEADER: &str = "section .text\n        extern snek_error\n        extern snek_print\n        global our_code_starts_here\n        ";

#[test]
fn the_assembly_file_frames_the_code() {
    assert_eq!(
        asm_program("F", "M"),
        format!("{}F\n        our_code_starts_here:\n M\nret\n", HEADER)
    );
}

#[test]
fn a_constant_program_compiles_ahead_of_time() {
    let file = compile_source("5", false).unwrap();
    assert_eq!(file, format!("{}\n        our_code_starts_here:\n mov rax, 10\n;Main expression\nret\n", HEADER));
    assert_eq!(compile_source("5", true).unwrap(), file);
}

#[test]
fn functions_come_before_the_entry_point() {
    let file = compile_source("(fun (f x) x)\n(f 1)", false).unwrap();
    let f = file.find("fun_f:").unwrap();
    let entry = file.find("our_code_starts_here:").unwrap();
    assert!(f < entry);
    assert!(file.ends_with(";Main expression\nret\n"));
}

fn stage_of<T: std::fmt::Debug>(r: Result<T, BuildError>) -> (Stage, String) {
    let e = r.unwrap_err();
    (e.stage, e.report())
}

#[test]
fn each_stage_refuses_with_its_report() {
    assert_eq!(stage_of(compile_source("(+ 1", false)), (Stage::Read, "Input parse error".to_string()));
    assert_eq!(stage_of(compile_source("", false)), (Stage::Parse, "Parse error: missing program".to_string()));
    assert_eq!(
        stage_of(compile_source("(fun (f x) x) (fun (f y) y) 1", false)),
        (Stage::Parse, "Parse error: duplicate function name".to_string())
    );
    assert_eq!(
        stage_of(compile_source("(+ 1 true)", true)),
        (Stage::Type, "Type error: Plus expects Num for second operand but got Bool".to_string())
    );
    assert_eq!(
        stage_of(compile_source("(break 1)", false)),
        (Stage::Compile, "Compile error: break used outside of loop".to_string())
    );
}

#[test]
fn type_checking_only_refuses() {
    // the same program compiles when the checker is off
    assert!(compile_source("(+ 1 true)", false).is_ok());
    let p = parse_program(&read_sexp("((if true 1 false))").unwrap()).unwrap();
    assert_eq!(assembly_of_program(&p, true).unwrap(), assembly_of_program(&p, false).unwrap());
}

#[test]
fn reports() {
    let e = BuildError { stage: Stage::Compile, message: "m".to_string() };
    assert_eq!(e.report(), "Compile error: m");
    let e = BuildError { stage: Stage::Type, message: "t".to_string() };
    assert_eq!(e.report(), "t");
    let e = BuildError { stage: Stage::Limit, message: "program too large".to_string() };
    assert_eq!(e.report(), "Compile error: program too large");
}

#[test]
fn checking_a_source_gives_its_type() {
    assert_eq!(check_source("(if true 1 false)").unwrap(), Type::Any);
    assert_eq!(check_source("(fun (f (x : Num)) -> Num x) (f 2)").unwrap(), Type::Num);
    assert_eq!(check_source("input").unwrap(), Type::Any);
    assert_eq!(stage_of(check_source("(+ 1")).0, Stage::Read);
    assert_eq!(stage_of(check_source("(if 1 2 3)")).0, Stage::Type);
}

#[test]
fn the_input_of_a_run_in_memory() {
    assert_eq!(decode_input(&None), (1, Type::Bool));
    assert_eq!(decode_input(&Some("true".to_string())), (3, Type::Bool));
    assert_eq!(decode_input(&Some("false".to_string())), (1, Type::Bool));
    assert_eq!(decode_input(&Some("21".to_string())), (42, Type::Num));
    assert_eq!(decode_input(&Some("-3".to_string())), (-6, Type::Num));
    assert_eq!(decode_input(&Some("x".to_string())), (1, Type::Bool));
    assert_eq!(decode_input(&Some("4611686018427387904".to_string())), (i64::MIN, Type::Num));
}

#[test]
fn running_in_memory_uses_the_same_code() {
    let code = prepare_jit("(fun (f x) x) (f input)", &Some("4".to_string()), true).unwrap();
    assert_eq!(code.input, 8);
    let funs = instructions_to_str(&code.fun_instrs);
    let main = instructions_to_str(&code.main_instrs);
    let file = compile_source("(fun (f x) x) (f input)", false).unwrap();
    assert_eq!(file, asm_program(&funs, &main));
}

#[test]
fn running_in_memory_checks_with_the_input_type() {
    assert!(prepare_jit("(+ input 1)", &Some("3".to_string()), true).is_ok());
    let e = prepare_jit("(+ input 1)", &Some("true".to_string()), true).unwrap_err();
    assert_eq!(e.stage, Stage::Type);
    assert!(prepare_jit("(+ input 1)", &Some("true".to_string()), false).is_ok());
    // the code is generated before the type check
    let e = prepare_jit("(block (break 1) (+ 1 true))", &None, true).unwrap_err();
    assert_eq!(e.stage, Stage::Compile);
}

#[test]
fn labels_are_listed_in_order() {
    let code = vec![
        Instruction::Label("a".to_string()),
        Instruction::IMov(Val::Reg(Reg::RAX), Val::I(1)),
        Instruction::Label("b".to_string()),
        Instruction::Comment("c".to_string()),
    ];
    assert_eq!(label_names(&code), vec!["a".to_string(), "b".to_string()]);
    assert!(label_names(&Vec::new()).is_empty());
    let jit = prepare_jit("(if true 1 2)", &None, false).unwrap();
    assert_eq!(label_names(&jit.main_instrs), vec!["ok_2".to_string(), "else_0".to_string(), "end_1".to_string()]);
}

#[test]
fn each_label_is_defined_once() {
    let source = "(fun (fact n) (let ((i 1) (acc 1)) (loop (if (> i n) (break acc) (block (set! acc (* acc i)) (set! i (+ i 1)))))))
                  (fun (isodd n) (if (< n 0) (isodd (- 0 n)) (if (= n 0) false (iseven (sub1 n)))))
                  (fun (iseven n) (if (= n 0) true (isodd (sub1 n))))
                  (block (print (fact input)) (print (iseven input)) (cast Bool (isbool 4)))";
    let code = prepare_jit(source, &Some("5".to_string()), false).unwrap();
    let mut names = label_names(&code.fun_instrs);
    names.extend(label_names(&code.main_instrs));
    let count = names.len();
    assert!(count > 10);
    names.sort();
    names.dedup();
    assert_eq!(names.len(), count);
    assert!(names.contains(&"fun_fact".to_string()));
}
