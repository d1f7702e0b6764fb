use snek::codegen::assemble::instructions_to_str;
use snek::parser::parse_repl_entry;
use snek::repl::{Repl, ReplAction};
use snek::sexpr::{SAtom, SExp};
fn convert(s: &sexp::Sexp) -> SExp {
    match s {
        sexp::Sexp::Atom(sexp::Atom::S(x)) => SExp::Atom(SAtom::S(x.clone())),
        sexp::Sexp::Atom(sexp::Atom::I(n)) => SExp::Atom(SAtom::I(*n)),
        sexp::Sexp::Atom(sexp::Atom::F(_)) => SExp::Atom(SAtom::F),
        sexp::Sexp::List(xs) => SExp::List(xs.iter().map(convert).collect()),
    }
}

fn read_sexp(text: &str) -> Option<SExp> {
    sexp::parse(text).ok().map(|s| convert(&s))
}


fn report(a: ReplAction) -> String {
    match a {
        ReplAction::Report(m) => m,
        _ => panic!("expected a report"),
    }
}

#[test]
fn leaving_the_prompt() {
    let mut r = Repl::new(false);
    assert!(matches!(r.step("exit"), ReplAction::Quit));
    assert!(matches!(r.step("quit"), ReplAction::Quit));
}

#[test]
fn unreadable_and_unparsable_lines_are_reported() {
    let mut r = Repl::new(false);
    assert_eq!(report(r.step("(+ 1")), "Input parse error");
    assert_eq!(report(r.step("(define let 1)")), "Parse error: invalid ID: can't use reserved words");
    assert_eq!(report(r.step("y")), "Compile error: unbound variable: y");
}

#[test]
fn defining_then_reading_a_name() {
    let mut r = Repl::new(false);
    match r.step("(define x true)") {
        ReplAction::Define(name, code) => {
            assert_eq!(name, "x");
            assert_eq!(instructions_to_str(&code), "mov rax, 3");
            r.bind(name, 4096);
        }
        _ => panic!("expected a definition"),
    }
    match r.step("x") {
        ReplAction::Eval(code) => assert_eq!(instructions_to_str(&code), "mov rax, 4096\nmov rax, [rax - 0]"),
        _ => panic!("expected an expression"),
    }
    match r.step("false") {
        ReplAction::Eval(code) => assert_eq!(instructions_to_str(&code), "mov rax, 1"),
        _ => panic!("expected an expression"),
    }
    assert_eq!(report(r.step("(define x 5)")), "Error: duplicate binding");
}

#[test]
fn functions_are_added_once() {
    let mut r = Repl::new(false);
    match r.step("(fun (f a) a)") {
        ReplAction::Function(code) => assert!(instructions_to_str(&code).starts_with("fun_f:")),
        _ => panic!("expected a function"),
    }
    assert_eq!(r.ctx.fun_env.get("f"), Some(&1));
    assert_eq!(report(r.step("(fun (f b) b)")), "Error: duplicate function name");
    assert!(matches!(r.step("(f 3)"), ReplAction::Eval(_)));
    assert_eq!(report(r.step("(f 3 4)")), "Compile error: function f expects 1 arguments, got 2");
}

#[test]
fn labels_stay_fresh_across_lines() {
    let mut r = Repl::new(false);
    let first = match r.step("(if true 1 2)") {
        ReplAction::Eval(code) => instructions_to_str(&code),
        _ => panic!("expected an expression"),
    };
    let second = match r.step("(if true 1 2)") {
        ReplAction::Eval(code) => instructions_to_str(&code),
        _ => panic!("expected an expression"),
    };
    assert!(first.contains("else_0:"));
    assert!(second.contains("else_3:"));
    assert_eq!(r.labels, 6);
}

#[test]
fn entries_parsed_elsewhere_are_handled_alike() {
    let mut r = Repl::new(false);
    let e = parse_repl_entry(&read_sexp("(define y (+ 1 2))").unwrap()).unwrap();
    match r.entry(e) {
        ReplAction::Define(name, code) => {
            assert_eq!(name, "y");
            assert!(instructions_to_str(&code).starts_with(";Plus\n"));
        }
        _ => panic!("expected a definition"),
    }
    // the checks of `+` took labels 0 and 1, its overflow check 2 and 3
    assert_eq!(r.labels, 4);
}

#[test]
fn type_checking_at_the_prompt_refuses_ill_typed_lines() {
    let mut r = Repl::new(true);
    assert_eq!(report(r.step("(+ 1 true)")), "Type error: Plus expects Num for second operand but got Bool");
    assert_eq!(r.labels, 0);
    // without checking, the same line is compiled
    let mut plain = Repl::new(false);
    assert!(matches!(plain.step("(+ 1 true)"), ReplAction::Eval(_)));
}

#[test]
fn the_prompt_remembers_types_of_definitions() {
    let mut r = Repl::new(true);
    match r.step("(define b true)") {
        ReplAction::Define(name, _) => r.bind(name, 4096),
        _ => panic!("expected a definition"),
    }
    assert_eq!(report(r.step("(add1 b)")), "Type error: Add1 expects Num but got Bool");
    assert!(matches!(r.step("(if b 1 2)"), ReplAction::Eval(_)));
    assert!(matches!(r.step("(fun (inc (x : Num)) -> Num (add1 x))"), ReplAction::Function(_)));
    assert_eq!(report(r.step("(inc b)")), "Type error: argument 0 to function inc has type Bool but expected Num");
    assert!(matches!(r.step("(inc 1)"), ReplAction::Eval(_)));
    assert_eq!(
        report(r.step("(fun (bad (x : Num)) -> Bool x)")),
        "Type error: function bad body has type Num but expected Bool"
    );
    assert!(r.ctx.fun_env.get("bad").is_none());
}
