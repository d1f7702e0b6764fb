use snek::ast::{Expr, Op1, Op2, ReplEntry, Type};
use snek::driver::{read_program, Stage};
use snek::parser::{contains_input, parse_expr, parse_type, parse_program, parse_repl_entry, valid_id};
use snek::sexpr::{SAtom, SExp};
fn convert(s: &sexp::Sexp) -> SExp {
    match s {
        sexp::Sexp::Atom(sexp::Atom::S(x)) => SExp::Atom(SAtom::S(x.clone())),
        sexp::Sexp::Atom(sexp::Atom::I(n)) => SExp::Atom(SAtom::I(*n)),
        sexp::Sexp::Atom(sexp::Atom::F(_)) => SExp::Atom(SAtom::F),
        sexp::Sexp::List(xs) => SExp::List(xs.iter().map(convert).collect()),
    }
}

fn read_sexp(text: &str) -> Option<SExp> {
    sexp::parse(text).ok().map(|s| convert(&s))
}


fn sexp(text: &str) -> SExp {
    read_sexp(text).expect("test text is an s-expression")
}

fn expr(text: &str) -> Result<Expr, String> {
    parse_expr(&sexp(text))
}

#[test]
fn reading_source_text() {
    let p = read_program("(fun (f x) (- x 1))\n(f -12)").unwrap();
    assert_eq!(p.defs.len(), 1);
    assert_eq!(p.defs[0].name, "f");
    match *p.main {
        Expr::Call(f, args) => {
            assert_eq!(f, "f");
            assert!(matches!(args[0], Expr::Num(-12)));
        }
        other => panic!("unexpected {:?}", other),
    }
    let e = read_program("(+ 1").unwrap_err();
    assert_eq!((e.stage, e.report()), (Stage::Read, "Input parse error".to_string()));
    let e = read_program("").unwrap_err();
    assert_eq!((e.stage, e.report()), (Stage::Parse, "Parse error: missing program".to_string()));
}

#[test]
fn reserved_words_are_not_identifiers() {
    for w in ["let", "add1", "define", "set!", "fun", "cast", "input", "true", "+"] {
        assert!(!valid_id(w), "{}", w);
    }
    for w in ["x", "fact", "negate", "Let", "inputs"] {
        assert!(valid_id(w), "{}", w);
    }
}

#[test]
fn atoms_parse() {
    assert!(matches!(expr("5"), Ok(Expr::Num(5))));
    assert!(matches!(expr("true"), Ok(Expr::Bool(true))));
    assert!(matches!(expr("(false)"), Ok(Expr::Bool(false))));
    assert!(matches!(expr("input"), Ok(Expr::Input)));
    assert!(matches!(expr("x"), Ok(Expr::Id(s)) if s == "x"));
    assert_eq!(expr("let").unwrap_err(), "invalid ID: can't use reserved word(s): let");
    assert_eq!(expr("(let)").unwrap_err(), "invalid ID: an't use reserved word(s): let");
}

#[test]
fn non_commutative_operators_swap_their_operands() {
    match expr("(- 10 3)") {
        Ok(Expr::BinOp(Op2::Minus, a, b)) => {
            assert!(matches!(*a, Expr::Num(3)));
            assert!(matches!(*b, Expr::Num(10)));
        }
        other => panic!("unexpected {:?}", other),
    }
    match expr("(+ 10 3)") {
        Ok(Expr::BinOp(Op2::Plus, a, b)) => {
            assert!(matches!(*a, Expr::Num(10)));
            assert!(matches!(*b, Expr::Num(3)));
        }
        other => panic!("unexpected {:?}", other),
    }
    assert!(matches!(expr("(< 1 2)"), Ok(Expr::BinOp(Op2::Less, _, _))));
}

#[test]
fn compound_forms_parse() {
    assert!(matches!(expr("(add1 1)"), Ok(Expr::UnOp(Op1::Add1, _))));
    assert!(matches!(expr("(negate 1)"), Ok(Expr::UnOp(Op1::Negate, _))));
    assert!(matches!(expr("(print 1)"), Ok(Expr::UnOp(Op1::Print, _))));
    match expr("(let ((x 1) (y 2)) (+ x y))") {
        Ok(Expr::Let(binds, _)) => {
            assert_eq!(binds.len(), 2);
            assert_eq!(binds[0].0, "x");
            assert_eq!(binds[1].0, "y");
        }
        other => panic!("unexpected {:?}", other),
    }
    assert!(matches!(expr("(if true 1 2)"), Ok(Expr::If(_, _, _))));
    assert!(matches!(expr("(loop (break 1))"), Ok(Expr::Loop(_))));
    assert!(matches!(expr("(set! x 1)"), Ok(Expr::Assign(x, _)) if x == "x"));
    assert!(matches!(expr("(block 1 2 3)"), Ok(Expr::Block(es)) if es.len() == 3));
    // a list of one word reads as that word
    assert_eq!(expr("(block)").unwrap_err(), "invalid ID: an't use reserved word(s): block");
    assert!(matches!(expr("(f 1 2)"), Ok(Expr::Call(f, args)) if f == "f" && args.len() == 2));
    assert!(matches!(expr("(cast Num x)"), Ok(Expr::Cast(Type::Num, _))));
}

#[test]
fn malformed_expressions_are_refused() {
    assert_eq!(expr("(let ((let 1)) 2)").unwrap_err(), "parse error: invalid binding");
    assert_eq!(expr("(let (x) 2)").unwrap_err(), "parse error: invalid binding");
    assert_eq!(expr("(cast Int x)").unwrap_err(), "invalid type: Int");
    assert_eq!(expr("(cast (Num) x)").unwrap_err(), "invalid type");
    assert_eq!(expr("(fun (f) 1)").unwrap_err(), "missing body");
    assert_eq!(expr("(1 2)").unwrap_err(), "invalid expression");
    // a `let` needs at least one binding
    assert_eq!(expr("(let () 5)").unwrap_err(), "invalid expression");
    assert_eq!(expr("()").unwrap_err(), "invalid expression");
    assert_eq!(expr("(+ 1 let)").unwrap_err(), "invalid ID: can't use reserved word(s): let");
}

#[test]
fn the_right_operand_of_a_swapped_operator_fails_first() {
    assert_eq!(expr("(- let define)").unwrap_err(), "invalid ID: can't use reserved word(s): define");
    assert_eq!(expr("(+ let define)").unwrap_err(), "invalid ID: can't use reserved word(s): let");
}

#[test]
fn input_is_found_anywhere() {
    assert!(contains_input(&expr("(+ 1 (let ((x input)) x))").unwrap()));
    assert!(!contains_input(&expr("(+ 1 (let ((x 2)) x))").unwrap()));
}

#[test]
fn programs_parse() {
    let p = parse_program(&sexp("((fun (f x) (+ x 1)) (fun (g (y : Num)) -> Num y) (f 2))")).unwrap();
    assert_eq!(p.defs.len(), 2);
    assert_eq!(p.defs[0].name, "f");
    assert_eq!(p.defs[0].args, vec!["x".to_string()]);
    assert!(p.defs[0].ret_type.is_none());
    assert!(p.defs[0].arg_types.is_empty());
    assert_eq!(p.defs[1].name, "g");
    assert_eq!(p.defs[1].arg_types, vec![Type::Num]);
    assert_eq!(p.defs[1].ret_type, Some(Type::Num));
    assert!(matches!(*p.main, Expr::Call(_, _)));
}

#[test]
fn program_errors() {
    let err = |t: &str| parse_program(&sexp(t)).unwrap_err();
    assert_eq!(err("()"), "missing program");
    assert_eq!(err("5"), "invalid program");
    assert_eq!(err("((fun (f x) x) (fun (f y) y) 1)"), "duplicate function name");
    assert_eq!(err("((fun (f x x) x) 1)"), "duplicate function parameter");
    assert_eq!(err("((fun (let x) x) 1)"), "invalid function name");
    assert_eq!(err("((fun (f if) 1) 1)"), "invalid function parameter");
    assert_eq!(err("((fun (f x) input) 1)"), "cannot use input in function body");
    assert_eq!(err("((fun f x) 1)"), "expected function: (fun (name params..) body)");
    assert_eq!(err("(5 1)"), "invalid function definition");
    assert_eq!(err("((fun (f (x Num)) -> Num x) 1)"), "invalid function argument annotation");
    assert_eq!(err("((fun (f (x : Int)) -> Num x) 1)"), "invalid type: Int");
    assert_eq!(err("((fun (f x) x) let)"), "invalid ID: can't use reserved word(s): let");
}

#[test]
fn prompt_entries_parse() {
    let entry = |t: &str| parse_repl_entry(&sexp(t));
    assert!(matches!(entry("(define x 5)"), Ok(ReplEntry::Define(x, _)) if x == "x"));
    assert_eq!(entry("(define let 5)").unwrap_err(), "invalid ID: can't use reserved words");
    assert_eq!(entry("(define x let)").unwrap_err(), "invalid ID: can't use reserved word(s): let");
    assert!(matches!(entry("(fun (f x) x)"), Ok(ReplEntry::FunDef(d)) if d.name == "f"));
    assert!(matches!(entry("(fun (f (x : Bool)) -> Bool x)"), Ok(ReplEntry::FunDef(d)) if d.ret_type == Some(Type::Bool)));
    assert_eq!(entry("(fun (f x) input)").unwrap_err(), "cannot use input in function body");
    assert!(matches!(entry("(+ 1 2)"), Ok(ReplEntry::Expr(_))));
    assert!(matches!(entry("7"), Ok(ReplEntry::Expr(_))));
}

#[test]
fn type_names_read_back() {
    for t in [Type::Num, Type::Bool, Type::Nothing, Type::Any] {
        assert_eq!(parse_type(&SExp::Atom(SAtom::S(t.to_string()))), Ok(t));
    }
    assert_eq!(parse_type(&SExp::Atom(SAtom::S("num".to_string()))), Err("invalid type: num".to_string()));
    assert_eq!(parse_type(&SExp::Atom(SAtom::I(3))), Err("invalid type".to_string()));
}
