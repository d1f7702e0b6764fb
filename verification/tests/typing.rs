use snek::ast::{Expr, Type};
use snek::parser::{parse_expr, parse_program};
use snek::typecheck::{is_subtype, union, typecheck_expr, typecheck_program, TypeEnv, get_function_signature};
use snek::sexpr::{SAtom, SExp};
fn convert(s: &sexp::Sexp) -> SExp {
    match s {
        sexp::Sexp::Atom(sexp::Atom::S(x)) => SExp::Atom(SAtom::S(x.clone())),
        sexp::Sexp::Atom(sexp::Atom::I(n)) => SExp::Atom(SAtom::I(*n)),
        sexp::Sexp::Atom(sexp::Atom::F(_)) => SExp::Atom(SAtom::F),
        sexp::Sexp::List(xs) => SExp::List(xs.iter().map(convert).collect()),
    }
}

fn read_sexp(text: &str) -> Option<SExp> {
    sexp::parse(text).ok().map(|s| convert(&s))
}


const ALL: [Type; 4] = [Type::Num, Type::Bool, Type::Nothing, Type::Any];

fn expr(text: &str) -> Expr {
    parse_expr(&read_sexp(text).unwrap()).unwrap()
}

fn program_type(text: &str, input: Option<Type>) -> Result<Type, String> {
    let wrapped = format!("({})", text);
    let p = parse_program(&read_sexp(&wrapped).unwrap()).unwrap();
    typecheck_program(&p, input)
}

#[test]
fn subtypes() {
    assert!(is_subtype(&Type::Num, &Type::Num));
    assert!(is_subtype(&Type::Nothing, &Type::Bool));
    assert!(is_subtype(&Type::Bool, &Type::Any));
    assert!(!is_subtype(&Type::Num, &Type::Bool));
    assert!(!is_subtype(&Type::Any, &Type::Num));
    assert!(!is_subtype(&Type::Num, &Type::Nothing));
}

#[test]
fn subtype_order_laws_on_all_types() {
    for a in ALL {
        assert!(is_subtype(&a, &a));
        assert!(is_subtype(&Type::Nothing, &a));
        assert!(is_subtype(&a, &Type::Any));
        for b in ALL {
            if is_subtype(&a, &b) && is_subtype(&b, &a) {
                assert_eq!(a, b);
            }
            assert_eq!(is_subtype(&a, &b), union(&a, &b) == b);
            for c in ALL {
                if is_subtype(&a, &b) && is_subtype(&b, &c) {
                    assert!(is_subtype(&a, &c));
                }
            }
        }
    }
}

#[test]
fn union_is_the_least_upper_bound() {
    assert_eq!(union(&Type::Num, &Type::Bool), Type::Any);
    assert_eq!(union(&Type::Nothing, &Type::Bool), Type::Bool);
    assert_eq!(union(&Type::Num, &Type::Num), Type::Num);
    for a in ALL {
        assert_eq!(union(&a, &a), a);
        for b in ALL {
            let j = union(&a, &b);
            assert_eq!(j, union(&b, &a));
            assert!(is_subtype(&a, &j) && is_subtype(&b, &j));
            for c in ALL {
                if is_subtype(&a, &c) && is_subtype(&b, &c) {
                    assert!(is_subtype(&j, &c));
                }
                assert_eq!(union(&union(&a, &b), &c), union(&a, &union(&b, &c)));
            }
        }
    }
}

#[test]
fn environments_read_what_was_written() {
    let env = TypeEnv::new();
    assert!(env.get_var("x").is_none());
    let env2 = env.with_var("x".to_string(), Type::Num);
    assert_eq!(env2.get_var("x"), Some(&Type::Num));
    assert!(env.get_var("x").is_none());
    let env3 = env2.with_var("x".to_string(), Type::Bool);
    assert_eq!(env3.get_var("x"), Some(&Type::Bool));
    assert_eq!(env2.get_var("x"), Some(&Type::Num));
    let env4 = env3.with_fun("f".to_string(), vec![Type::Num], Type::Bool);
    assert_eq!(env4.get_fun("f"), Some(&(vec![Type::Num], Type::Bool)));
    assert!(env4.get_fun("x").is_none());
    assert_eq!(env4.get_var("x"), Some(&Type::Bool));
}

#[test]
fn expressions_type() {
    let env = TypeEnv::new();
    assert_eq!(typecheck_expr(&expr("(+ 1 2)"), &env), Ok(Type::Num));
    assert_eq!(typecheck_expr(&expr("(< 1 2)"), &env), Ok(Type::Bool));
    assert_eq!(typecheck_expr(&expr("(if true 1 false)"), &env), Ok(Type::Any));
    assert_eq!(typecheck_expr(&expr("(if true 1 2)"), &env), Ok(Type::Num));
    assert_eq!(typecheck_expr(&expr("input"), &env), Ok(Type::Any));
    assert_eq!(typecheck_expr(&expr("(loop 1)"), &env), Ok(Type::Nothing));
    assert_eq!(typecheck_expr(&expr("(loop (if true (break 1) (break false)))"), &env), Ok(Type::Any));
    assert_eq!(typecheck_expr(&expr("(loop (break 1))"), &env), Ok(Type::Num));
    assert_eq!(typecheck_expr(&expr("(let ((x 1) (y x)) (isnum y))"), &env), Ok(Type::Bool));
    assert_eq!(typecheck_expr(&expr("(cast Bool 5)"), &env), Ok(Type::Bool));
    assert_eq!(typecheck_expr(&expr("(block 1 true)"), &env), Ok(Type::Bool));
    assert_eq!(typecheck_expr(&expr("(print true)"), &env), Ok(Type::Bool));
}

#[test]
fn type_errors() {
    let env = TypeEnv::new();
    let err = |t: &str| typecheck_expr(&expr(t), &env).unwrap_err();
    assert_eq!(err("(+ 1 true)"), "Type error: Plus expects Num for second operand but got Bool");
    assert_eq!(err("(- 1 true)"), "Type error: Minus expects Num for first operand but got Bool");
    assert_eq!(err("(add1 false)"), "Type error: Add1 expects Num but got Bool");
    assert_eq!(err("(= 1 true)"), "Type error: = expects both operands to be Bools or Nums, got Bool and Num");
    assert_eq!(err("(if 1 2 3)"), "Type error: if condition expects Bool but got Num");
    assert_eq!(err("x"), "Type error: unbound variable x");
    assert_eq!(typecheck_expr(&Expr::Block(Vec::new()), &env).unwrap_err(), "Type error: empty block");
    assert_eq!(err("(f 1)"), "Type error: unknown function f");
    assert_eq!(err("(let ((x 1)) (set! x true))"), "Type error: cannot assign Bool to variable x of type Num");
}

#[test]
fn programs_type() {
    assert_eq!(program_type("(fun (f x) x) (f 1)", None), Ok(Type::Any));
    assert_eq!(program_type("(fun (f (x : Num)) -> Num (+ x 1)) (f 1)", None), Ok(Type::Num));
    assert_eq!(program_type("input", Some(Type::Num)), Ok(Type::Num));
    assert_eq!(program_type("input", None), Ok(Type::Any));
    assert_eq!(
        program_type("(fun (f (x : Num)) -> Bool x) 1", None),
        Err("Type error: function f body has type Num but expected Bool".to_string())
    );
    assert_eq!(
        program_type("(fun (f (x : Num)) -> Num x) (f true)", None),
        Err("Type error: argument 0 to function f has type Bool but expected Num".to_string())
    );
    assert_eq!(
        program_type("(fun (f (x : Num)) -> Num x) (f 1 2)", None),
        Err("Type error: function f expects 1 arguments but got 2".to_string())
    );
}

#[test]
fn signatures() {
    let wrapped = "((fun (f a b) a) (fun (g (x : Bool)) -> Num 1) 0)";
    let p = parse_program(&read_sexp(wrapped).unwrap()).unwrap();
    assert_eq!(get_function_signature(&p.defs[0]), (vec![Type::Any, Type::Any], Type::Any));
    assert_eq!(get_function_signature(&p.defs[1]), (vec![Type::Bool], Type::Num));
}
