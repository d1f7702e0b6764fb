use snek::ast::Expr;
use snek::codegen::limits::{expr_size_capped, fits_expr, fits_fundef, fits_program, slots_capped};
use snek::parser::{parse_expr, parse_program};
use snek::sexpr::{SAtom, SExp};
fn convert(s: &sexp::Sexp) -> SExp {
    match s {
        sexp::Sexp::Atom(sexp::Atom::S(x)) => SExp::Atom(SAtom::S(x.clone())),
        sexp::Sexp::Atom(sexp::Atom::I(n)) => SExp::Atom(SAtom::I(*n)),
        sexp::Sexp::Atom(sexp::Atom::F(_)) => SExp::Atom(SAtom::F),
        sexp::Sexp::List(xs) => SExp::List(xs.iter().map(convert).collect()),
    }
}

fn read_sexp(text: &str) -> Option<SExp> {
    sexp::parse(text).ok().map(|s| convert(&s))
}


fn expr(text: &str) -> Expr {
    parse_expr(&read_sexp(text).unwrap()).unwrap()
}

#[test]
fn sizes_count_nodes_and_bindings() {
    assert_eq!(expr_size_capped(&expr("5"), 100), 1);
    assert_eq!(expr_size_capped(&expr("(+ 1 2)"), 100), 3);
    assert_eq!(expr_size_capped(&expr("(let ((x 1) (y 2)) x)"), 100), 6);
    assert_eq!(expr_size_capped(&expr("(f 1 2 3)"), 100), 4);
    assert_eq!(expr_size_capped(&expr("(+ 1 2)"), 2), 2);
    assert_eq!(expr_size_capped(&expr("(+ 1 2)"), 0), 0);
}

#[test]
fn bounds_of_the_code_generator() {
    let e = expr("(+ 1 2)");
    assert!(fits_expr(&e, 1, 0));
    assert!(!fits_expr(&e, 1, i64::MAX - 10));
    assert!(fits_expr(&e, 1, i64::MAX - 24));
    assert!(!fits_expr(&e, 0x0FFF_FFFF, 0));
    // the second operand uses the slot above the free one, and no more
    assert!(fits_expr(&e, 0x0FFF_FFFE, 0));
    assert!(!fits_expr(&e, -0x1000_0001, 0));
    let p = parse_program(&read_sexp("((fun (f x) x) (f 1))").unwrap()).unwrap();
    assert!(fits_fundef(&p.defs[0], 1, 0));
    assert!(fits_fundef(&p.defs[0], 0x0FFF_FFFE, 0));
    assert!(!fits_fundef(&p.defs[0], 0x0FFF_FFFF, 0));
    assert!(fits_program(&p, 1, 0));
    assert!(!fits_program(&p, 1, i64::MAX));
}

#[test]
fn slots_count_the_deepest_stack_slot() {
    assert_eq!(slots_capped(&expr("5"), 100), 0);
    assert_eq!(slots_capped(&expr("(+ 1 2)"), 100), 1);
    assert_eq!(slots_capped(&expr("(if true 1 2)"), 100), 2);
    assert_eq!(slots_capped(&expr("(let ((x 1) (y 2)) (+ x y))"), 100), 3);
    assert_eq!(slots_capped(&expr("(block 1 2 (+ 1 2))"), 100), 3);
    assert_eq!(slots_capped(&expr("(f 1 (+ 1 2))"), 100), 3);
    assert_eq!(slots_capped(&expr("(if true 1 2)"), 1), 1);
}
