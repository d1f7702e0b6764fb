//! S-expressions, as the `sexp` crate reads them from text.
use vstd::prelude::*;

verus! {

/// An atom of an s-expression.
#[derive(Debug)]
pub enum SAtom {
    /// A symbol or a quoted string.
    S(String),
    /// An integer.
    I(i64),
    /// A floating-point number; the compiler never reads its value.
    F,
}

/// An s-expression: an atom or a list.
#[derive(Debug)]
pub enum SExp {
    Atom(SAtom),
    List(Vec<SExp>),
}

#[verifier::external_type_specification]
#[verifier::external_body]
pub struct ExOutsideSexp(sexp::Sexp);

/// The tree that `sexp::parse` reads from a text, converted node for node
/// (a floating-point atom becomes `SAtom::F`), or `None` where it reports
/// an error.
pub uninterp spec fn sexp_reading(text: Seq<char>) -> Option<SExp>;

/// `sexp::parse`: reads one s-expression from `text`. The result is the
/// tree that the name `sexp_reading` stands for; what that tree is for a
/// given text is left to the `sexp` crate and not stated here.
#[verifier::external_body]
pub(crate) fn read_sexp(text: &str) -> (r: Option<SExp>)
    ensures
        r == sexp_reading(text@),
{
    match sexp::parse(text) {
        Ok(s) => Some(SExp::from_outside(&s)),
        Err(_) => None,
    }
}

impl SExp {
    /// Converts a tree of the `sexp` crate node for node; the value of a
    /// floating-point atom is dropped.
    #[verifier::external_body]
    fn from_outside(s: &sexp::Sexp) -> SExp {
        match s {
            sexp::Sexp::Atom(sexp::Atom::S(x)) => SExp::Atom(SAtom::S(x.clone())),
            sexp::Sexp::Atom(sexp::Atom::I(n)) => SExp::Atom(SAtom::I(*n)),
            sexp::Sexp::Atom(sexp::Atom::F(_)) => SExp::Atom(SAtom::F),
            sexp::Sexp::List(xs) => SExp::List(xs.iter().map(SExp::from_outside).collect()),
        }
    }
}

} // verus!
