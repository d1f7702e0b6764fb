//! Reading programs from s-expressions.
use vstd::prelude::*;
use vstd::string::*;
use crate::ast::{Program, Expr, Op1, Op2, FunDef, ReplEntry, Type, child_count};
use crate::sexpr::{SExp, SAtom};
use crate::text::{push_str, str_eq, contains_str};

verus! {

/// The words that cannot name a variable or a function.
pub open spec fn reserved(id: Seq<char>) -> bool {
    id == "let"@ || id == "isnum"@ || id == "isbool"@ || id == "add1"@ || id == "sub1"@ || id
        == "+"@ || id == "-"@ || id == "*"@ || id == "<"@ || id == ">"@ || id == "define"@ || id
        == "<="@ || id == ">="@ || id == "="@ || id == "true"@ || id == "false"@ || id == "input"@
        || id == "set!"@ || id == "if"@ || id == "block"@ || id == "loop"@ || id == "break"@ || id
        == "fun"@ || id == "print"@ || id == "cast"@
}

/// Whether `id` may name a variable or a function.
pub open spec fn spec_valid_id(id: Seq<char>) -> bool {
    !reserved(id)
}

/// Whether `id` may name a variable or a function: it is not one of the
/// reserved words.
pub fn valid_id(id: &str) -> (r: bool)
    ensures
        r == spec_valid_id(id@),
{
    !(str_eq(id, "let") || str_eq(id, "isnum") || str_eq(id, "isbool") || str_eq(id, "add1")
        || str_eq(id, "sub1") || str_eq(id, "+") || str_eq(id, "-") || str_eq(id, "*") || str_eq(
        id,
        "<",
    ) || str_eq(id, ">") || str_eq(id, "define") || str_eq(id, "<=") || str_eq(id, ">=")
        || str_eq(id, "=") || str_eq(id, "true") || str_eq(id, "false") || str_eq(id, "input")
        || str_eq(id, "set!") || str_eq(id, "if") || str_eq(id, "block") || str_eq(id, "loop")
        || str_eq(id, "break") || str_eq(id, "fun") || str_eq(id, "print") || str_eq(id, "cast"))
}

/// The characters of a symbol atom.
pub open spec fn word(s: SExp) -> Option<Seq<char>> {
    match s {
        SExp::Atom(SAtom::S(x)) => Some(x@),
        _ => None,
    }
}

/// The forms a list can take, as the parser tells them apart.
pub enum Form {
    Num,
    Word,
    Unary(Op1),
    Binary(Op2),
    Let,
    If,
    Loop,
    Break,
    Assign,
    Block,
    Call,
    MissingBody,
    Cast,
    Invalid,
}

/// The form of a list with items `v`, its head word and length deciding it.
pub open spec fn list_form(v: Seq<SExp>) -> Form {
    let n = v.len();
    let h = if n > 0 { word(v[0]) } else { None };
    if n == 1 && v[0] matches SExp::Atom(SAtom::I(_)) {
        Form::Num
    } else if n == 1 && h is Some {
        Form::Word
    } else if n == 2 && h == Some("add1"@) {
        Form::Unary(Op1::Add1)
    } else if n == 2 && h == Some("sub1"@) {
        Form::Unary(Op1::Sub1)
    } else if n == 2 && h == Some("negate"@) {
        Form::Unary(Op1::Negate)
    } else if n == 2 && h == Some("isnum"@) {
        Form::Unary(Op1::IsNum)
    } else if n == 2 && h == Some("isbool"@) {
        Form::Unary(Op1::IsBool)
    } else if n == 2 && h == Some("print"@) {
        Form::Unary(Op1::Print)
    } else if n == 3 && h == Some("+"@) {
        Form::Binary(Op2::Plus)
    } else if n == 3 && h == Some("-"@) {
        Form::Binary(Op2::Minus)
    } else if n == 3 && h == Some("*"@) {
        Form::Binary(Op2::Times)
    } else if n == 3 && h == Some("<"@) {
        Form::Binary(Op2::Less)
    } else if n == 3 && h == Some(">"@) {
        Form::Binary(Op2::Greater)
    } else if n == 3 && h == Some("<="@) {
        Form::Binary(Op2::LessEqual)
    } else if n == 3 && h == Some(">="@) {
        Form::Binary(Op2::GreaterEqual)
    } else if n == 3 && h == Some("="@) {
        Form::Binary(Op2::Equal)
    } else if n == 3 && h == Some("let"@) && v[1] is List && list_items(v[1]).len() > 0 {
        Form::Let
    } else if n == 4 && h == Some("if"@) {
        Form::If
    } else if n == 2 && h == Some("loop"@) {
        Form::Loop
    } else if n == 2 && h == Some("break"@) {
        Form::Break
    } else if n == 3 && h == Some("set!"@) && word(v[1]) is Some {
        Form::Assign
    } else if n >= 2 && h == Some("block"@) {
        Form::Block
    } else if n >= 1 && h is Some && spec_valid_id(h.unwrap()) {
        Form::Call
    } else if n == 3 && h == Some("fun"@) && v[1] is List {
        Form::MissingBody
    } else if n == 3 && h == Some("cast"@) {
        Form::Cast
    } else {
        Form::Invalid
    }
}

/// Whether a binary operator takes its operands in the reverse of the
/// order they are written in (all but `+` and `*` do).
pub open spec fn swapped(op: Op2) -> bool {
    op != Op2::Plus && op != Op2::Times
}

/// The first of two errors.
pub open spec fn first_error(a: Option<Seq<char>>, b: Option<Seq<char>>) -> Option<Seq<char>> {
    if a is Some {
        a
    } else {
        b
    }
}

/// The error for a word that stands alone, if it is a reserved word other
/// than `true`, `false` and `input`.
pub open spec fn word_error(x: Seq<char>, prefix: Seq<char>) -> Option<Seq<char>> {
    if x == "true"@ || x == "false"@ || x == "input"@ || spec_valid_id(x) {
        None
    } else {
        Some(prefix + x)
    }
}

/// Whether `e` is what a word standing alone reads as.
pub open spec fn word_parses(x: Seq<char>, e: Expr) -> bool {
    if x == "true"@ {
        e == Expr::Bool(true)
    } else if x == "false"@ {
        e == Expr::Bool(false)
    } else if x == "input"@ {
        e is Input
    } else {
        e matches Expr::Id(y) && y@ == x
    }
}

/// The type that an s-expression names.
pub open spec fn type_of(s: SExp) -> Result<Type, Seq<char>> {
    match s {
        SExp::Atom(SAtom::S(t)) => if t@ == "Num"@ {
            Ok(Type::Num)
        } else if t@ == "Bool"@ {
            Ok(Type::Bool)
        } else if t@ == "Nothing"@ {
            Ok(Type::Nothing)
        } else if t@ == "Any"@ {
            Ok(Type::Any)
        } else {
            Err("invalid type: "@ + t@)
        },
        _ => Err("invalid type"@),
    }
}

/// Reading the name of a type gives the type back.
pub proof fn lemma_type_name_round_trip(t: Type, name: String)
    requires
        name@ == crate::ast::type_text(t),
    ensures
        type_of(SExp::Atom(SAtom::S(name))) == Ok::<Type, Seq<char>>(t),
{
    reveal_strlit("Num");
    reveal_strlit("Bool");
    reveal_strlit("Nothing");
    reveal_strlit("Any");
    assert("Num"@[0] != "Any"@[0]);
    match t {
        Type::Num => {},
        Type::Bool => {
            assert(name@ != "Num"@);
        },
        Type::Nothing => {
            assert(name@.len() == 7);
            assert(name@ != "Num"@);
            assert(name@ != "Bool"@);
        },
        Type::Any => {
            assert(name@ != "Num"@);
            assert(name@ != "Bool"@);
            assert(name@ != "Nothing"@);
        },
    }
}

/// The order in which a binary operator reads its operands: `+` and `*`
/// take them as written, and every other operator (`-`, `<`, `>`, `<=`,
/// `>=`, `=`) takes them in reverse, its first operand being the one
/// written last.
pub proof fn lemma_binary_operand_order(s: SExp, e: Expr)
    requires
        s is List,
        list_items(s).len() == 3,
        parses_as(s, e),
    ensures
        ({
            let v = list_items(s);
            let w = word(v[0]);
            &&& w == Some("+"@) ==> (e matches Expr::BinOp(o, x, y) && o == Op2::Plus && parses_as(v[1], *x)
                && parses_as(v[2], *y))
            &&& w == Some("*"@) ==> (e matches Expr::BinOp(o, x, y) && o == Op2::Times && parses_as(v[1], *x)
                && parses_as(v[2], *y))
            &&& w == Some("-"@) ==> (e matches Expr::BinOp(o, x, y) && o == Op2::Minus && parses_as(v[2], *x)
                && parses_as(v[1], *y))
            &&& w == Some("<"@) ==> (e matches Expr::BinOp(o, x, y) && o == Op2::Less && parses_as(v[2], *x)
                && parses_as(v[1], *y))
            &&& w == Some(">"@) ==> (e matches Expr::BinOp(o, x, y) && o == Op2::Greater && parses_as(v[2], *x)
                && parses_as(v[1], *y))
            &&& w == Some("<="@) ==> (e matches Expr::BinOp(o, x, y) && o == Op2::LessEqual && parses_as(v[2], *x)
                && parses_as(v[1], *y))
            &&& w == Some(">="@) ==> (e matches Expr::BinOp(o, x, y) && o == Op2::GreaterEqual && parses_as(
                v[2],
                *x,
            ) && parses_as(v[1], *y))
            &&& w == Some("="@) ==> (e matches Expr::BinOp(o, x, y) && o == Op2::Equal && parses_as(v[2], *x)
                && parses_as(v[1], *y))
        }),
{
    reveal_strlit("+");
    reveal_strlit("-");
    reveal_strlit("*");
    reveal_strlit("<");
    reveal_strlit(">");
    reveal_strlit("<=");
    reveal_strlit(">=");
    reveal_strlit("=");
    assert("+"@[0] != "-"@[0] && "+"@[0] != "*"@[0] && "+"@[0] != "<"@[0] && "+"@[0] != ">"@[0]);
    assert("-"@[0] != "*"@[0] && "-"@[0] != "<"@[0] && "-"@[0] != ">"@[0] && "*"@[0] != "<"@[0]);
    assert("*"@[0] != ">"@[0] && "<"@[0] != ">"@[0] && "<"@[0] != "="@[0] && ">"@[0] != "="@[0]);
    assert("<="@.len() == 2 && ">="@.len() == 2 && "<"@.len() == 1 && "="@.len() == 1);
    assert("<="@[0] != ">="@[0]);
}

/// The operator that each word of one operand names: `(add1 x)`,
/// `(sub1 x)`, `(negate x)`, `(isnum x)`, `(isbool x)` and `(print x)`
/// read as that operator applied to what `x` reads as.
pub proof fn lemma_unary_words(s: SExp, e: Expr)
    requires
        s is List,
        list_items(s).len() == 2,
        parses_as(s, e),
    ensures
        ({
            let v = list_items(s);
            let w = word(v[0]);
            &&& w == Some("add1"@) ==> (e matches Expr::UnOp(o, x) && o == Op1::Add1 && parses_as(v[1], *x))
            &&& w == Some("sub1"@) ==> (e matches Expr::UnOp(o, x) && o == Op1::Sub1 && parses_as(v[1], *x))
            &&& w == Some("negate"@) ==> (e matches Expr::UnOp(o, x) && o == Op1::Negate && parses_as(v[1], *x))
            &&& w == Some("isnum"@) ==> (e matches Expr::UnOp(o, x) && o == Op1::IsNum && parses_as(v[1], *x))
            &&& w == Some("isbool"@) ==> (e matches Expr::UnOp(o, x) && o == Op1::IsBool && parses_as(v[1], *x))
            &&& w == Some("print"@) ==> (e matches Expr::UnOp(o, x) && o == Op1::Print && parses_as(v[1], *x))
        }),
{
    reveal_strlit("add1");
    reveal_strlit("sub1");
    reveal_strlit("negate");
    reveal_strlit("isnum");
    reveal_strlit("isbool");
    reveal_strlit("print");
    assert("add1"@[0] != "sub1"@[0] && "add1"@[0] != "negate"@[0] && "add1"@[0] != "isnum"@[0]);
    assert("add1"@[0] != "print"@[0] && "sub1"@[0] != "negate"@[0] && "sub1"@[0] != "isnum"@[0]);
    assert("sub1"@[0] != "print"@[0] && "negate"@[0] != "isnum"@[0] && "negate"@[0] != "print"@[0]);
    assert("isnum"@[0] != "print"@[0] && "isnum"@[2] != "isbool"@[2] && "add1"@[0] != "isbool"@[0]);
    assert("sub1"@[0] != "isbool"@[0] && "negate"@[0] != "isbool"@[0] && "isbool"@[0] != "print"@[0]);
}

/// A word alone reads as a value or a name: `true` and `false` as the
/// booleans, `input` as the input, and any word that is not reserved as
/// the variable of that name.
pub proof fn lemma_word_reading(x: String, e: Expr)
    requires
        parse_error(SExp::Atom(SAtom::S(x))) is None,
        parses_as(SExp::Atom(SAtom::S(x)), e),
    ensures
        x@ == "true"@ ==> e == Expr::Bool(true),
        x@ == "false"@ ==> e == Expr::Bool(false),
        x@ == "input"@ ==> e == Expr::Input,
        x@ != "true"@ && x@ != "false"@ && x@ != "input"@ ==> (e matches Expr::Id(y) && y@ == x@ && spec_valid_id(x@)),
{
    reveal_strlit("true");
    reveal_strlit("false");
    reveal_strlit("input");
    assert("true"@[0] != "false"@[0] && "true"@[0] != "input"@[0] && "false"@[0] != "input"@[0]);
}

/// How many items a list holds, with the items of its second item.
pub open spec fn sexp_count(s: SExp) -> int {
    match s {
        SExp::List(v) => v@.len() + (if v@.len() > 1 {
            match v@[1] {
                SExp::List(b) => b@.len() as int,
                _ => 0,
            }
        } else {
            0
        }),
        _ => 0,
    }
}

/// The bindings of a `let` list `s`.
pub open spec fn let_bindings(s: SExp) -> Seq<SExp> {
    match s {
        SExp::List(v) => if v@.len() > 1 {
            match v@[1] {
                SExp::List(b) => b@,
                _ => Seq::empty(),
            }
        } else {
            Seq::empty()
        },
        _ => Seq::empty(),
    }
}

/// The message of the first error met when reading `s` as an expression,
/// or `None` when it reads as one.
pub open spec fn parse_error(s: SExp) -> Option<Seq<char>>
    decreases s, sexp_count(s) + 2,
{
    match s {
        SExp::Atom(SAtom::I(_)) => None,
        SExp::Atom(SAtom::S(x)) => word_error(x@, "invalid ID: can't use reserved word(s): "@),
        SExp::Atom(SAtom::F) => Some("invalid expression"@),
        SExp::List(v) => match list_form(v@) {
            Form::Num => None,
            Form::Word => word_error(word(v@[0]).unwrap(), "invalid ID: an't use reserved word(s): "@),
            Form::Unary(_) => parse_error(v@[1]),
            Form::Loop => parse_error(v@[1]),
            Form::Break => parse_error(v@[1]),
            Form::Binary(op) => if swapped(op) {
                first_error(parse_error(v@[2]), parse_error(v@[1]))
            } else {
                first_error(parse_error(v@[1]), parse_error(v@[2]))
            },
            Form::Let => first_error(binds_error(s, 0), parse_error(v@[2])),
            Form::If => first_error(
                parse_error(v@[1]),
                first_error(parse_error(v@[2]), parse_error(v@[3])),
            ),
            Form::Assign => parse_error(v@[2]),
            Form::Block => items_error(s, 1),
            Form::Call => items_error(s, 1),
            Form::MissingBody => Some("missing body"@),
            Form::Cast => match type_of(v@[1]) {
                Err(m) => Some(m),
                Ok(_) => parse_error(v@[2]),
            },
            Form::Invalid => Some("invalid expression"@),
        },
    }
}

/// The first error in the bindings of a `let` list `s`, from the `i`-th on.
pub open spec fn binds_error(s: SExp, i: int) -> Option<Seq<char>>
    decreases s, sexp_count(s) - i,
{
    match s {
        SExp::List(v) => if v@.len() > 1 {
            match v@[1] {
                SExp::List(b) => if 0 <= i < b@.len() {
                    match b@[i] {
                        SExp::List(p) => if p@.len() == 2 && word(p@[0]) is Some && spec_valid_id(
                            word(p@[0]).unwrap(),
                        ) {
                            first_error(parse_error(p@[1]), binds_error(s, i + 1))
                        } else {
                            Some("parse error: invalid binding"@)
                        },
                        _ => Some("parse error: invalid binding"@),
                    }
                } else {
                    None
                },
                _ => None,
            }
        } else {
            None
        },
        _ => None,
    }
}

/// The first error in the items of a list `s` from the `i`-th on.
pub open spec fn items_error(s: SExp, i: int) -> Option<Seq<char>>
    decreases s, sexp_count(s) - i,
{
    match s {
        SExp::List(v) => if 1 <= i < v@.len() {
            first_error(parse_error(v@[i]), items_error(s, i + 1))
        } else {
            None
        },
        _ => None,
    }
}

/// Whether `e` is the expression that `s` reads as (names compared by
/// their characters), given that `s` reads without error.
pub open spec fn parses_as(s: SExp, e: Expr) -> bool
    decreases s, sexp_count(s) + 2,
{
    match s {
        SExp::Atom(SAtom::I(n)) => e == Expr::Num(n),
        SExp::Atom(SAtom::S(x)) => word_parses(x@, e),
        SExp::Atom(SAtom::F) => false,
        SExp::List(v) => match list_form(v@) {
            Form::Num => v@[0] matches SExp::Atom(SAtom::I(n)) && e == Expr::Num(n),
            Form::Word => word_parses(word(v@[0]).unwrap(), e),
            Form::Unary(op) => e matches Expr::UnOp(o, x) && o == op && parses_as(v@[1], *x),
            Form::Binary(op) => e matches Expr::BinOp(o, a, b) && o == op && (if swapped(op) {
                parses_as(v@[2], *a) && parses_as(v@[1], *b)
            } else {
                parses_as(v@[1], *a) && parses_as(v@[2], *b)
            }),
            Form::Let => e matches Expr::Let(bs, body) && bs@.len() == let_bindings(s).len()
                && binds_parse(s, 0, bs@) && parses_as(v@[2], *body),
            Form::If => e matches Expr::If(c, a, b) && parses_as(v@[1], *c) && parses_as(v@[2], *a)
                && parses_as(v@[3], *b),
            Form::Loop => e matches Expr::Loop(x) && parses_as(v@[1], *x),
            Form::Break => e matches Expr::Break(x) && parses_as(v@[1], *x),
            Form::Assign => e matches Expr::Assign(x, y) && Some(x@) == word(v@[1]) && parses_as(
                v@[2],
                *y,
            ),
            Form::Block => e matches Expr::Block(es) && es@.len() == v@.len() - 1 && items_parse(
                s,
                1,
                es@,
            ),
            Form::Call => e matches Expr::Call(f, es) && Some(f@) == word(v@[0]) && es@.len()
                == v@.len() - 1 && items_parse(s, 1, es@),
            Form::Cast => e matches Expr::Cast(t, x) && type_of(v@[1]) == Ok::<Type, Seq<char>>(t)
                && parses_as(v@[2], *x),
            Form::MissingBody => false,
            Form::Invalid => false,
        },
    }
}

/// Whether the bindings of a `let` list `s` from the `i`-th on read as `bs`.
pub open spec fn binds_parse(s: SExp, i: int, bs: Seq<(String, Expr)>) -> bool
    decreases s, sexp_count(s) - i,
{
    match s {
        SExp::List(v) => if v@.len() > 1 {
            match v@[1] {
                SExp::List(b) => if 0 <= i < b@.len() {
                    match b@[i] {
                        SExp::List(p) => p@.len() == 2 && word(p@[0]) == Some(bs[i].0@)
                            && parses_as(p@[1], bs[i].1) && binds_parse(s, i + 1, bs),
                        _ => false,
                    }
                } else {
                    true
                },
                _ => true,
            }
        } else {
            true
        },
        _ => true,
    }
}

/// Whether the items of a list `s` from the `i`-th on read as the
/// expressions `es`, the `i`-th as `es[i - 1]`.
pub open spec fn items_parse(s: SExp, i: int, es: Seq<Expr>) -> bool
    decreases s, sexp_count(s) - i,
{
    match s {
        SExp::List(v) => if 1 <= i < v@.len() {
            parses_as(v@[i], es[i - 1]) && items_parse(s, i + 1, es)
        } else {
            true
        },
        _ => true,
    }
}

/// The items of a list (nothing, for an atom).
pub open spec fn list_items(s: SExp) -> Seq<SExp> {
    match s {
        SExp::List(v) => v@,
        _ => Seq::empty(),
    }
}

/// What the parser of expressions gives for `s`: the expression that `s`
/// reads as, or the message of the first error.
pub open spec fn parse_outcome(s: SExp, r: Result<Expr, String>) -> bool {
    match r {
        Ok(e) => parse_error(s) is None && parses_as(s, e),
        Err(m) => parse_error(s) == Some(m@),
    }
}

proof fn lemma_items_parse(s: SExp, i: int, es: Seq<Expr>)
    requires
        s is List,
        1 <= i,
        forall|j: int| i <= j < list_items(s).len() ==> parses_as(#[trigger] list_items(s)[j], es[j - 1]),
    ensures
        items_parse(s, i, es),
    decreases list_items(s).len() - i,
{
    if i < list_items(s).len() {
        lemma_items_parse(s, i + 1, es);
    }
}

fn text(s: &str) -> (r: String)
    ensures
        r@ == s@,
{
    String::from_str(s)
}

/// Whether the list `v` starts with the symbol `w`.
fn head_is(v: &Vec<SExp>, w: &str) -> (r: bool)
    ensures
        r == (v@.len() > 0 && word(v@[0]) == Some(w@)),
{
    if v.len() == 0 {
        return false;
    }
    match &v[0] {
        SExp::Atom(SAtom::S(x)) => str_eq(x.as_str(), w),
        _ => false,
    }
}

/// The form of the list `v`.
fn form_of(v: &Vec<SExp>) -> (r: Form)
    ensures
        r == list_form(v@),
{
    let n = v.len();
    let head_word = n > 0 && matches!(v[0], SExp::Atom(SAtom::S(_)));
    let head_num = n == 1 && matches!(v[0], SExp::Atom(SAtom::I(_)));
    let second_list = n > 1 && matches!(v[1], SExp::List(_));
    let second_nonempty_list = n > 1 && match &v[1] {
        SExp::List(b) => b.len() > 0,
        _ => false,
    };
    let second_word = n > 1 && matches!(v[1], SExp::Atom(SAtom::S(_)));
    let head_valid = n > 0 && match &v[0] {
        SExp::Atom(SAtom::S(x)) => valid_id(x.as_str()),
        _ => false,
    };
    if head_num {
        Form::Num
    } else if n == 1 && head_word {
        Form::Word
    } else if n == 2 && head_is(v, "add1") {
        Form::Unary(Op1::Add1)
    } else if n == 2 && head_is(v, "sub1") {
        Form::Unary(Op1::Sub1)
    } else if n == 2 && head_is(v, "negate") {
        Form::Unary(Op1::Negate)
    } else if n == 2 && head_is(v, "isnum") {
        Form::Unary(Op1::IsNum)
    } else if n == 2 && head_is(v, "isbool") {
        Form::Unary(Op1::IsBool)
    } else if n == 2 && head_is(v, "print") {
        Form::Unary(Op1::Print)
    } else if n == 3 && head_is(v, "+") {
        Form::Binary(Op2::Plus)
    } else if n == 3 && head_is(v, "-") {
        Form::Binary(Op2::Minus)
    } else if n == 3 && head_is(v, "*") {
        Form::Binary(Op2::Times)
    } else if n == 3 && head_is(v, "<") {
        Form::Binary(Op2::Less)
    } else if n == 3 && head_is(v, ">") {
        Form::Binary(Op2::Greater)
    } else if n == 3 && head_is(v, "<=") {
        Form::Binary(Op2::LessEqual)
    } else if n == 3 && head_is(v, ">=") {
        Form::Binary(Op2::GreaterEqual)
    } else if n == 3 && head_is(v, "=") {
        Form::Binary(Op2::Equal)
    } else if n == 3 && head_is(v, "let") && second_nonempty_list {
        Form::Let
    } else if n == 4 && head_is(v, "if") {
        Form::If
    } else if n == 2 && head_is(v, "loop") {
        Form::Loop
    } else if n == 2 && head_is(v, "break") {
        Form::Break
    } else if n == 3 && head_is(v, "set!") && second_word {
        Form::Assign
    } else if n >= 2 && head_is(v, "block") {
        Form::Block
    } else if n >= 1 && head_word && head_valid {
        Form::Call
    } else if n == 3 && head_is(v, "fun") && second_list {
        Form::MissingBody
    } else if n == 3 && head_is(v, "cast") {
        Form::Cast
    } else {
        Form::Invalid
    }
}

/// A word standing alone: `true`, `false`, `input`, or a name.
fn parse_word(x: &String, prefix: &str) -> (r: Result<Expr, String>)
    ensures
        match r {
            Ok(e) => word_error(x@, prefix@) is None && word_parses(x@, e),
            Err(m) => word_error(x@, prefix@) == Some(m@),
        },
{
    if str_eq(x.as_str(), "true") {
        Ok(Expr::Bool(true))
    } else if str_eq(x.as_str(), "false") {
        Ok(Expr::Bool(false))
    } else if str_eq(x.as_str(), "input") {
        Ok(Expr::Input)
    } else if valid_id(x.as_str()) {
        Ok(Expr::Id(x.clone()))
    } else {
        let mut m = text(prefix);
        push_str(&mut m, x.as_str());
        Err(m)
    }
}

/// The type that an s-expression names.
pub fn parse_type(s: &SExp) -> (r: Result<Type, String>)
    ensures
        match r {
            Ok(t) => type_of(*s) == Ok::<Type, Seq<char>>(t),
            Err(m) => type_of(*s) == Err::<Type, Seq<char>>(m@),
        },
{
    match s {
        SExp::Atom(SAtom::S(t)) => {
            if str_eq(t.as_str(), "Num") {
                Ok(Type::Num)
            } else if str_eq(t.as_str(), "Bool") {
                Ok(Type::Bool)
            } else if str_eq(t.as_str(), "Nothing") {
                Ok(Type::Nothing)
            } else if str_eq(t.as_str(), "Any") {
                Ok(Type::Any)
            } else {
                let mut m = text("invalid type: ");
                push_str(&mut m, t.as_str());
                Err(m)
            }
        },
        _ => Err(text("invalid type")),
    }
}

/// Reads an expression from an s-expression.
pub fn parse_expr(s: &SExp) -> (r: Result<Expr, String>)
    ensures
        parse_outcome(*s, r),
    decreases s, 3nat,
{
    match s {
        SExp::Atom(SAtom::I(n)) => Ok(Expr::Num(*n)),
        SExp::Atom(SAtom::S(x)) => parse_word(x, "invalid ID: can't use reserved word(s): "),
        SExp::Atom(SAtom::F) => Err(text("invalid expression")),
        SExp::List(_) => parse_list(s),
    }
}

fn parse_list(s: &SExp) -> (r: Result<Expr, String>)
    requires
        s is List,
    ensures
        parse_outcome(*s, r),
    decreases s, 2nat,
{
    match s {
        SExp::List(v) => {
            let form = form_of(v);
            proof {
                if v@.len() > 0 {
                    assert(decreases_to!(*s => v@[0]));
                }
                if v@.len() > 1 {
                    assert(decreases_to!(*s => v@[1]));
                }
                if v@.len() > 2 {
                    assert(decreases_to!(*s => v@[2]));
                }
                if v@.len() > 3 {
                    assert(decreases_to!(*s => v@[3]));
                }
            }
            match form {
                Form::Num => match &v[0] {
                    SExp::Atom(SAtom::I(n)) => Ok(Expr::Num(*n)),
                    _ => Err(text("invalid expression")),
                },
                Form::Word => match &v[0] {
                    SExp::Atom(SAtom::S(x)) => parse_word(x, "invalid ID: an't use reserved word(s): "),
                    _ => Err(text("invalid expression")),
                },
                Form::Unary(op) => {
                    let x = match parse_expr(&v[1]) {
                        Ok(x) => x,
                        Err(m) => {
                            return Err(m);
                        },
                    };
                    Ok(Expr::UnOp(op, Box::new(x)))
                },
                Form::Binary(op) => {
                    if let Op2::Plus | Op2::Times = op {
                        let a = match parse_expr(&v[1]) {
                            Ok(x) => x,
                            Err(m) => {
                                return Err(m);
                            },
                        };
                        let b = match parse_expr(&v[2]) {
                            Ok(x) => x,
                            Err(m) => {
                                return Err(m);
                            },
                        };
                        Ok(Expr::BinOp(op, Box::new(a), Box::new(b)))
                    } else {
                        let a = match parse_expr(&v[2]) {
                            Ok(x) => x,
                            Err(m) => {
                                return Err(m);
                            },
                        };
                        let b = match parse_expr(&v[1]) {
                            Ok(x) => x,
                            Err(m) => {
                                return Err(m);
                            },
                        };
                        Ok(Expr::BinOp(op, Box::new(a), Box::new(b)))
                    }
                },
                Form::Let => parse_let(s),
                Form::If => {
                    let c = match parse_expr(&v[1]) {
                        Ok(x) => x,
                        Err(m) => {
                            return Err(m);
                        },
                    };
                    let a = match parse_expr(&v[2]) {
                        Ok(x) => x,
                        Err(m) => {
                            return Err(m);
                        },
                    };
                    let b = match parse_expr(&v[3]) {
                        Ok(x) => x,
                        Err(m) => {
                            return Err(m);
                        },
                    };
                    Ok(Expr::If(Box::new(c), Box::new(a), Box::new(b)))
                },
                Form::Loop => {
                    let x = match parse_expr(&v[1]) {
                        Ok(x) => x,
                        Err(m) => {
                            return Err(m);
                        },
                    };
                    Ok(Expr::Loop(Box::new(x)))
                },
                Form::Break => {
                    let x = match parse_expr(&v[1]) {
                        Ok(x) => x,
                        Err(m) => {
                            return Err(m);
                        },
                    };
                    Ok(Expr::Break(Box::new(x)))
                },
                Form::Assign => match &v[1] {
                    SExp::Atom(SAtom::S(id)) => {
                        let x = match parse_expr(&v[2]) {
                            Ok(x) => x,
                            Err(m) => {
                                return Err(m);
                            },
                        };
                        Ok(Expr::Assign(id.clone(), Box::new(x)))
                    },
                    _ => Err(text("invalid expression")),
                },
                Form::Block => {
                    let es = match parse_items(s) {
                        Ok(es) => es,
                        Err(m) => {
                            return Err(m);
                        },
                    };
                    Ok(Expr::Block(es))
                },
                Form::Call => match &v[0] {
                    SExp::Atom(SAtom::S(name)) => {
                        let es = match parse_items(s) {
                            Ok(es) => es,
                            Err(m) => {
                                return Err(m);
                            },
                        };
                        Ok(Expr::Call(name.clone(), es))
                    },
                    _ => Err(text("invalid expression")),
                },
                Form::MissingBody => Err(text("missing body")),
                Form::Cast => {
                    let ty = match parse_type(&v[1]) {
                        Ok(t) => t,
                        Err(m) => {
                            return Err(m);
                        },
                    };
                    let x = match parse_expr(&v[2]) {
                        Ok(x) => x,
                        Err(m) => {
                            return Err(m);
                        },
                    };
                    Ok(Expr::Cast(ty, Box::new(x)))
                },
                Form::Invalid => Err(text("invalid expression")),
            }
        },
        _ => Err(text("invalid expression")),
    }
}

/// The items of a list `s` after its head, each read as an expression.
fn parse_items(s: &SExp) -> (r: Result<Vec<Expr>, String>)
    requires
        s is List,
        list_items(*s).len() >= 1,
    ensures
        match r {
            Ok(es) => items_error(*s, 1) is None && es@.len() == list_items(*s).len() - 1
                && items_parse(*s, 1, es@),
            Err(m) => items_error(*s, 1) == Some(m@),
        },
    decreases s, 1nat,
{
    match s {
        SExp::List(v) => {
            let mut es: Vec<Expr> = Vec::new();
            if v.len() == 0 {
                return Ok(es);
            }
            let mut i: usize = 1;
            while i < v.len()
                invariant
                    1 <= i <= v@.len(),
                    *s == SExp::List(*v),
                    es@.len() == i - 1,
                    items_error(*s, 1) == items_error(*s, i as int),
                    forall|j: int| 1 <= j < i ==> parses_as(#[trigger] v@[j], es@[j - 1]),
                    forall|j: int| 1 <= j < i ==> parse_error(#[trigger] v@[j]) is None,
                decreases v@.len() - i,
            {
                proof {
                    assert(decreases_to!(*s => v@[i as int]));
                }
                let x = match parse_expr(&v[i]) {
                    Ok(x) => x,
                    Err(m) => {
                        return Err(m);
                    },
                };
                es.push(x);
                i = i + 1;
            }
            proof {
                lemma_items_parse(*s, 1, es@);
            }
            Ok(es)
        },
        _ => Ok(Vec::new()),
    }
}

/// Whether a binding s-expression `b` reads as the binding `bd`.
pub open spec fn bind_parses(b: SExp, bd: (String, Expr)) -> bool {
    b matches SExp::List(p) && p@.len() == 2 && word(p@[0]) == Some(bd.0@) && parses_as(p@[1], bd.1)
}

/// The message of the error met when reading `b` as a binding, if any.
pub open spec fn bind_error(b: SExp) -> Option<Seq<char>> {
    match b {
        SExp::List(p) => if p@.len() == 2 && word(p@[0]) is Some && spec_valid_id(
            word(p@[0]).unwrap(),
        ) {
            parse_error(p@[1])
        } else {
            Some("parse error: invalid binding"@)
        },
        _ => Some("parse error: invalid binding"@),
    }
}

proof fn lemma_binds(s: SExp, i: int, bs: Seq<(String, Expr)>)
    requires
        0 <= i,
        forall|j: int| i <= j < let_bindings(s).len() ==> bind_parses(#[trigger] let_bindings(s)[j], bs[j]),
        forall|j: int| i <= j < let_bindings(s).len() ==> bind_error(#[trigger] let_bindings(s)[j]) is None,
    ensures
        binds_parse(s, i, bs),
        binds_error(s, i) is None,
    decreases let_bindings(s).len() - i,
{
    if i < let_bindings(s).len() {
        lemma_binds(s, i + 1, bs);
    }
}

/// A binding of a `let`: a name and an expression.
fn parse_bind(b: &SExp) -> (r: Result<(String, Expr), String>)
    ensures
        match r {
            Ok(bd) => bind_error(*b) is None && bind_parses(*b, bd),
            Err(m) => bind_error(*b) == Some(m@),
        },
    decreases b, 3nat,
{
    match b {
        SExp::List(p) => {
            if p.len() == 2 {
                match &p[0] {
                    SExp::Atom(SAtom::S(id)) => {
                        if valid_id(id.as_str()) {
                            proof {
                                assert(decreases_to!(*b => p@[1]));
                            }
                            let x = match parse_expr(&p[1]) {
                                Ok(x) => x,
                                Err(m) => {
                                    return Err(m);
                                },
                            };
                            return Ok((id.clone(), x));
                        }
                    },
                    _ => {},
                }
            }
            Err(text("parse error: invalid binding"))
        },
        _ => Err(text("parse error: invalid binding")),
    }
}

/// A `let`: its bindings in order, then its body.
fn parse_let(s: &SExp) -> (r: Result<Expr, String>)
    requires
        s matches SExp::List(v) && list_form(v@) == Form::Let,
    ensures
        parse_outcome(*s, r),
    decreases s, 1nat,
{
    match s {
        SExp::List(v) => {
            match &v[1] {
                SExp::List(bindings) => {
                    let mut bs: Vec<(String, Expr)> = Vec::new();
                    let mut i: usize = 0;
                    while i < bindings.len()
                        invariant
                            0 <= i <= bindings@.len(),
                            *s == SExp::List(*v),
                            list_form(v@) == Form::Let,
                            v@.len() == 3,
                            v@[1] == SExp::List(*bindings),
                            let_bindings(*s) == bindings@,
                            bs@.len() == i,
                            binds_error(*s, 0) == binds_error(*s, i as int),
                            forall|j: int| 0 <= j < i ==> bind_parses(#[trigger] bindings@[j], bs@[j]),
                            forall|j: int| 0 <= j < i ==> bind_error(#[trigger] bindings@[j]) is None,
                        decreases bindings@.len() - i,
                    {
                        proof {
                            assert(decreases_to!(*s => bindings@[i as int]));
                        }
                        let bd = match parse_bind(&bindings[i]) {
                            Ok(bd) => bd,
                            Err(m) => {
                                assert(binds_error(*s, i as int) == Some(m@));
                                return Err(m);
                            },
                        };
                        bs.push(bd);
                        i = i + 1;
                    }
                    proof {
                        lemma_binds(*s, 0, bs@);
                        assert(decreases_to!(*s => v@[2]));
                    }
                    let body = match parse_expr(&v[2]) {
                        Ok(x) => x,
                        Err(m) => {
                            return Err(m);
                        },
                    };
                    Ok(Expr::Let(bs, Box::new(body)))
                },
                _ => Err(text("invalid expression")),
            }
        },
        _ => Err(text("invalid expression")),
    }
}

/// Whether `e` reads the program's input outside of a cast.
pub open spec fn has_input(e: Expr) -> bool
    decreases e, child_count(e) + 1,
{
    match e {
        Expr::Input => true,
        Expr::Let(_, _) => has_input_from(e, 0),
        Expr::UnOp(_, x) => has_input(*x),
        Expr::BinOp(_, a, b) => has_input(*a) || has_input(*b),
        Expr::If(c, a, b) => has_input(*c) || has_input(*a) || has_input(*b),
        Expr::Loop(x) => has_input(*x),
        Expr::Break(x) => has_input(*x),
        Expr::Assign(_, x) => has_input(*x),
        Expr::Block(_) => has_input_from(e, 0),
        Expr::Call(_, _) => has_input_from(e, 0),
        _ => false,
    }
}

/// Whether one of the listed sub-expressions of `e` from the `i`-th on
/// (or the body, for a `let`) reads the input.
pub open spec fn has_input_from(e: Expr, i: int) -> bool
    decreases e, child_count(e) - i,
{
    match e {
        Expr::Let(bs, body) => if 0 <= i < bs@.len() {
            has_input(bs@[i].1) || has_input_from(e, i + 1)
        } else {
            has_input(*body)
        },
        Expr::Block(es) => if 0 <= i < es@.len() {
            has_input(es@[i]) || has_input_from(e, i + 1)
        } else {
            false
        },
        Expr::Call(_, es) => if 0 <= i < es@.len() {
            has_input(es@[i]) || has_input_from(e, i + 1)
        } else {
            false
        },
        _ => false,
    }
}

/// Whether `e` reads the program's input (a cast hides the input read
/// inside it).
pub fn contains_input(e: &Expr) -> (r: bool)
    ensures
        r == has_input(*e),
    decreases e, 1nat,
{
    match e {
        Expr::Input => true,
        Expr::Let(_, _) => contains_input_from(e),
        Expr::UnOp(_, x) => contains_input(x),
        Expr::BinOp(_, a, b) => contains_input(a) || contains_input(b),
        Expr::If(c, a, b) => contains_input(c) || contains_input(a) || contains_input(b),
        Expr::Loop(x) => contains_input(x),
        Expr::Break(x) => contains_input(x),
        Expr::Assign(_, x) => contains_input(x),
        Expr::Block(_) => contains_input_from(e),
        Expr::Call(_, _) => contains_input_from(e),
        _ => false,
    }
}

fn contains_input_from(e: &Expr) -> (r: bool)
    ensures
        r == has_input_from(*e, 0),
    decreases e, 0nat,
{
    match e {
        Expr::Let(bs, body) => {
            let mut i: usize = 0;
            while i < bs.len()
                invariant
                    0 <= i <= bs@.len(),
                    *e == Expr::Let(*bs, *body),
                    has_input_from(*e, 0) == has_input_from(*e, i as int),
                decreases bs@.len() - i,
            {
                proof {
                    assert(decreases_to!(*e => bs@[i as int].1));
                }
                if contains_input(&bs[i].1) {
                    return true;
                }
                i = i + 1;
            }
            contains_input(body)
        },
        Expr::Block(es) => {
            let mut i: usize = 0;
            while i < es.len()
                invariant
                    0 <= i <= es@.len(),
                    *e == Expr::Block(*es),
                    has_input_from(*e, 0) == has_input_from(*e, i as int),
                decreases es@.len() - i,
            {
                proof {
                    assert(decreases_to!(*e => es@[i as int]));
                }
                if contains_input(&es[i]) {
                    return true;
                }
                i = i + 1;
            }
            false
        },
        Expr::Call(f, es) => {
            let mut i: usize = 0;
            while i < es.len()
                invariant
                    0 <= i <= es@.len(),
                    *e == Expr::Call(*f, *es),
                    has_input_from(*e, 0) == has_input_from(*e, i as int),
                decreases es@.len() - i,
            {
                proof {
                    assert(decreases_to!(*e => es@[i as int]));
                }
                if contains_input(&es[i]) {
                    return true;
                }
                i = i + 1;
            }
            false
        },
        _ => false,
    }
}

/// Whether the expression that `s` reads as reads the program's input.
pub open spec fn sexp_input(s: SExp) -> bool
    decreases s, sexp_count(s) + 2,
{
    match s {
        SExp::Atom(SAtom::S(x)) => x@ == "input"@,
        SExp::Atom(_) => false,
        SExp::List(v) => match list_form(v@) {
            Form::Word => word(v@[0]) == Some("input"@),
            Form::Unary(_) => sexp_input(v@[1]),
            Form::Loop => sexp_input(v@[1]),
            Form::Break => sexp_input(v@[1]),
            Form::Binary(_) => sexp_input(v@[1]) || sexp_input(v@[2]),
            Form::Let => binds_input(s, 0),
            Form::If => sexp_input(v@[1]) || sexp_input(v@[2]) || sexp_input(v@[3]),
            Form::Assign => sexp_input(v@[2]),
            Form::Block => items_input(s, 1),
            Form::Call => items_input(s, 1),
            _ => false,
        },
    }
}

/// Whether a binding of the `let` list `s` from the `i`-th on, or its
/// body, reads the input.
pub open spec fn binds_input(s: SExp, i: int) -> bool
    decreases s, sexp_count(s) - i,
{
    match s {
        SExp::List(v) => if v@.len() > 2 {
            match v@[1] {
                SExp::List(b) => if 0 <= i < b@.len() {
                    match b@[i] {
                        SExp::List(p) => (p@.len() == 2 && sexp_input(p@[1])) || binds_input(s, i + 1),
                        _ => binds_input(s, i + 1),
                    }
                } else {
                    sexp_input(v@[2])
                },
                _ => false,
            }
        } else {
            false
        },
        _ => false,
    }
}

/// Whether an item of the list `s` from the `i`-th on reads the input.
pub open spec fn items_input(s: SExp, i: int) -> bool
    decreases s, sexp_count(s) - i,
{
    match s {
        SExp::List(v) => if 1 <= i < v@.len() {
            sexp_input(v@[i]) || items_input(s, i + 1)
        } else {
            false
        },
        _ => false,
    }
}

/// An expression that an s-expression reads as reads the input exactly
/// when the s-expression mentions it where the parser keeps it.
proof fn lemma_parses_input(s: SExp, e: Expr)
    requires
        parses_as(s, e),
    ensures
        has_input(e) == sexp_input(s),
    decreases s, sexp_count(s) + 2,
{
    reveal_strlit("true");
    reveal_strlit("false");
    reveal_strlit("input");
    assert("true"@ != "input"@) by {
        assert("true"@[0] != "input"@[0]);
    }
    assert("false"@ != "input"@) by {
        assert("false"@[0] != "input"@[0]);
    }
    match s {
        SExp::List(v) => match list_form(v@) {
            Form::Unary(_) => {
                if let Expr::UnOp(_, x) = e {
                    lemma_parses_input(v@[1], *x);
                }
            },
            Form::Loop => {
                if let Expr::Loop(x) = e {
                    lemma_parses_input(v@[1], *x);
                }
            },
            Form::Break => {
                if let Expr::Break(x) = e {
                    lemma_parses_input(v@[1], *x);
                }
            },
            Form::Binary(op) => {
                if let Expr::BinOp(_, a, b) = e {
                    if swapped(op) {
                        lemma_parses_input(v@[2], *a);
                        lemma_parses_input(v@[1], *b);
                    } else {
                        lemma_parses_input(v@[1], *a);
                        lemma_parses_input(v@[2], *b);
                    }
                }
            },
            Form::If => {
                if let Expr::If(c, a, b) = e {
                    lemma_parses_input(v@[1], *c);
                    lemma_parses_input(v@[2], *a);
                    lemma_parses_input(v@[3], *b);
                }
            },
            Form::Assign => {
                if let Expr::Assign(_, x) = e {
                    lemma_parses_input(v@[2], *x);
                }
            },
            Form::Let => {
                lemma_binds_input(s, 0, e);
            },
            Form::Block => {
                lemma_items_input(s, 1, e);
            },
            Form::Call => {
                lemma_items_input(s, 1, e);
            },
            _ => {},
        },
        _ => {},
    }
}

proof fn lemma_binds_input(s: SExp, i: int, e: Expr)
    requires
        0 <= i,
        e matches Expr::Let(bs, body) && bs@.len() == let_bindings(s).len() && binds_parse(s, i, bs@)
            && parses_as(list_items(s)[2], *body),
        s matches SExp::List(v) && list_form(v@) == Form::Let,
    ensures
        has_input_from(e, i) == binds_input(s, i),
    decreases s, sexp_count(s) - i,
{
    match s {
        SExp::List(v) => match v@[1] {
            SExp::List(b) => {
                if let Expr::Let(bs, body) = e {
                    if i < b@.len() {
                        if let SExp::List(p) = b@[i] {
                            lemma_parses_input(p@[1], bs@[i].1);
                        }
                        lemma_binds_input(s, i + 1, e);
                    } else {
                        lemma_parses_input(v@[2], *body);
                    }
                }
            },
            _ => {},
        },
        _ => {},
    }
}

proof fn lemma_items_input(s: SExp, i: int, e: Expr)
    requires
        1 <= i,
        (e matches Expr::Block(es) && es@.len() == list_items(s).len() - 1 && items_parse(s, i, es@))
            || (e matches Expr::Call(_, es) && es@.len() == list_items(s).len() - 1 && items_parse(
            s,
            i,
            es@,
        )),
        s is List,
    ensures
        has_input_from(e, i - 1) == items_input(s, i),
    decreases s, sexp_count(s) - i,
{
    match s {
        SExp::List(v) => {
            if i < v@.len() {
                match e {
                    Expr::Block(es) => lemma_parses_input(v@[i], es@[i - 1]),
                    Expr::Call(_, es) => lemma_parses_input(v@[i], es@[i - 1]),
                    _ => {},
                }
                lemma_items_input(s, i + 1, e);
            }
        },
        _ => {},
    }
}

/// The first error in the plain parameters `sig[j..]` of a signature.
pub open spec fn params_error(sig: Seq<SExp>, j: int) -> Option<Seq<char>>
    decreases sig.len() - j,
{
    if j < 1 || j >= sig.len() {
        None
    } else {
        match word(sig[j]) {
            None => Some("invalid function argument"@),
            Some(a) => if !spec_valid_id(a) {
                Some("invalid function parameter"@)
            } else if exists|k: int| 1 <= k < j && #[trigger] word(sig[k]) == Some(a) {
                Some("duplicate function parameter"@)
            } else {
                params_error(sig, j + 1)
            },
        }
    }
}

/// The first error in a signature `(name param ...)`.
pub open spec fn signature_error(sig: Seq<SExp>) -> Option<Seq<char>> {
    if sig.len() == 0 || word(sig[0]) is None {
        Some("invalid function signature"@)
    } else if !spec_valid_id(word(sig[0]).unwrap()) {
        Some("invalid function name"@)
    } else {
        params_error(sig, 1)
    }
}

/// The name of an annotated parameter `(name : type)`.
pub open spec fn ann_name(s: SExp) -> Option<Seq<char>> {
    match s {
        SExp::List(p) => if p@.len() == 3 && word(p@[0]) is Some && word(p@[1]) == Some(":"@) {
            word(p@[0])
        } else {
            None
        },
        _ => None,
    }
}

/// The type of an annotated parameter `(name : type)`.
pub open spec fn ann_type(s: SExp) -> Result<Type, Seq<char>> {
    match s {
        SExp::List(p) => if p@.len() == 3 {
            type_of(p@[2])
        } else {
            Err(Seq::empty())
        },
        _ => Err(Seq::empty()),
    }
}

/// The first error in the annotated parameters `sig[j..]` of a signature.
pub open spec fn ann_params_error(sig: Seq<SExp>, j: int) -> Option<Seq<char>>
    decreases sig.len() - j,
{
    if j < 1 || j >= sig.len() {
        None
    } else {
        match sig[j] {
            SExp::List(_) => match ann_name(sig[j]) {
                None => Some("invalid function argument annotation"@),
                Some(a) => if !spec_valid_id(a) {
                    Some("invalid function parameter"@)
                } else if exists|k: int| 1 <= k < j && #[trigger] ann_name(sig[k]) == Some(a) {
                    Some("duplicate function parameter"@)
                } else {
                    match ann_type(sig[j]) {
                        Err(m) => Some(m),
                        Ok(_) => ann_params_error(sig, j + 1),
                    }
                },
            },
            _ => Some("invalid function argument"@),
        }
    }
}

/// The first error in an annotated signature `(name (param : type) ...)`.
pub open spec fn ann_signature_error(sig: Seq<SExp>) -> Option<Seq<char>> {
    if sig.len() == 0 || word(sig[0]) is None {
        Some("invalid function signature"@)
    } else if !spec_valid_id(word(sig[0]).unwrap()) {
        Some("invalid function name"@)
    } else {
        ann_params_error(sig, 1)
    }
}

/// Reads a signature `(name param ...)`.
fn parse_signature(signature: &Vec<SExp>) -> (r: Result<(String, Vec<String>), String>)
    ensures
        match r {
            Ok((name, args)) => signature_error(signature@) is None && Some(name@) == word(
                signature@[0],
            ) && args@.len() == signature@.len() - 1 && forall|k: int|
                0 <= k < args@.len() ==> Some((#[trigger] args@[k])@) == word(signature@[k + 1]),
            Err(m) => signature_error(signature@) == Some(m@),
        },
{
    if signature.len() == 0 {
        return Err(text("invalid function signature"));
    }
    let fun_name = match &signature[0] {
        SExp::Atom(SAtom::S(f)) => f,
        _ => {
            return Err(text("invalid function signature"));
        },
    };
    if !valid_id(fun_name.as_str()) {
        return Err(text("invalid function name"));
    }
    let mut fun_args: Vec<String> = Vec::new();
    let mut j: usize = 1;
    while j < signature.len()
        invariant
            1 <= j <= signature@.len(),
            signature@.len() > 0,
            word(signature@[0]) == Some(fun_name@),
            spec_valid_id(fun_name@),
            fun_args@.len() == j - 1,
            params_error(signature@, 1) == params_error(signature@, j as int),
            forall|k: int| 0 <= k < fun_args@.len() ==> Some((#[trigger] fun_args@[k])@) == word(signature@[k + 1]),
        decreases signature@.len() - j,
    {
        match &signature[j] {
            SExp::Atom(SAtom::S(a)) => {
                if !valid_id(a.as_str()) {
                    return Err(text("invalid function parameter"));
                }
                if contains_str(&fun_args, a.as_str()) {
                    proof {
                        let k = choose|k: int| 0 <= k < fun_args@.len() && (#[trigger] fun_args@[k])@ == a@;
                        assert(word(signature@[k + 1]) == Some(a@));
                    }
                    return Err(text("duplicate function parameter"));
                }
                proof {
                    assert forall|k: int| 1 <= k < j implies #[trigger] word(signature@[k]) != Some(a@) by {
                        assert(Some(fun_args@[k - 1]@) == word(signature@[k]));
                    }
                }
                fun_args.push(a.clone());
            },
            _ => {
                return Err(text("invalid function argument"));
            },
        }
        j = j + 1;
    }
    Ok((fun_name.clone(), fun_args))
}

/// Reads an annotated signature `(name (param : type) ...)`.
fn parse_annotated_signature(signature: &Vec<SExp>) -> (r: Result<(String, Vec<String>, Vec<Type>), String>)
    ensures
        match r {
            Ok((name, args, types)) => ann_signature_error(signature@) is None && Some(name@) == word(
                signature@[0],
            ) && args@.len() == signature@.len() - 1 && types@.len() == args@.len() && forall|k: int|
                0 <= k < args@.len() ==> Some((#[trigger] args@[k])@) == ann_name(signature@[k + 1])
                    && ann_type(signature@[k + 1]) == Ok::<Type, Seq<char>>(types@[k]),
            Err(m) => ann_signature_error(signature@) == Some(m@),
        },
{
    if signature.len() == 0 {
        return Err(text("invalid function signature"));
    }
    let fun_name = match &signature[0] {
        SExp::Atom(SAtom::S(f)) => f,
        _ => {
            return Err(text("invalid function signature"));
        },
    };
    if !valid_id(fun_name.as_str()) {
        return Err(text("invalid function name"));
    }
    let mut fun_args: Vec<String> = Vec::new();
    let mut fun_arg_types: Vec<Type> = Vec::new();
    let mut j: usize = 1;
    while j < signature.len()
        invariant
            1 <= j <= signature@.len(),
            signature@.len() > 0,
            word(signature@[0]) == Some(fun_name@),
            spec_valid_id(fun_name@),
            fun_args@.len() == j - 1,
            fun_arg_types@.len() == j - 1,
            ann_params_error(signature@, 1) == ann_params_error(signature@, j as int),
            forall|k: int| 0 <= k < fun_args@.len() ==> Some((#[trigger] fun_args@[k])@) == ann_name(signature@[k + 1])
                && ann_type(signature@[k + 1]) == Ok::<Type, Seq<char>>(fun_arg_types@[k]),
        decreases signature@.len() - j,
    {
        match &signature[j] {
            SExp::List(parts) => {
                if parts.len() != 3 {
                    return Err(text("invalid function argument annotation"));
                }
                let name = match &parts[0] {
                    SExp::Atom(SAtom::S(n)) => n,
                    _ => {
                        return Err(text("invalid function argument annotation"));
                    },
                };
                let is_colon = match &parts[1] {
                    SExp::Atom(SAtom::S(c)) => str_eq(c.as_str(), ":"),
                    _ => false,
                };
                if !is_colon {
                    return Err(text("invalid function argument annotation"));
                }
                if !valid_id(name.as_str()) {
                    return Err(text("invalid function parameter"));
                }
                if contains_str(&fun_args, name.as_str()) {
                    proof {
                        let k = choose|k: int| 0 <= k < fun_args@.len() && (#[trigger] fun_args@[k])@ == name@;
                        assert(ann_name(signature@[k + 1]) == Some(name@));
                    }
                    return Err(text("duplicate function parameter"));
                }
                proof {
                    assert forall|k: int| 1 <= k < j implies #[trigger] ann_name(signature@[k]) != Some(name@) by {
                        assert(Some(fun_args@[k - 1]@) == ann_name(signature@[k]));
                    }
                }
                let ty = match parse_type(&parts[2]) {
                    Ok(t) => t,
                    Err(m) => {
                        return Err(m);
                    },
                };
                fun_args.push(name.clone());
                fun_arg_types.push(ty);
            },
            _ => {
                return Err(text("invalid function argument"));
            },
        }
        j = j + 1;
    }
    Ok((fun_name.clone(), fun_args, fun_arg_types))
}

/// Whether a list `v` has the shape of an annotated definition
/// `(fun (name (param : type) ...) -> type body)`.
pub open spec fn is_annotated_def(v: Seq<SExp>) -> bool {
    v.len() == 5 && word(v[0]) == Some("fun"@) && v[1] is List && word(v[2]) == Some("->"@)
}

/// Whether a list `v` has the shape of a plain definition
/// `(fun (name param ...) body)`.
pub open spec fn is_plain_def(v: Seq<SExp>) -> bool {
    v.len() == 3 && word(v[0]) == Some("fun"@) && v[1] is List
}

/// The error of a type, if it names none.
pub open spec fn type_error(s: SExp) -> Option<Seq<char>> {
    match type_of(s) {
        Err(m) => Some(m),
        Ok(_) => None,
    }
}

/// The error for a function body that reads the input.
pub open spec fn input_error(body: SExp) -> Option<Seq<char>> {
    if sexp_input(body) {
        Some("cannot use input in function body"@)
    } else {
        None
    }
}

/// The message of the first error met when reading `s` as a function
/// definition, or `None` when it reads as one.
pub open spec fn def_error(s: SExp) -> Option<Seq<char>> {
    match s {
        SExp::List(v) => if is_annotated_def(v@) {
            first_error(
                ann_signature_error(list_items(v@[1])),
                first_error(
                    type_error(v@[3]),
                    first_error(parse_error(v@[4]), input_error(v@[4])),
                ),
            )
        } else if is_plain_def(v@) {
            first_error(
                signature_error(list_items(v@[1])),
                first_error(parse_error(v@[2]), input_error(v@[2])),
            )
        } else {
            Some("expected function: (fun (name params..) body)"@)
        },
        _ => Some("invalid function definition"@),
    }
}

/// Whether `d` is the definition that `s` reads as (names compared by
/// their characters), given that `s` reads without error.
pub open spec fn def_parses(s: SExp, d: FunDef) -> bool {
    match s {
        SExp::List(v) => {
            let sig = list_items(v@[1]);
            if is_annotated_def(v@) {
                &&& Some(d.name@) == word(sig[0])
                &&& d.args@.len() == sig.len() - 1
                &&& d.arg_types@.len() == d.args@.len()
                &&& forall|k: int|
                    0 <= k < d.args@.len() ==> Some((#[trigger] d.args@[k])@) == ann_name(sig[k + 1])
                        && ann_type(sig[k + 1]) == Ok::<Type, Seq<char>>(d.arg_types@[k])
                &&& d.ret_type matches Some(t) && type_of(v@[3]) == Ok::<Type, Seq<char>>(t)
                &&& parses_as(v@[4], *d.body)
            } else if is_plain_def(v@) {
                &&& Some(d.name@) == word(sig[0])
                &&& d.args@.len() == sig.len() - 1
                &&& forall|k: int|
                    0 <= k < d.args@.len() ==> Some((#[trigger] d.args@[k])@) == word(sig[k + 1])
                &&& d.arg_types@.len() == 0
                &&& d.ret_type is None
                &&& parses_as(v@[2], *d.body)
            } else {
                false
            }
        },
        _ => false,
    }
}

/// What the parser of definitions gives for `s`.
pub open spec fn def_outcome(s: SExp, r: Result<FunDef, String>) -> bool {
    match r {
        Ok(d) => def_error(s) is None && def_parses(s, d),
        Err(m) => def_error(s) == Some(m@),
    }
}

/// The body of a definition list, read as an expression; it must not read
/// the input.
fn parse_body(body: &SExp) -> (r: Result<Box<Expr>, String>)
    ensures
        match r {
            Ok(e) => parse_error(*body) is None && input_error(*body) is None && parses_as(*body, *e),
            Err(m) => first_error(parse_error(*body), input_error(*body)) == Some(m@),
        },
{
    let fun_body = match parse_expr(body) {
        Ok(e) => Box::new(e),
        Err(m) => {
            return Err(m);
        },
    };
    proof {
        lemma_parses_input(*body, *fun_body);
    }
    if contains_input(&fun_body) {
        return Err(text("cannot use input in function body"));
    }
    Ok(fun_body)
}

/// Reads an annotated definition `(fun (name (param : type) ...) -> type body)`.
fn parse_annotated_def(v: &Vec<SExp>) -> (r: Result<FunDef, String>)
    requires
        is_annotated_def(v@),
    ensures
        def_outcome(SExp::List(*v), r),
{
    let sign = match &v[1] {
        SExp::List(sign) => sign,
        _ => {
            return Err(text("invalid function definition"));
        },
    };
    let (fun_name, fun_args, fun_arg_types) = match parse_annotated_signature(sign) {
        Ok(t) => t,
        Err(m) => {
            return Err(m);
        },
    };
    let ret_type = match parse_type(&v[3]) {
        Ok(t) => t,
        Err(m) => {
            return Err(m);
        },
    };
    let fun_body = match parse_body(&v[4]) {
        Ok(b) => b,
        Err(m) => {
            return Err(m);
        },
    };
    Ok(FunDef {
        name: fun_name,
        args: fun_args,
        arg_types: fun_arg_types,
        ret_type: Some(ret_type),
        body: fun_body,
    })
}

/// Reads a plain definition `(fun (name param ...) body)`.
fn parse_plain_def(v: &Vec<SExp>) -> (r: Result<FunDef, String>)
    requires
        is_plain_def(v@),
    ensures
        def_outcome(SExp::List(*v), r),
{
    let sign = match &v[1] {
        SExp::List(sign) => sign,
        _ => {
            return Err(text("invalid function definition"));
        },
    };
    let (fun_name, fun_args) = match parse_signature(sign) {
        Ok(t) => t,
        Err(m) => {
            return Err(m);
        },
    };
    let fun_body = match parse_body(&v[2]) {
        Ok(b) => b,
        Err(m) => {
            return Err(m);
        },
    };
    let d = FunDef {
        name: fun_name,
        args: fun_args,
        arg_types: Vec::new(),
        ret_type: None,
        body: fun_body,
    };
    assert(d.arg_types@.len() == 0);
    Ok(d)
}

/// Whether the list `v` starts with the symbol `w` and has `n` items.
fn shape_is(v: &Vec<SExp>, w: &str, n: usize) -> (r: bool)
    ensures
        r == (v@.len() == n && n > 0 && word(v@[0]) == Some(w@)),
{
    v.len() == n && head_is(v, w)
}

/// Reads a function definition.
fn parse_def(def: &SExp) -> (r: Result<FunDef, String>)
    ensures
        def_outcome(*def, r),
{
    match def {
        SExp::List(list) => {
            let second_list = list.len() > 1 && matches!(list[1], SExp::List(_));
            let arrow = list.len() > 2 && match &list[2] {
                SExp::Atom(SAtom::S(a)) => str_eq(a.as_str(), "->"),
                _ => false,
            };
            if shape_is(list, "fun", 5) && second_list && arrow {
                parse_annotated_def(list)
            } else if shape_is(list, "fun", 3) && second_list {
                parse_plain_def(list)
            } else {
                Err(text("expected function: (fun (name params..) body)"))
            }
        },
        _ => Err(text("invalid function definition")),
    }
}

/// The name that a definition list defines.
pub open spec fn def_name(s: SExp) -> Option<Seq<char>> {
    let sig = list_items(list_items(s)[1]);
    if sig.len() > 0 {
        word(sig[0])
    } else {
        None
    }
}

/// The first error among the definitions `v[i..]` of a program list `v`
/// (all items but the last): an error in a definition, or a name defined
/// twice.
pub open spec fn defs_error(v: Seq<SExp>, i: int) -> Option<Seq<char>>
    decreases v.len() - i,
{
    if 0 <= i < v.len() - 1 {
        match def_error(v[i]) {
            Some(m) => Some(m),
            None => if exists|k: int| 0 <= k < i && #[trigger] def_name(v[k]) == def_name(v[i]) {
                Some("duplicate function name"@)
            } else {
                defs_error(v, i + 1)
            },
        }
    } else {
        None
    }
}

/// The message of the first error met when reading `s` as a program.
pub open spec fn program_error(s: SExp) -> Option<Seq<char>> {
    match s {
        SExp::List(v) => if v@.len() == 0 {
            Some("missing program"@)
        } else if v@.len() == 1 {
            parse_error(v@[0])
        } else {
            first_error(defs_error(v@, 0), parse_error(v@.last()))
        },
        _ => Some("invalid program"@),
    }
}

/// Whether `p` is the program that `s` reads as: a definition for each
/// item but the last, and the last as the main expression.
pub open spec fn program_parses(s: SExp, p: Program) -> bool {
    match s {
        SExp::List(v) => v@.len() >= 1 && p.defs@.len() == v@.len() - 1 && (forall|k: int|
            0 <= k < p.defs@.len() ==> def_parses(v@[k], #[trigger] p.defs@[k])) && parses_as(
            v@.last(),
            *p.main,
        ),
        _ => false,
    }
}

/// A definition that reads as `d` defines the name of `d`.
proof fn lemma_def_name(s: SExp, d: FunDef)
    requires
        def_parses(s, d),
    ensures
        def_name(s) == Some(d.name@),
{
}

/// Where the definitions of a program list have no error from the `i`-th
/// on, each later one reads without error and defines a name that no
/// earlier one defines.
proof fn lemma_defs_error_none(v: Seq<SExp>, i: int, j: int)
    requires
        0 <= i <= j < v.len() - 1,
        defs_error(v, i) is None,
    ensures
        def_error(v[j]) is None,
        forall|k: int| 0 <= k < j ==> #[trigger] def_name(v[k]) != def_name(v[j]),
    decreases j - i,
{
    if i < j {
        lemma_defs_error_none(v, i + 1, j);
    }
}

/// The functions of a program that reads without error have distinct
/// names.
pub proof fn lemma_program_names_distinct(s: SExp, p: Program)
    requires
        program_error(s) is None,
        program_parses(s, p),
    ensures
        forall|i: int, j: int|
            0 <= i < j < p.defs@.len() ==> (#[trigger] p.defs@[i]).name@ != (#[trigger] p.defs@[j]).name@,
{
    if let SExp::List(v) = s {
        assert forall|i: int, j: int| 0 <= i < j < p.defs@.len() implies (#[trigger] p.defs@[i]).name@
            != (#[trigger] p.defs@[j]).name@ by {
            assert(v@.len() > 1);
            assert(defs_error(v@, 0) is None);
            lemma_defs_error_none(v@, 0, j);
            assert(def_parses(v@[i], p.defs@[i]));
            assert(def_parses(v@[j], p.defs@[j]));
            lemma_def_name(v@[i], p.defs@[i]);
            lemma_def_name(v@[j], p.defs@[j]);
            assert(def_name(v@[i]) != def_name(v@[j]));
        }
    }
}

/// Reads a program: function definitions, then the main expression.
pub fn parse_program(s: &SExp) -> (r: Result<Program, String>)
    ensures
        match r {
            Ok(p) => program_error(*s) is None && program_parses(*s, p),
            Err(m) => program_error(*s) == Some(m@),
        },
{
    match s {
        SExp::List(vec) => {
            if vec.len() == 0 {
                return Err(text("missing program"));
            }
            let n = vec.len() - 1;
            let mut seen_names: Vec<String> = Vec::new();
            let mut fundefs: Vec<FunDef> = Vec::new();
            let mut i: usize = 0;
            while i < n
                invariant
                    0 <= i <= n,
                    n == vec@.len() - 1,
                    *s == SExp::List(*vec),
                    fundefs@.len() == i,
                    seen_names@.len() == i,
                    defs_error(vec@, 0) == defs_error(vec@, i as int),
                    forall|k: int| 0 <= k < i ==> def_parses(vec@[k], #[trigger] fundefs@[k]),
                    forall|k: int| 0 <= k < i ==> Some((#[trigger] seen_names@[k])@) == def_name(vec@[k]),
                decreases n - i,
            {
                let fundef = match parse_def(&vec[i]) {
                    Ok(d) => d,
                    Err(m) => {
                        assert(defs_error(vec@, i as int) == Some(m@));
                        return Err(m);
                    },
                };
                proof {
                    lemma_def_name(vec@[i as int], fundef);
                }
                if contains_str(&seen_names, fundef.name.as_str()) {
                    proof {
                        let k = choose|k: int| 0 <= k < seen_names@.len() && (#[trigger] seen_names@[k])@ == fundef.name@;
                        assert(def_name(vec@[k]) == def_name(vec@[i as int]));
                        assert(defs_error(vec@, i as int) == Some("duplicate function name"@));
                    }
                    return Err(text("duplicate function name"));
                }
                proof {
                    assert forall|k: int| 0 <= k < i implies #[trigger] def_name(vec@[k]) != def_name(vec@[i as int]) by {
                        assert(Some(seen_names@[k]@) == def_name(vec@[k]));
                    }
                }
                seen_names.push(fundef.name.clone());
                fundefs.push(fundef);
                i = i + 1;
            }
            let main = match parse_expr(&vec[n]) {
                Ok(e) => e,
                Err(m) => {
                    return Err(m);
                },
            };
            Ok(Program { defs: fundefs, main: Box::new(main) })
        },
        _ => Err(text("invalid program")),
    }
}


/// Whether a list `v` has the shape of a global definition
/// `(define name expr)`.
pub open spec fn is_define(v: Seq<SExp>) -> bool {
    v.len() == 3 && word(v[0]) == Some("define"@) && word(v[1]) is Some
}

/// Whether the prompt reads the list `v` as a function definition.
pub open spec fn is_fun_entry(v: Seq<SExp>) -> bool {
    is_plain_def(v) || is_annotated_def(v)
}

/// The message of the first error met when reading `s` at the prompt.
pub open spec fn repl_error(s: SExp) -> Option<Seq<char>> {
    match s {
        SExp::List(v) => if is_define(v@) {
            first_error(
                parse_error(v@[2]),
                if spec_valid_id(word(v@[1])->0) {
                    None
                } else {
                    Some("invalid ID: can't use reserved words"@)
                },
            )
        } else if is_fun_entry(v@) {
            def_error(s)
        } else {
            parse_error(s)
        },
        _ => parse_error(s),
    }
}

/// Whether `r` is the entry that `s` reads as at the prompt.
pub open spec fn repl_parses(s: SExp, r: ReplEntry) -> bool {
    let v = list_items(s);
    let def_shaped = s is List && is_define(v);
    let fun_shaped = s is List && is_fun_entry(v);
    match r {
        ReplEntry::Define(id, e) => def_shaped && Some(id@) == word(v[1]) && parses_as(v[2], *e),
        ReplEntry::FunDef(d) => fun_shaped && def_parses(s, d),
        ReplEntry::Expr(e) => !def_shaped && !fun_shaped && parses_as(s, *e),
    }
}

/// Reads the whole of `s` as an expression entry.
fn parse_expr_entry(s: &SExp) -> (r: Result<ReplEntry, String>)
    ensures
        match r {
            Ok(ReplEntry::Expr(e)) => parse_error(*s) is None && parses_as(*s, *e),
            Ok(_) => false,
            Err(m) => parse_error(*s) == Some(m@),
        },
{
    match parse_expr(s) {
        Ok(e) => Ok(ReplEntry::Expr(Box::new(e))),
        Err(m) => Err(m),
    }
}

/// Reads one entry typed at the interactive prompt: a global definition
/// `(define name expr)`, a function definition, or an expression.
pub fn parse_repl_entry(s: &SExp) -> (r: Result<ReplEntry, String>)
    ensures
        match r {
            Ok(entry) => repl_error(*s) is None && repl_parses(*s, entry),
            Err(m) => repl_error(*s) == Some(m@),
        },
{
    match s {
        SExp::List(vec) => {
            if vec.len() == 3 && head_is(vec, "define") {
                if let SExp::Atom(SAtom::S(id)) = &vec[1] {
                    let parsed = match parse_expr(&vec[2]) {
                        Ok(e) => e,
                        Err(m) => {
                            return Err(m);
                        },
                    };
                    if valid_id(id.as_str()) {
                        return Ok(ReplEntry::Define(id.clone(), Box::new(parsed)));
                    } else {
                        return Err(text("invalid ID: can't use reserved words"));
                    }
                }
            }
            let second_list = vec.len() > 1 && matches!(vec[1], SExp::List(_));
            let arrow = vec.len() > 2 && match &vec[2] {
                SExp::Atom(SAtom::S(a)) => str_eq(a.as_str(), "->"),
                _ => false,
            };
            if shape_is(vec, "fun", 3) && second_list {
                match parse_plain_def(vec) {
                    Ok(d) => Ok(ReplEntry::FunDef(d)),
                    Err(m) => Err(m),
                }
            } else if shape_is(vec, "fun", 5) && second_list && arrow {
                match parse_annotated_def(vec) {
                    Ok(d) => Ok(ReplEntry::FunDef(d)),
                    Err(m) => Err(m),
                }
            } else {
                parse_expr_entry(s)
            }
        },
        _ => parse_expr_entry(s),
    }
}

} // verus!
