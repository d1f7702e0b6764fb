//! The labels that generated code defines: each is a prefix, an underscore
//! and a number of the label counter, and no label is defined twice.
use vstd::prelude::*;
use vstd::string::*;
use crate::ast::{Expr, FunDef, Program, Op2, Type, child_count, op2_text};
use crate::codegen::compile::{
    label_text, check_code, Check, compare_prefix, cast_code, compare_code, Code, comp, comp_let,
    comp_block, comp_args, comp_call, comp_binop, binop_code, if_code, unop_code, callee, rax, slot,
    shift_si, comp_fundef, comp_defs, comp_program, fun_table, param_ctx,
};
use crate::codegen::context::CtxView;
use crate::codegen::instruction::{ValView, Reg};
use crate::codegen::instruction::InstrView;
use crate::numparse::{is_digit, lemma_nat_text_digits};
use crate::text::{int_text, nat_text};

verus! {

/// A prefix of counter labels: never empty, and never starting with the
/// `f` of function labels.
pub open spec fn counter_prefix(p: Seq<char>) -> bool {
    p.len() > 0 && p[0] != 'f'
}

/// The numbers from `lo` up to, but not including, `hi`.
pub open spec fn range(lo: int, hi: int) -> Set<int> {
    Set::new(|k: int| lo <= k < hi)
}

/// Whether `l` is a counter label whose number lies in `s`.
pub open spec fn numbered_in(l: Seq<char>, s: Set<int>) -> bool {
    exists|p: Seq<char>, k: int| counter_prefix(p) && k >= 0 && s.contains(k) && l == #[trigger] label_text(p, k)
}

/// Whether every label that `is` defines is a counter label numbered in `s`.
pub open spec fn labels_in(is: Seq<InstrView>, s: Set<int>) -> bool {
    forall|i: int| 0 <= i < is.len() && (#[trigger] is[i]) is Label ==> numbered_in(is[i]->Label_0, s)
}

/// Whether no label is defined twice in `is`.
pub open spec fn labels_distinct(is: Seq<InstrView>) -> bool {
    forall|i: int, j: int|
        0 <= i < j < is.len() && (#[trigger] is[i]) is Label && (#[trigger] is[j]) is Label ==> is[i]->Label_0
            != is[j]->Label_0
}

/// Two counter labels with the same text have the same number: the number
/// is what follows the last underscore.
pub proof fn lemma_label_number_unique(p1: Seq<char>, k1: int, p2: Seq<char>, k2: int)
    requires
        k1 >= 0,
        k2 >= 0,
        label_text(p1, k1) == label_text(p2, k2),
    ensures
        k1 == k2,
{
    reveal_strlit("_");
    let d1 = nat_text(k1 as nat);
    let d2 = nat_text(k2 as nat);
    lemma_nat_text_digits(k1 as nat);
    lemma_nat_text_digits(k2 as nat);
    assert(int_text(k1) == d1);
    assert(int_text(k2) == d2);
    let s1 = p1 + "_"@ + d1;
    let s2 = p2 + "_"@ + d2;
    assert(s1 == s2);
    let len = s1.len();
    assert forall|t: int| 0 <= t < d1.len() implies s1[len - d1.len() + t] == d1[t] by {}
    assert forall|t: int| 0 <= t < d2.len() implies s2[len - d2.len() + t] == d2[t] by {}
    assert(s1[len - d1.len() - 1] == '_');
    assert(s2[len - d2.len() - 1] == '_');
    if d1.len() < d2.len() {
        let q = len - d1.len() - 1;
        let t = q - (len - d2.len());
        assert(s2[len - d2.len() + t] == d2[t]);
        assert(is_digit(d2[t]));
        assert(false);
    } else if d2.len() < d1.len() {
        let q = len - d2.len() - 1;
        let t = q - (len - d1.len());
        assert(s1[len - d1.len() + t] == d1[t]);
        assert(is_digit(d1[t]));
        assert(false);
    }
    assert(d1 =~= d2);
}

/// Code that defines no label.
pub proof fn lemma_no_labels(is: Seq<InstrView>, s: Set<int>)
    requires
        forall|i: int| 0 <= i < is.len() ==> !(#[trigger] is[i] is Label),
    ensures
        labels_in(is, s),
        labels_distinct(is),
{
}

/// A single counter label.
pub proof fn lemma_one_label(p: Seq<char>, k: int, s: Set<int>)
    requires
        counter_prefix(p),
        k >= 0,
        s.contains(k),
    ensures
        labels_in(seq![InstrView::Label(label_text(p, k))], s),
        labels_distinct(seq![InstrView::Label(label_text(p, k))]),
{
    let is = seq![InstrView::Label(label_text(p, k))];
    assert forall|i: int| 0 <= i < is.len() && (#[trigger] is[i]) is Label implies numbered_in(is[i]->Label_0, s) by {
        assert(is[i] == InstrView::Label(label_text(p, k)));
    }
}

/// Labels numbered in a set are numbered in every larger set.
pub proof fn lemma_labels_widen(is: Seq<InstrView>, s1: Set<int>, s2: Set<int>)
    requires
        labels_in(is, s1),
        s1.subset_of(s2),
    ensures
        labels_in(is, s2),
{
    assert forall|i: int| 0 <= i < is.len() && (#[trigger] is[i]) is Label implies numbered_in(is[i]->Label_0, s2) by {
        let (p, k) = choose|p: Seq<char>, k: int|
            counter_prefix(p) && k >= 0 && s1.contains(k) && is[i]->Label_0 == #[trigger] label_text(p, k);
        assert(s2.contains(k));
    }
}

/// Code with labels numbered in two disjoint sets, one after the other,
/// still defines each label once.
pub proof fn lemma_labels_append(a: Seq<InstrView>, sa: Set<int>, b: Seq<InstrView>, sb: Set<int>)
    requires
        labels_in(a, sa),
        labels_distinct(a),
        labels_in(b, sb),
        labels_distinct(b),
        sa.disjoint(sb),
    ensures
        labels_in(a + b, sa.union(sb)),
        labels_distinct(a + b),
{
    let ab = a + b;
    assert forall|i: int| 0 <= i < ab.len() && (#[trigger] ab[i]) is Label implies numbered_in(
        ab[i]->Label_0,
        sa.union(sb),
    ) by {
        if i < a.len() {
            assert(ab[i] == a[i]);
            let (p, k) = choose|p: Seq<char>, k: int|
                counter_prefix(p) && k >= 0 && sa.contains(k) && a[i]->Label_0 == #[trigger] label_text(p, k);
            assert(sa.union(sb).contains(k));
        } else {
            assert(ab[i] == b[i - a.len()]);
            let (p, k) = choose|p: Seq<char>, k: int|
                counter_prefix(p) && k >= 0 && sb.contains(k) && b[i - a.len()]->Label_0 == #[trigger] label_text(p, k);
            assert(sa.union(sb).contains(k));
        }
    }
    assert forall|i: int, j: int|
        0 <= i < j < ab.len() && (#[trigger] ab[i]) is Label && (#[trigger] ab[j]) is Label implies ab[i]->Label_0
            != ab[j]->Label_0 by {
        if j < a.len() {
            assert(ab[i] == a[i] && ab[j] == a[j]);
        } else if i >= a.len() {
            assert(ab[i] == b[i - a.len()] && ab[j] == b[j - a.len()]);
        } else {
            assert(ab[i] == a[i] && ab[j] == b[j - a.len()]);
            let (p1, k1) = choose|p: Seq<char>, k: int|
                counter_prefix(p) && k >= 0 && sa.contains(k) && a[i]->Label_0 == #[trigger] label_text(p, k);
            let (p2, k2) = choose|p: Seq<char>, k: int|
                counter_prefix(p) && k >= 0 && sb.contains(k) && b[j - a.len()]->Label_0 == #[trigger] label_text(p, k);
            if ab[i]->Label_0 == ab[j]->Label_0 {
                lemma_label_number_unique(p1, k1, p2, k2);
                assert(sa.contains(k1) && sb.contains(k1));
            }
        }
    }
}

/// Counter labels with different numbers have different texts.
pub proof fn lemma_label_texts_differ(p1: Seq<char>, k1: int, p2: Seq<char>, k2: int)
    requires
        k1 >= 0,
        k2 >= 0,
        k1 != k2,
    ensures
        label_text(p1, k1) != label_text(p2, k2),
{
    if label_text(p1, k1) == label_text(p2, k2) {
        lemma_label_number_unique(p1, k1, p2, k2);
    }
}

/// The prefixes of the labels that the code generator numbers.
pub proof fn lemma_counter_prefixes(f: Seq<char>)
    ensures
        counter_prefix("ok"@),
        counter_prefix("err"@),
        counter_prefix("is_bool"@),
        counter_prefix("is_num"@),
        counter_prefix("cast_ok"@),
        counter_prefix("else"@),
        counter_prefix("end"@),
        counter_prefix("loop_start"@),
        counter_prefix("loop_end"@),
        counter_prefix("after_call_"@ + f),
        forall|op: Op2| counter_prefix(#[trigger] compare_prefix(op)),
{
    reveal_strlit("ok");
    reveal_strlit("err");
    reveal_strlit("is_bool");
    reveal_strlit("is_num");
    reveal_strlit("cast_ok");
    reveal_strlit("else");
    reveal_strlit("end");
    reveal_strlit("loop_start");
    reveal_strlit("loop_end");
    reveal_strlit("after_call_");
    reveal_strlit("eq");
    reveal_strlit("greater");
    reveal_strlit("greater_equal");
    reveal_strlit("less");
    reveal_strlit("less_equal");
    assert(("after_call_"@ + f)[0] == 'a');
}

/// The labels of a run-time check are numbered from `n` on, each once.
pub proof fn lemma_check_labels(c: Check, n: int)
    requires
        n >= 0,
    ensures
        check_code(c, n).1 >= n,
        labels_in(check_code(c, n).0, range(n, check_code(c, n).1)),
        labels_distinct(check_code(c, n).0),
{
    lemma_counter_prefixes(Seq::empty());
    let is = check_code(c, n).0;
    let s = range(n, check_code(c, n).1);
    assert(s.contains(n));
    match c {
        Check::Bool => {},
        Check::Num => {},
        Check::Overflow => {
            assert(s.contains(n + 1));
            lemma_label_texts_differ("err"@, n + 1, "ok"@, n);
        },
        Check::SameType => {
            assert(s.contains(n + 1) && s.contains(n + 2) && s.contains(n + 3));
            lemma_label_texts_differ("is_num"@, n + 2, "is_bool"@, n + 1);
            lemma_label_texts_differ("is_num"@, n + 2, "err"@, n + 3);
            lemma_label_texts_differ("is_num"@, n + 2, "ok"@, n);
            lemma_label_texts_differ("is_bool"@, n + 1, "err"@, n + 3);
            lemma_label_texts_differ("is_bool"@, n + 1, "ok"@, n);
            lemma_label_texts_differ("err"@, n + 3, "ok"@, n);
        },
    }
    assert forall|i: int| 0 <= i < is.len() && (#[trigger] is[i]) is Label implies numbered_in(is[i]->Label_0, s) by {
        let l = is[i]->Label_0;
        if l == label_text("ok"@, n) {
            assert(numbered_in(l, s));
        } else if l == label_text("err"@, n + 1) {
            assert(numbered_in(l, s));
        } else if l == label_text("is_bool"@, n + 1) {
            assert(numbered_in(l, s));
        } else if l == label_text("is_num"@, n + 2) {
            assert(numbered_in(l, s));
        } else if l == label_text("err"@, n + 3) {
            assert(numbered_in(l, s));
        }
    }
}

/// Code with labels in `sa`, then code with labels in `sb`, where the two
/// sets are disjoint and both lie in `s`.
proof fn lemma_append_into(a: Seq<InstrView>, sa: Set<int>, b: Seq<InstrView>, sb: Set<int>, s: Set<int>)
    requires
        labels_in(a, sa),
        labels_distinct(a),
        labels_in(b, sb),
        labels_distinct(b),
        forall|k: int| !(sa.contains(k) && sb.contains(k)),
        forall|k: int| sa.contains(k) ==> s.contains(k),
        forall|k: int| sb.contains(k) ==> s.contains(k),
    ensures
        labels_in(a + b, s),
        labels_distinct(a + b),
{
    lemma_labels_append(a, sa, b, sb);
    lemma_labels_widen(a + b, sa.union(sb), s);
}

/// Code that defines no label, after code with labels in `s`.
proof fn lemma_append_plain(a: Seq<InstrView>, s: Set<int>, b: Seq<InstrView>)
    requires
        labels_in(a, s),
        labels_distinct(a),
        forall|i: int| 0 <= i < b.len() ==> !(#[trigger] b[i] is Label),
    ensures
        labels_in(a + b, s),
        labels_distinct(a + b),
{
    lemma_no_labels(b, Set::empty());
    lemma_append_into(a, s, b, Set::empty(), s);
}

/// Code that defines no label, before code with labels in `s`.
proof fn lemma_prepend_plain(a: Seq<InstrView>, b: Seq<InstrView>, s: Set<int>)
    requires
        forall|i: int| 0 <= i < a.len() ==> !(#[trigger] a[i] is Label),
        labels_in(b, s),
        labels_distinct(b),
    ensures
        labels_in(a + b, s),
        labels_distinct(a + b),
{
    lemma_no_labels(a, Set::empty());
    lemma_append_into(a, Set::empty(), b, s, s);
}

/// The labels of the check of a cast are numbered from `n` on, each once.
pub proof fn lemma_cast_labels(t: Type, n: int)
    requires
        n >= 0,
    ensures
        cast_code(t, n).1 >= n,
        labels_in(cast_code(t, n).0, range(n, cast_code(t, n).1)),
        labels_distinct(cast_code(t, n).0),
{
    lemma_counter_prefixes(Seq::empty());
    let is = cast_code(t, n).0;
    let s = range(n, cast_code(t, n).1);
    assert forall|i: int| 0 <= i < is.len() && (#[trigger] is[i]) is Label implies numbered_in(is[i]->Label_0, s) by {
        assert(s.contains(n));
        assert(is[i]->Label_0 == label_text("cast_ok"@, n));
    }
}

/// The labels of a comparison are numbered `n` and `n + 1`.
pub proof fn lemma_compare_labels(op: Op2, off: int, n: int)
    requires
        n >= 0,
    ensures
        labels_in(compare_code(op, off, n), range(n, n + 2)),
        labels_distinct(compare_code(op, off, n)),
{
    lemma_counter_prefixes(Seq::empty());
    let is = compare_code(op, off, n);
    let s = range(n, n + 2);
    assert(counter_prefix(compare_prefix(op)));
    lemma_label_texts_differ(compare_prefix(op), n, "end"@, n + 1);
    assert forall|i: int| 0 <= i < is.len() && (#[trigger] is[i]) is Label implies numbered_in(is[i]->Label_0, s) by {
        assert(s.contains(n) && s.contains(n + 1));
        if i == 4 {
            assert(is[i]->Label_0 == label_text(compare_prefix(op), n));
        } else {
            assert(is[i]->Label_0 == label_text("end"@, n + 1));
        }
    }
}

/// A single counter label, numbered `k`.
proof fn lemma_label_at(p: Seq<char>, k: int)
    requires
        counter_prefix(p),
        k >= 0,
    ensures
        labels_in(seq![InstrView::Label(label_text(p, k))], range(k, k + 1)),
        labels_distinct(seq![InstrView::Label(label_text(p, k))]),
{
    lemma_one_label(p, k, range(k, k + 1));
}

/// Whether compiling with the counter at `n` gives a counter `r.1` at
/// least `n` and, on success, code whose labels are numbered from `n` up
/// to `r.1`, each once.
pub open spec fn fresh_code(r: Code, n: int) -> bool {
    &&& r.1 >= n
    &&& r.0 is Ok ==> labels_in(r.0->Ok_0, range(n, r.1)) && labels_distinct(r.0->Ok_0)
}

/// The code of an expression defines each of its labels once, numbered
/// from the counter it starts at up to the counter it leaves.
pub proof fn lemma_comp_labels(e: Expr, c: CtxView, n: int)
    requires
        n >= 0,
    ensures
        fresh_code(comp(e, c, n), n),
    decreases e, child_count(e) + 2,
{
    lemma_counter_prefixes(Seq::empty());
    match e {
        Expr::Id(x) => {
            if !c.stack.contains_key(x@) && !c.defines.contains_key(x@) && c.funs.contains_key(x@) {
                lemma_call_labels(e, c, n);
            } else if comp(e, c, n).0 is Ok {
                lemma_no_labels(comp(e, c, n).0->Ok_0, range(n, n));
            }
        },
        Expr::Let(_, _) => lemma_let_labels(e, 0, c, n, Seq::empty()),
        Expr::UnOp(op, x) => {
            lemma_comp_labels(*x, c, n);
            if let (Ok(xi), n1) = comp(*x, c, n) {
                lemma_append_plain(xi, range(n, n1), unop_code(op, c));
            }
        },
        Expr::BinOp(_, _, _) => lemma_binop_labels(e, c, n),
        Expr::If(cond, a, b) => {
            lemma_comp_labels(*cond, c, n + 2);
            if let (Ok(ci), n1) = comp(*cond, c, n + 2) {
                lemma_comp_labels(*a, shift_si(c, 1), n1 + 1);
                if let (Ok(ti), n2) = comp(*a, shift_si(c, 1), n1 + 1) {
                    lemma_comp_labels(*b, shift_si(c, 2), n2);
                    if let (Ok(ei), n3) = comp(*b, shift_si(c, 2), n2) {
                        lemma_check_labels(Check::Bool, n1);
                        let chk = check_code(Check::Bool, n1).0;
                        let x1 = ci + chk;
                        lemma_append_into(ci, range(n + 2, n1), chk, range(n1, n1 + 1), range(n + 2, n1 + 1));
                        let s1 = seq![InstrView::ICmp(rax(), ValView::I(3)), InstrView::IJne(label_text("else"@, n))];
                        lemma_append_plain(x1, range(n + 2, n1 + 1), s1);
                        let x3 = x1 + s1 + ti;
                        lemma_append_into(x1 + s1, range(n + 2, n1 + 1), ti, range(n1 + 1, n2), range(n + 2, n2));
                        let s2 = seq![InstrView::IJmp(ValView::S(label_text("end"@, n + 1)))];
                        lemma_append_plain(x3, range(n + 2, n2), s2);
                        let le = seq![InstrView::Label(label_text("else"@, n))];
                        lemma_label_at("else"@, n);
                        let s5 = Set::new(|k: int| k == n || n + 2 <= k < n2);
                        lemma_append_into(x3 + s2, range(n + 2, n2), le, range(n, n + 1), s5);
                        let s6 = Set::new(|k: int| k == n || n + 2 <= k < n3);
                        lemma_append_into(x3 + s2 + le, s5, ei, range(n2, n3), s6);
                        let lend = seq![InstrView::Label(label_text("end"@, n + 1))];
                        lemma_label_at("end"@, n + 1);
                        lemma_append_into(x3 + s2 + le + ei, s6, lend, range(n + 1, n + 2), range(n, n3));
                        assert(if_code(ci, ti, ei, n, n1) == x3 + s2 + le + ei + lend);
                    }
                }
            }
        },
        Expr::Loop(body) => {
            let start = label_text("loop_start"@, n);
            let end = label_text("loop_end"@, n + 1);
            let c2 = CtxView { break_label: Some(end), ..c };
            lemma_comp_labels(*body, c2, n + 2);
            if let (Ok(bi), n1) = comp(*body, c2, n + 2) {
                let ls = seq![InstrView::Label(start)];
                lemma_label_at("loop_start"@, n);
                let s1 = Set::new(|k: int| k == n || n + 2 <= k < n1);
                lemma_append_into(ls, range(n, n + 1), bi, range(n + 2, n1), s1);
                let j = seq![InstrView::IJmp(ValView::S(start))];
                lemma_append_plain(ls + bi, s1, j);
                let le = seq![InstrView::Label(end)];
                lemma_label_at("loop_end"@, n + 1);
                lemma_append_into(ls + bi + j, s1, le, range(n + 1, n + 2), range(n, n1));
                assert(seq![InstrView::Label(start)] + bi + seq![
                    InstrView::IJmp(ValView::S(start)),
                    InstrView::Label(end),
                ] =~= ls + bi + j + le);
            }
        },
        Expr::Break(x) => {
            let c2 = CtxView { break_label: None, ..c };
            lemma_comp_labels(*x, c2, n);
            if let (Ok(xi), n1) = comp(*x, c2, n) {
                if let Some(l) = c.break_label {
                    lemma_append_plain(xi, range(n, n1), seq![InstrView::IJmp(ValView::S(l))]);
                }
            }
        },
        Expr::Assign(x, v) => {
            lemma_comp_labels(*v, c, n);
            if let (Ok(vi), n1) = comp(*v, c, n) {
                if c.stack.contains_key(x@) {
                    lemma_append_plain(vi, range(n, n1), seq![InstrView::IMov(ValView::Mem(Reg::RSP, c.stack[x@]), rax())]);
                } else if c.defines.contains_key(x@) {
                    lemma_append_plain(
                        vi,
                        range(n, n1),
                        seq![
                            InstrView::IMov(ValView::Reg(Reg::RCX), ValView::I(c.defines[x@])),
                            InstrView::IMov(ValView::Mem(Reg::RCX, 0), rax()),
                        ],
                    );
                }
            }
        },
        Expr::Block(_) => lemma_block_labels(e, 0, c, n),
        Expr::Call(_, _) => lemma_call_labels(e, c, n),
        Expr::Cast(t, x) => {
            lemma_comp_labels(*x, c, n);
            if let (Ok(xi), n1) = comp(*x, c, n) {
                lemma_cast_labels(t, n1);
                lemma_append_into(xi, range(n, n1), cast_code(t, n1).0, range(n1, cast_code(t, n1).1), range(n, cast_code(t, n1).1));
            }
        },
        _ => {
            lemma_no_labels(comp(e, c, n).0->Ok_0, range(n, n));
        },
    }
}

/// The labels of the bindings of a `let` from the `i`-th on, then of its
/// body.
proof fn lemma_let_labels(e: Expr, i: int, c: CtxView, n: int, seen: Seq<Seq<char>>)
    requires
        n >= 0,
    ensures
        fresh_code(comp_let(e, i, c, n, seen), n),
    decreases e, child_count(e) - i,
{
    match e {
        Expr::Let(bs, body) => {
            if 0 <= i < bs@.len() {
                let x = bs@[i].0@;
                if !seen.contains(x) {
                    assert(decreases_to!(e => bs@[i].1)) by {
                        assert(decreases_to!(e => bs));
                    };
                    lemma_comp_labels(bs@[i].1, c, n);
                    if let (Ok(bi), n1) = comp(bs@[i].1, c, n) {
                        let off = c.si * 8;
                        let c2 = CtxView { si: c.si + 1, stack: c.stack.insert(x, off as i32), ..c };
                        lemma_let_labels(e, i + 1, c2, n1, seen.push(x));
                        if let (Ok(rest), n2) = comp_let(e, i + 1, c2, n1, seen.push(x)) {
                            let mv = seq![InstrView::IMov(slot(off), rax())];
                            lemma_append_plain(bi, range(n, n1), mv);
                            lemma_append_into(bi + mv, range(n, n1), rest, range(n1, n2), range(n, n2));
                        }
                    }
                }
            } else {
                lemma_comp_labels(*body, c, n);
            }
        },
        _ => {
            lemma_no_labels(Seq::empty(), range(n, n));
        },
    }
}

/// The labels of the expressions of a block from the `i`-th on.
proof fn lemma_block_labels(e: Expr, i: int, c: CtxView, n: int)
    requires
        n >= 0,
    ensures
        fresh_code(comp_block(e, i, c, n), n),
    decreases e, child_count(e) - i,
{
    match e {
        Expr::Block(es) => {
            if 0 <= i < es@.len() {
                assert(decreases_to!(e => es@[i]));
                lemma_comp_labels(es@[i], shift_si(c, i), n);
                if let (Ok(xi), n1) = comp(es@[i], shift_si(c, i), n) {
                    lemma_block_labels(e, i + 1, c, n1);
                    if let (Ok(rest), n2) = comp_block(e, i + 1, c, n1) {
                        lemma_append_into(xi, range(n, n1), rest, range(n1, n2), range(n, n2));
                    }
                }
            } else {
                lemma_no_labels(Seq::empty(), range(n, n));
            }
        },
        _ => {
            lemma_no_labels(Seq::empty(), range(n, n));
        },
    }
}

/// The labels of the arguments of a call from the `i`-th on.
proof fn lemma_args_labels(e: Expr, i: int, c: CtxView, n: int)
    requires
        n >= 0,
    ensures
        fresh_code(comp_args(e, i, c, n), n),
    decreases e, child_count(e) - i,
{
    match e {
        Expr::Call(_, args) => {
            if 0 <= i < args@.len() {
                assert(decreases_to!(e => args@[i]));
                lemma_comp_labels(args@[i], shift_si(c, i + 1), n);
                if let (Ok(ai), n1) = comp(args@[i], shift_si(c, i + 1), n) {
                    lemma_args_labels(e, i + 1, c, n1);
                    if let (Ok(rest), n2) = comp_args(e, i + 1, c, n1) {
                        let mv = seq![InstrView::IMov(slot((c.si + i + 1) * 8), rax())];
                        lemma_append_plain(ai, range(n, n1), mv);
                        lemma_append_into(ai + mv, range(n, n1), rest, range(n1, n2), range(n, n2));
                    }
                }
            } else {
                lemma_no_labels(Seq::empty(), range(n, n));
            }
        },
        _ => {
            lemma_no_labels(Seq::empty(), range(n, n));
        },
    }
}

/// The labels of a call: its arguments', and the return label numbered `n`.
proof fn lemma_call_labels(e: Expr, c: CtxView, n: int)
    requires
        n >= 0,
    ensures
        fresh_code(comp_call(e, c, n), n),
    decreases e, child_count(e) + 1,
{
    let f = callee(e);
    let nargs = child_count(e);
    lemma_counter_prefixes(f);
    if c.funs.contains_key(f) && (nargs as i32) == c.funs[f] {
        let off = c.si * 8;
        let after = label_text("after_call_"@ + f, n);
        let head = seq![
            InstrView::Comment("Call: "@ + f + " with "@ + int_text((nargs as i32) as int) + " args"@),
            InstrView::Comment("Save return address"@),
            InstrView::ILea(ValView::Reg(Reg::RCX), after),
            InstrView::IMov(slot(off), ValView::Reg(Reg::RCX)),
            InstrView::Comment("Evaluate and store arguments"@),
        ];
        let t1 = seq![
            InstrView::Comment("Adjust RSP"@),
            InstrView::ISub(ValView::Reg(Reg::RSP), ValView::I(off as i64)),
            InstrView::Comment("Jump to function "@ + f),
            InstrView::IJmp(ValView::S("fun_"@ + f)),
        ];
        let la = seq![InstrView::Label(after)];
        let t2 = seq![
            InstrView::Comment("Returned from function"@),
            InstrView::IAdd(ValView::Reg(Reg::RSP), ValView::I(off as i64)),
        ];
        lemma_args_labels(e, 0, c, n + 1);
        if let (Ok(ai), n1) = comp_args(e, 0, c, n + 1) {
            lemma_prepend_plain(head, ai, range(n + 1, n1));
            lemma_append_plain(head + ai, range(n + 1, n1), t1);
            lemma_label_at("after_call_"@ + f, n);
            lemma_append_into(head + ai + t1, range(n + 1, n1), la, range(n, n + 1), range(n, n1));
            lemma_append_plain(head + ai + t1 + la, range(n, n1), t2);
            let tail = seq![
                InstrView::Comment("Adjust RSP"@),
                InstrView::ISub(ValView::Reg(Reg::RSP), ValView::I(off as i64)),
                InstrView::Comment("Jump to function "@ + f),
                InstrView::IJmp(ValView::S("fun_"@ + f)),
                InstrView::Label(after),
                InstrView::Comment("Returned from function"@),
                InstrView::IAdd(ValView::Reg(Reg::RSP), ValView::I(off as i64)),
            ];
            assert(head + ai + tail =~= head + ai + t1 + la + t2);
        }
    }
}

/// The labels of a binary operation: the two number checks take `n` and
/// `n + 1`, the operands follow, then the checks after the operation.
proof fn lemma_binop_labels(e: Expr, c: CtxView, n: int)
    requires
        n >= 0,
    ensures
        fresh_code(comp_binop(e, c, n), n),
    decreases e, child_count(e) + 1,
{
    match e {
        Expr::BinOp(op, a, b) => {
            lemma_comp_labels(*a, c, n + 2);
            if let (Ok(v1), n1) = comp(*a, c, n + 2) {
                lemma_comp_labels(*b, shift_si(c, 1), n1);
                if let (Ok(v2), n2) = comp(*b, shift_si(c, 1), n1) {
                    lemma_binop_code_labels(op, v1, v2, c.si * 8, n, n1, n2);
                }
            }
        },
        _ => {
            lemma_no_labels(Seq::empty(), range(n, n));
        },
    }
}

/// The labels of a binary operation once its operands are compiled, the
/// first with labels from `n + 2` to `n1`, the second from `n1` to `n2`.
proof fn lemma_binop_code_labels(
    op: Op2,
    v1: Seq<InstrView>,
    v2: Seq<InstrView>,
    off: int,
    n: int,
    n1: int,
    n2: int,
)
    requires
        n >= 0,
        n + 2 <= n1 <= n2,
        labels_in(v1, range(n + 2, n1)),
        labels_distinct(v1),
        labels_in(v2, range(n1, n2)),
        labels_distinct(v2),
    ensures
        fresh_code(binop_code(op, v1, v2, off, n, n2), n),
{
    let comment = seq![InstrView::Comment(op2_text(op))];
    let num1 = check_code(Check::Num, n).0;
    let num2 = check_code(Check::Num, n + 1).0;
    let save = seq![InstrView::IMov(slot(off), rax())];
    lemma_check_labels(Check::Num, n);
    lemma_check_labels(Check::Num, n + 1);
    lemma_prepend_plain(comment, v1, range(n + 2, n1));
    if op == Op2::Equal {
        let mv = seq![InstrView::IMov(ValView::Reg(Reg::RCX), slot(off))];
        lemma_append_plain(comment + v1, range(n + 2, n1), save);
        lemma_append_into(comment + v1 + save, range(n + 2, n1), v2, range(n1, n2), range(n + 2, n2));
        lemma_append_plain(comment + v1 + save + v2, range(n + 2, n2), mv);
        let x = comment + v1 + save;
        lemma_check_labels(Check::SameType, n2 + 2);
        let same = check_code(Check::SameType, n2 + 2).0;
        let s3 = Set::new(|k: int| n + 2 <= k < n2 || n2 + 2 <= k < n2 + 6);
        lemma_append_into(x + v2 + mv, range(n + 2, n2), same, range(n2 + 2, n2 + 6), s3);
        lemma_compare_labels(op, off, n2);
        lemma_append_into(x + v2 + mv + same, s3, compare_code(op, off, n2), range(n2, n2 + 2), range(n, n2 + 6));
    } else {
        let x1 = comment + v1 + num1;
        let s1 = Set::new(|k: int| k == n || n + 2 <= k < n1);
        lemma_append_into(comment + v1, range(n + 2, n1), num1, range(n, n + 1), s1);
        let x2 = if op == Op2::Times {
            let sar = seq![InstrView::ISar(rax(), ValView::I(1))];
            lemma_append_plain(x1, s1, sar);
            lemma_append_plain(x1 + sar, s1, save);
            x1 + sar + save
        } else {
            lemma_append_plain(x1, s1, save);
            x1 + save
        };
        let s2 = Set::new(|k: int| k == n || n + 2 <= k < n2);
        lemma_append_into(x2, s1, v2, range(n1, n2), s2);
        lemma_append_into(x2 + v2, s2, num2, range(n + 1, n + 2), range(n, n2));
        let x3 = x2 + v2 + num2;
        if op == Op2::Plus || op == Op2::Minus || op == Op2::Times {
            let opi = if op == Op2::Plus {
                seq![InstrView::IAdd(rax(), slot(off))]
            } else if op == Op2::Minus {
                seq![InstrView::ISub(rax(), slot(off))]
            } else {
                seq![InstrView::IMul(rax(), slot(off))]
            };
            lemma_append_plain(x3, range(n, n2), opi);
            lemma_check_labels(Check::Overflow, n2);
            lemma_append_into(x3 + opi, range(n, n2), check_code(Check::Overflow, n2).0, range(n2, n2 + 2), range(n, n2 + 2));
        } else {
            lemma_compare_labels(op, off, n2);
            lemma_append_into(x3, range(n, n2), compare_code(op, off, n2), range(n2, n2 + 2), range(n, n2 + 2));
        }
    }
}

/// The label of the code of the function `g`.
pub open spec fn fun_label(g: Seq<char>) -> Seq<char> {
    "fun_"@ + g
}

/// Whether `l` is a counter label numbered in `s` or the label of one of
/// the functions `names`.
pub open spec fn code_label(l: Seq<char>, names: Set<Seq<char>>, s: Set<int>) -> bool {
    numbered_in(l, s) || exists|g: Seq<char>| names.contains(g) && l == #[trigger] fun_label(g)
}

/// Whether every label that `is` defines is a counter label numbered in
/// `s` or the label of one of the functions `names`.
pub open spec fn labels_of_code(is: Seq<InstrView>, names: Set<Seq<char>>, s: Set<int>) -> bool {
    forall|i: int| 0 <= i < is.len() && (#[trigger] is[i]) is Label ==> code_label(is[i]->Label_0, names, s)
}

/// A function label is not a counter label, and two function labels are
/// the same only for the same function.
proof fn lemma_fun_label_apart(g: Seq<char>, p: Seq<char>, k: int, h: Seq<char>)
    requires
        counter_prefix(p),
    ensures
        fun_label(g) != label_text(p, k),
        fun_label(g) == fun_label(h) ==> g == h,
{
    reveal_strlit("fun_");
    assert(fun_label(g)[0] == 'f');
    assert(label_text(p, k)[0] == p[0]);
    if fun_label(g) == fun_label(h) {
        assert(g =~= fun_label(g).subrange(4, fun_label(g).len() as int));
        assert(h =~= fun_label(h).subrange(4, fun_label(h).len() as int));
    }
}

/// Counter labels are labels of code with any functions.
proof fn lemma_code_of_counter(is: Seq<InstrView>, s: Set<int>, names: Set<Seq<char>>)
    requires
        labels_in(is, s),
    ensures
        labels_of_code(is, names, s),
{
}

/// Code with labels of the functions `na` and numbers in `sa`, then code
/// with labels of `nb` and numbers in `sb`, all apart, lies within the
/// larger sets `names` and `s` and defines each label once.
proof fn lemma_code_append(
    a: Seq<InstrView>,
    na: Set<Seq<char>>,
    sa: Set<int>,
    b: Seq<InstrView>,
    nb: Set<Seq<char>>,
    sb: Set<int>,
    names: Set<Seq<char>>,
    s: Set<int>,
)
    requires
        labels_of_code(a, na, sa),
        labels_distinct(a),
        labels_of_code(b, nb, sb),
        labels_distinct(b),
        forall|k: int| !(sa.contains(k) && sb.contains(k)),
        forall|g: Seq<char>| !(na.contains(g) && nb.contains(g)),
        forall|k: int| sa.contains(k) || sb.contains(k) ==> s.contains(k),
        forall|g: Seq<char>| na.contains(g) || nb.contains(g) ==> names.contains(g),
    ensures
        labels_of_code(a + b, names, s),
        labels_distinct(a + b),
{
    let ab = a + b;
    assert forall|i: int| 0 <= i < ab.len() && (#[trigger] ab[i]) is Label implies code_label(ab[i]->Label_0, names, s) by {
        let (x, nx, sx) = if i < a.len() {
            (a[i], na, sa)
        } else {
            (b[i - a.len()], nb, sb)
        };
        assert(ab[i] == x);
        let l = x->Label_0;
        assert(code_label(l, nx, sx));
        if numbered_in(l, sx) {
            let (p, k) = choose|p: Seq<char>, k: int|
                counter_prefix(p) && k >= 0 && sx.contains(k) && l == #[trigger] label_text(p, k);
            assert(s.contains(k));
        } else {
            let g = choose|g: Seq<char>| nx.contains(g) && l == #[trigger] fun_label(g);
            assert(names.contains(g));
        }
    }
    assert forall|i: int, j: int|
        0 <= i < j < ab.len() && (#[trigger] ab[i]) is Label && (#[trigger] ab[j]) is Label implies ab[i]->Label_0
            != ab[j]->Label_0 by {
        if j < a.len() {
            assert(ab[i] == a[i] && ab[j] == a[j]);
        } else if i >= a.len() {
            assert(ab[i] == b[i - a.len()] && ab[j] == b[j - a.len()]);
        } else {
            assert(ab[i] == a[i] && ab[j] == b[j - a.len()]);
            let l1 = a[i]->Label_0;
            let l2 = b[j - a.len()]->Label_0;
            assert(code_label(l1, na, sa));
            assert(code_label(l2, nb, sb));
            if l1 == l2 {
                if numbered_in(l1, sa) {
                    let (p1, k1) = choose|p: Seq<char>, k: int|
                        counter_prefix(p) && k >= 0 && sa.contains(k) && l1 == #[trigger] label_text(p, k);
                    if numbered_in(l2, sb) {
                        let (p2, k2) = choose|p: Seq<char>, k: int|
                            counter_prefix(p) && k >= 0 && sb.contains(k) && l2 == #[trigger] label_text(p, k);
                        lemma_label_number_unique(p1, k1, p2, k2);
                    } else {
                        let g2 = choose|g: Seq<char>| nb.contains(g) && l2 == #[trigger] fun_label(g);
                        lemma_fun_label_apart(g2, p1, k1, g2);
                    }
                } else {
                    let g1 = choose|g: Seq<char>| na.contains(g) && l1 == #[trigger] fun_label(g);
                    if numbered_in(l2, sb) {
                        let (p2, k2) = choose|p: Seq<char>, k: int|
                            counter_prefix(p) && k >= 0 && sb.contains(k) && l2 == #[trigger] label_text(p, k);
                        lemma_fun_label_apart(g1, p2, k2, g1);
                    } else {
                        let g2 = choose|g: Seq<char>| nb.contains(g) && l2 == #[trigger] fun_label(g);
                        lemma_counter_prefixes(Seq::empty());
                        lemma_fun_label_apart(g1, "ok"@, 0, g2);
                    }
                }
            }
        }
    }
}

/// The names of the definitions from the `i`-th on.
pub open spec fn names_from(defs: Seq<FunDef>, i: int) -> Set<Seq<char>> {
    Set::new(|g: Seq<char>| exists|j: int| i <= j < defs.len() && (#[trigger] defs[j]).name@ == g)
}

/// A function table that was built without error holds definitions with
/// distinct names.
proof fn lemma_fun_table_distinct(defs: Seq<FunDef>, m: int)
    requires
        0 <= m <= defs.len(),
        fun_table(defs, m) is Ok,
    ensures
        forall|j: int| 0 <= j < m ==> fun_table(defs, m)->Ok_0.contains_key(#[trigger] defs[j].name@),
        forall|j: int, k: int| 0 <= j < k < m ==> (#[trigger] defs[j]).name@ != (#[trigger] defs[k]).name@,
    decreases m,
{
    if m > 0 {
        lemma_fun_table_distinct(defs, m - 1);
    }
}

/// The code of a function definition: its own label, then the labels of
/// its body, numbered from `n` on.
pub proof fn lemma_fundef_labels(def: FunDef, c: CtxView, n: int)
    requires
        n >= 0,
    ensures
        comp_fundef(def, c, n).1 >= n,
        comp_fundef(def, c, n).0 is Ok ==> labels_of_code(
            comp_fundef(def, c, n).0->Ok_0,
            set![def.name@],
            range(n, comp_fundef(def, c, n).1),
        ) && labels_distinct(comp_fundef(def, c, n).0->Ok_0),
{
    let f = def.name@;
    let pc = param_ctx(c, def.args@, def.args@.len() as int);
    lemma_comp_labels(*def.body, pc, n);
    if let (Ok(bi), n1) = comp(*def.body, pc, n) {
        let head = seq![
            InstrView::Label("fun_"@ + f),
            InstrView::Comment("Function: "@ + f + " with "@ + nat_text(def.args@.len()) + " args"@),
        ];
        let tail = seq![InstrView::Comment("Return from function"@), InstrView::IJmp(ValView::Mem(Reg::RSP, 0))];
        assert(labels_of_code(head, set![f], Set::empty())) by {
            assert forall|i: int| 0 <= i < head.len() && (#[trigger] head[i]) is Label implies code_label(
                head[i]->Label_0,
                set![f],
                Set::empty(),
            ) by {
                assert(head[i]->Label_0 == fun_label(f));
                assert(set![f].contains(f));
            }
        }
        lemma_append_plain(bi, range(n, n1), tail);
        lemma_code_of_counter(bi + tail, range(n, n1), Set::empty());
        lemma_code_append(head, set![f], Set::empty(), bi + tail, Set::empty(), range(n, n1), set![f], range(n, n1));
        assert(head + bi + tail =~= head + (bi + tail));
    }
}

/// The code of the definitions from the `i`-th on, with distinct names:
/// the label of each function, and counter labels numbered from `n` on.
proof fn lemma_defs_labels(defs: Seq<FunDef>, i: int, c: CtxView, n: int)
    requires
        n >= 0,
        0 <= i,
        forall|j: int, k: int| i <= j < k < defs.len() ==> (#[trigger] defs[j]).name@ != (#[trigger] defs[k]).name@,
    ensures
        comp_defs(defs, i, c, n).1 >= n,
        comp_defs(defs, i, c, n).0 is Ok ==> labels_of_code(
            comp_defs(defs, i, c, n).0->Ok_0,
            names_from(defs, i),
            range(n, comp_defs(defs, i, c, n).1),
        ) && labels_distinct(comp_defs(defs, i, c, n).0->Ok_0),
    decreases defs.len() - i,
{
    if i < defs.len() {
        lemma_fundef_labels(defs[i], c, n);
        if let (Ok(di), n1) = comp_fundef(defs[i], c, n) {
            lemma_defs_labels(defs, i + 1, c, n1);
            if let (Ok(rest), n2) = comp_defs(defs, i + 1, c, n1) {
                let f = defs[i].name@;
                assert forall|g: Seq<char>| !(set![f].contains(g) && names_from(defs, i + 1).contains(g)) by {
                    if set![f].contains(g) && names_from(defs, i + 1).contains(g) {
                        let j = choose|j: int| i + 1 <= j < defs.len() && (#[trigger] defs[j]).name@ == g;
                        assert(defs[i].name@ != defs[j].name@);
                    }
                }
                assert forall|g: Seq<char>| set![f].contains(g) || names_from(defs, i + 1).contains(g) implies names_from(
                    defs,
                    i,
                ).contains(g) by {
                    if set![f].contains(g) {
                        assert(defs[i].name@ == g);
                    } else {
                        let j = choose|j: int| i + 1 <= j < defs.len() && (#[trigger] defs[j]).name@ == g;
                        assert(defs[j].name@ == g);
                    }
                }
                lemma_code_append(di, set![f], range(n, n1), rest, names_from(defs, i + 1), range(n1, n2), names_from(defs, i), range(n, n2));
            }
        }
    } else {
        lemma_no_labels(Seq::empty(), range(n, n));
    }
}

/// The code of a whole program defines each label once: the label of each
/// function, and the labels that the counter numbers, from the counter it
/// starts at on.
pub proof fn lemma_program_labels_distinct(prog: Program, c: CtxView, n: int)
    requires
        n >= 0,
        comp_program(prog, c, n).0 is Ok,
    ensures
        ({
            let (fi, mi) = comp_program(prog, c, n).0->Ok_0;
            labels_distinct(fi + mi)
        }),
{
    let defs = prog.defs@;
    lemma_fun_table_distinct(defs, defs.len() as int);
    let table = fun_table(defs, defs.len() as int)->Ok_0;
    let c2 = CtxView { funs: table, ..c };
    lemma_defs_labels(defs, 0, c2, n);
    let (fi, n1) = (comp_defs(defs, 0, c2, n).0->Ok_0, comp_defs(defs, 0, c2, n).1);
    lemma_comp_labels(*prog.main, c2, n1);
    let (mi, n2) = (comp(*prog.main, c2, n1).0->Ok_0, comp(*prog.main, c2, n1).1);
    let tail = seq![InstrView::Comment("Main expression"@)];
    lemma_append_plain(mi, range(n1, n2), tail);
    assert(mi.push(InstrView::Comment("Main expression"@)) =~= mi + tail);
    lemma_code_of_counter(mi + tail, range(n1, n2), Set::empty());
    lemma_code_append(fi, names_from(defs, 0), range(n, n1), mi + tail, Set::empty(), range(n1, n2), names_from(defs, 0), range(n, n2));
}

} // verus!
