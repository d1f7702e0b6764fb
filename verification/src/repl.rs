//! The decisions of the interactive prompt: what each line typed at it
//! asks for, and how the compile-time context follows. Running the code
//! and printing are left to the caller, which hands back what it needs.
use vstd::prelude::*;
use vstd::string::*;
use crate::ast::{Expr, FunDef, ReplEntry, Type};
use crate::sexpr::{read_sexp, sexp_reading};
use crate::parser::{parse_repl_entry, repl_error, repl_parses};
use crate::typecheck::{
    TypeEnv, TEnv, tc, check_fundef, fun_signature, bind_fun, bind_var, empty_env, typecheck_expr,
    typecheck_fundef, get_function_signature,
};
use crate::codegen::context::{Context, CtxView};
use crate::codegen::compile::{
    compile_to_instructions, compile_fundef, comp, comp_fundef, compile_fits, fundef_fits,
};
use crate::codegen::limits::{fits_expr, fits_fundef};
use crate::codegen::labels::{labels_in, labels_distinct, labels_of_code, range, lemma_comp_labels, lemma_fundef_labels};
use crate::codegen::instruction::{Instruction, InstrView, ValView, Reg, instrs_view};
use crate::driver::{start_ctx, too_large_text};
use crate::maps::{i64_map_get, i32_map_get};
use crate::text::{push_str, str_eq};

verus! {

/// The state of the prompt: the compile-time context, the counter that
/// numbers fresh labels, whether entries are type-checked, and the types of
/// what has been defined so far (kept only when they are).
pub struct Repl {
    pub ctx: Context,
    pub labels: i64,
    pub typecheck: bool,
    pub types: TypeEnv,
}

/// What a line typed at the prompt asks the caller to do.
#[derive(Debug)]
pub enum ReplAction {
    /// Leave the prompt.
    Quit,
    /// Report this line on the error stream; nothing else is done.
    Report(String),
    /// Run this code, then bind the name to a cell that holds its result
    /// (see `Repl::bind`).
    Define(String, Vec<Instruction>),
    /// Add the code of a function; its name is already in scope.
    Function(Vec<Instruction>),
    /// Run this code and print its result.
    Eval(Vec<Instruction>),
}

/// An action, with its texts read as characters and its code through views.
pub enum ActionView {
    Quit,
    Report(Seq<char>),
    Define(Seq<char>, Seq<InstrView>),
    Function(Seq<InstrView>),
    Eval(Seq<InstrView>),
}

/// An action, read through views.
pub open spec fn action_view(a: ReplAction) -> ActionView {
    match a {
        ReplAction::Quit => ActionView::Quit,
        ReplAction::Report(m) => ActionView::Report(m@),
        ReplAction::Define(x, is) => ActionView::Define(x@, instrs_view(is@)),
        ReplAction::Function(is) => ActionView::Function(instrs_view(is@)),
        ReplAction::Eval(is) => ActionView::Eval(instrs_view(is@)),
    }
}

/// The line that reports an error of the code generator.
pub open spec fn compile_report(m: Seq<char>) -> Seq<char> {
    "Compile error: "@ + m
}

/// The environment in which the body of `d` is checked at the prompt: the
/// types so far, with the signature of `d` itself.
pub open spec fn with_signature(t: TEnv, d: FunDef) -> TEnv {
    bind_fun(t, d.name@, fun_signature(d).0, fun_signature(d).1)
}

/// What an entry read at the prompt asks for, with the context `c`, the
/// types `t` of what has been defined, type checking on when `checked`,
/// and the label counter `n`; then the context, the types and the counter
/// after it. A type error is reported before any code is generated.
pub open spec fn entry_step(c: CtxView, t: TEnv, checked: bool, n: int, e: ReplEntry) -> (
    ActionView,
    CtxView,
    TEnv,
    int,
) {
    match e {
        ReplEntry::Define(name, x) => if c.defines.contains_key(name@) {
            (ActionView::Report("Error: duplicate binding"@), c, t, n)
        } else if checked && tc(*x, t) is Err {
            (ActionView::Report(tc(*x, t)->Err_0), c, t, n)
        } else if !compile_fits(*x, c.si, n) {
            (ActionView::Report(compile_report(too_large_text())), c, t, n)
        } else {
            match comp(*x, c, n) {
                (Err(m), n2) => (ActionView::Report(compile_report(m)), c, t, n2),
                (Ok(is), n2) => (
                    ActionView::Define(name@, is),
                    c,
                    if checked {
                        bind_var(t, name@, tc(*x, t)->Ok_0)
                    } else {
                        t
                    },
                    n2,
                ),
            }
        },
        ReplEntry::FunDef(d) => if c.funs.contains_key(d.name@) {
            (ActionView::Report("Error: duplicate function name"@), c, t, n)
        } else if checked && check_fundef(d, with_signature(t, d)) is Err {
            (ActionView::Report(check_fundef(d, with_signature(t, d))->Err_0), c, t, n)
        } else if !fundef_fits(d, c.si, n) {
            (ActionView::Report(compile_report(too_large_text())), c, t, n)
        } else {
            match comp_fundef(d, c, n) {
                (Err(m), n2) => (ActionView::Report(compile_report(m)), c, t, n2),
                (Ok(is), n2) => (
                    ActionView::Function(is),
                    CtxView {
                        funs: c.funs.insert(d.name@, d.args@.len() as i32),
                        stack: Map::empty(),
                        ..c
                    },
                    if checked {
                        with_signature(t, d)
                    } else {
                        t
                    },
                    n2,
                ),
            }
        },
        ReplEntry::Expr(x) => if checked && tc(*x, t) is Err {
            (ActionView::Report(tc(*x, t)->Err_0), c, t, n)
        } else if !compile_fits(*x, c.si, n) {
            (ActionView::Report(compile_report(too_large_text())), c, t, n)
        } else {
            match comp(*x, c, n) {
                (Err(m), n2) => (ActionView::Report(compile_report(m)), c, t, n2),
                (Ok(is), n2) => (ActionView::Eval(is), CtxView { stack: Map::empty(), ..c }, t, n2),
            }
        },
    }
}

/// Whether `(a, c2, t2, n2)` is what the line `line` typed at the prompt
/// asks for, with the context `c`, the types `t`, type checking on when
/// `checked`, and the label counter `n`, then the context, the types and
/// the counter after it.
pub open spec fn step_outcome(
    c: CtxView,
    t: TEnv,
    checked: bool,
    n: int,
    line: Seq<char>,
    a: ActionView,
    c2: CtxView,
    t2: TEnv,
    n2: int,
) -> bool {
    if line == "exit"@ || line == "quit"@ {
        (a, c2, t2, n2) == (ActionView::Quit, c, t, n)
    } else {
        match sexp_reading(line) {
            None => (a, c2, t2, n2) == (ActionView::Report("Input parse error"@), c, t, n),
            Some(s) => match repl_error(s) {
                Some(m) => (a, c2, t2, n2) == (ActionView::Report("Parse error: "@ + m), c, t, n),
                None => exists|e: ReplEntry|
                    repl_parses(s, e) && (a, c2, t2, n2) == entry_step(c, t, checked, n, e),
            },
        }
    }
}

/// With type checking on, a definition that the prompt accepts has a
/// well-typed expression, and the types kept afterwards bind the name to
/// exactly the type of that expression; every other name and every
/// function keep their types.
pub proof fn lemma_checked_define_binds_its_type(c: CtxView, t: TEnv, n: int, e: ReplEntry, y: Seq<char>)
    requires
        e is Define,
        entry_step(c, t, true, n, e).0 is Define,
    ensures
        ({
            let name = e->Define_0@;
            let x = *e->Define_1;
            let t2 = entry_step(c, t, true, n, e).2;
            &&& tc(x, t) is Ok
            &&& t2.vars.get(name) == Some(tc(x, t)->Ok_0)
            &&& y != name ==> t2.vars.get(y) == t.vars.get(y)
            &&& t2.funs == t.funs
        }),
{
}

/// With type checking on, a function that the prompt accepts is kept with
/// the signature it declares (every parameter and the result `Any` when
/// it declares none); every other function and every name keep theirs.
pub proof fn lemma_checked_function_binds_its_signature(c: CtxView, t: TEnv, n: int, e: ReplEntry, g: Seq<char>)
    requires
        e is FunDef,
        entry_step(c, t, true, n, e).0 is Function,
    ensures
        ({
            let d = e->FunDef_0;
            let t2 = entry_step(c, t, true, n, e).2;
            &&& d.ret_type matches Some(r) ==> t2.funs.get(d.name@) == Some((d.arg_types@, r))
            &&& d.ret_type is None ==> t2.funs.get(d.name@) == Some(
                (Seq::new(d.args@.len(), |i: int| Type::Any), Type::Any),
            )
            &&& g != d.name@ ==> t2.funs.get(g) == t.funs.get(g)
            &&& t2.vars == t.vars
        }),
{
}

/// With type checking on, an expression or a definition of a new name
/// whose type check fails is reported with the checker's message, and
/// nothing changes: no code is generated and no label is used.
pub proof fn lemma_ill_typed_refused(c: CtxView, t: TEnv, n: int, e: ReplEntry)
    requires
        (e matches ReplEntry::Expr(x) && tc(*x, t) is Err) || (e matches ReplEntry::Define(name, x)
            && !c.defines.contains_key(name@) && tc(*x, t) is Err),
    ensures
        ({
            let x = match e {
                ReplEntry::Expr(x) => *x,
                ReplEntry::Define(_, x) => *x,
                ReplEntry::FunDef(d) => *d.body,
            };
            entry_step(c, t, true, n, e) == (ActionView::Report(tc(x, t)->Err_0), c, t, n)
        }),
{
}

/// With type checking on, a function whose body does not check against
/// its signature is reported with the checker's message, and nothing
/// changes.
pub proof fn lemma_ill_typed_function_refused(c: CtxView, t: TEnv, n: int, e: ReplEntry)
    requires
        e matches ReplEntry::FunDef(d) && !c.funs.contains_key(d.name@) && check_fundef(d, with_signature(t, d)) is Err,
    ensures
        entry_step(c, t, true, n, e) == (
            ActionView::Report(check_fundef(e->FunDef_0, with_signature(t, e->FunDef_0))->Err_0),
            c,
            t,
            n,
        ),
{
}

/// With type checking off, the types are never consulted nor changed.
pub proof fn lemma_unchecked_ignores_types(c: CtxView, t: TEnv, t2: TEnv, n: int, e: ReplEntry)
    ensures
        entry_step(c, t, false, n, e).2 == t,
        ({
            let (a, c1, _, n1) = entry_step(c, t, false, n, e);
            let (a2, c2, _, n2) = entry_step(c, t2, false, n, e);
            a == a2 && c1 == c2 && n1 == n2
        }),
{
}

/// Once a name is bound at the prompt, defining it again is refused as a
/// duplicate binding, and neither the context nor the counter changes.
pub proof fn lemma_define_twice_refused(c: CtxView, t: TEnv, checked: bool, n: int, cell: i64, e: ReplEntry)
    requires
        e is Define,
    ensures
        ({
            let c2 = CtxView { defines: c.defines.insert(e->Define_0@, cell), stack: Map::empty(), ..c };
            entry_step(c2, t, checked, n, e) == (ActionView::Report("Error: duplicate binding"@), c2, t, n)
        }),
{
}

/// Once a name is bound at the prompt to the cell that holds its value,
/// the expression that names it reads that cell.
pub proof fn lemma_defined_name_reads_cell(c: CtxView, t: TEnv, checked: bool, n: int, cell: i64, e: ReplEntry)
    requires
        e matches ReplEntry::Expr(x) && *x matches Expr::Id(_),
        compile_fits(*e->Expr_0, c.si, n),
        checked ==> tc(*e->Expr_0, t) is Ok,
    ensures
        ({
            let name = e->Expr_0->Id_0@;
            let c2 = CtxView { defines: c.defines.insert(name, cell), stack: Map::empty(), ..c };
            entry_step(c2, t, checked, n, e).0 == ActionView::Eval(
                seq![
                    InstrView::IMov(ValView::Reg(Reg::RAX), ValView::I(cell)),
                    InstrView::IMov(ValView::Reg(Reg::RAX), ValView::Mem(Reg::RAX, 0)),
                ],
            )
        }),
{
}

/// Once a function is added at the prompt, adding it again is refused as
/// a duplicate, and neither the context nor the counter changes.
pub proof fn lemma_function_twice_refused(c: CtxView, t: TEnv, checked: bool, n: int, m: int, e: ReplEntry)
    requires
        e is FunDef,
        entry_step(c, t, checked, n, e).0 is Function,
    ensures
        ({
            let (_, c2, t2, _) = entry_step(c, t, checked, n, e);
            entry_step(c2, t2, checked, m, e) == (ActionView::Report("Error: duplicate function name"@), c2, t2, m)
        }),
{
}

/// An entry that is refused leaves the context as it was; an entry whose
/// code is to run or be added forgets the local variables, and only a
/// function definition adds a binding.
pub proof fn lemma_entry_context(c: CtxView, t: TEnv, checked: bool, n: int, e: ReplEntry)
    ensures
        ({
            let (a, c2, t2, _) = entry_step(c, t, checked, n, e);
            &&& a is Report ==> c2 == c && t2 == t
            &&& a is Define ==> c2 == c
            &&& a is Eval ==> c2 == (CtxView { stack: Map::empty(), ..c }) && t2 == t
            &&& a is Function ==> c2.defines == c.defines && c2.si == c.si
        }),
{
}

/// The code that an entry asks to run or add defines each label once: the
/// labels that the counter numbers lie between the counter before the
/// entry and the counter after it, so that code of later entries, which
/// starts from there, never defines them again.
pub proof fn lemma_entry_labels(c: CtxView, t: TEnv, checked: bool, n: int, e: ReplEntry)
    requires
        n >= 0,
    ensures
        ({
            let (a, _, _, n2) = entry_step(c, t, checked, n, e);
            &&& n2 >= n
            &&& match a {
                ActionView::Define(_, is) => labels_in(is, range(n, n2)) && labels_distinct(is),
                ActionView::Eval(is) => labels_in(is, range(n, n2)) && labels_distinct(is),
                ActionView::Function(is) => labels_of_code(is, set![e->FunDef_0.name@], range(n, n2))
                    && labels_distinct(is),
                _ => true,
            }
        }),
{
    match e {
        ReplEntry::Define(_, x) => lemma_comp_labels(*x, c, n),
        ReplEntry::Expr(x) => lemma_comp_labels(*x, c, n),
        ReplEntry::FunDef(d) => lemma_fundef_labels(d, c, n),
    }
}

fn text(s: &str) -> (r: String)
    ensures
        r@ == s@,
{
    String::from_str(s)
}

fn prefixed(prefix: &str, m: &str) -> (r: String)
    ensures
        r@ == prefix@ + m@,
{
    let mut s = text(prefix);
    push_str(&mut s, m);
    s
}

impl Repl {
    /// The prompt before anything is typed, with type checking on when
    /// `typecheck` is.
    pub fn new(typecheck: bool) -> (r: Repl)
        ensures
            r.ctx@ == start_ctx(),
            r.labels == 0,
            r.typecheck == typecheck,
            r.types@ == empty_env(),
    {
        let types = TypeEnv::new();
        assert(types@ == empty_env());
        Repl { ctx: Context::new(), labels: 0, typecheck, types }
    }

    /// What an entry read at the prompt asks for; the context, the types
    /// and the counter follow.
    pub fn entry(&mut self, e: ReplEntry) -> (a: ReplAction)
        ensures
            (action_view(a), final(self).ctx@, final(self).types@, final(self).labels as int) == entry_step(
                old(self).ctx@,
                old(self).types@,
                old(self).typecheck,
                old(self).labels as int,
                e,
            ),
            final(self).typecheck == old(self).typecheck,
            old(self).labels <= final(self).labels,
    {
        match e {
            ReplEntry::Define(name, x) => {
                if i64_map_get(&self.ctx.define_env, name.as_str()).is_some() {
                    return ReplAction::Report(text("Error: duplicate binding"));
                }
                let mut ty = Type::Any;
                if self.typecheck {
                    match typecheck_expr(&x, &self.types) {
                        Ok(t) => {
                            ty = t;
                        },
                        Err(m) => {
                            return ReplAction::Report(m);
                        },
                    }
                }
                if !fits_expr(&x, self.ctx.si, self.labels) {
                    return ReplAction::Report(prefixed("Compile error: ", "program too large"));
                }
                let mut n = self.labels;
                let r = compile_to_instructions(&x, &self.ctx, &mut n);
                self.labels = n;
                match r {
                    Ok(is) => {
                        if self.typecheck {
                            self.types = self.types.with_var(name.clone(), ty);
                        }
                        ReplAction::Define(name, is)
                    },
                    Err(m) => ReplAction::Report(prefixed("Compile error: ", m.as_str())),
                }
            },
            ReplEntry::FunDef(d) => {
                if i32_map_get(&self.ctx.fun_env, d.name.as_str()).is_some() {
                    return ReplAction::Report(text("Error: duplicate function name"));
                }
                let (arg_types, ret_type) = get_function_signature(&d);
                let types2 = self.types.with_fun(d.name.clone(), arg_types, ret_type);
                assert(types2@ == with_signature(self.types@, d));
                if self.typecheck {
                    match typecheck_fundef(&d, &types2) {
                        Ok(_) => {},
                        Err(m) => {
                            return ReplAction::Report(m);
                        },
                    }
                }
                if !fits_fundef(&d, self.ctx.si, self.labels) {
                    return ReplAction::Report(prefixed("Compile error: ", "program too large"));
                }
                let mut n = self.labels;
                let r = compile_fundef(&d, &self.ctx, &mut n);
                self.labels = n;
                match r {
                    Ok(is) => {
                        self.ctx.insert_fun(d.name.clone(), d.args.len() as i32);
                        self.ctx.clear_stack();
                        if self.typecheck {
                            self.types = types2;
                        }
                        ReplAction::Function(is)
                    },
                    Err(m) => ReplAction::Report(prefixed("Compile error: ", m.as_str())),
                }
            },
            ReplEntry::Expr(x) => {
                if self.typecheck {
                    match typecheck_expr(&x, &self.types) {
                        Ok(_) => {},
                        Err(m) => {
                            return ReplAction::Report(m);
                        },
                    }
                }
                if !fits_expr(&x, self.ctx.si, self.labels) {
                    return ReplAction::Report(prefixed("Compile error: ", "program too large"));
                }
                let mut n = self.labels;
                let r = compile_to_instructions(&x, &self.ctx, &mut n);
                self.labels = n;
                match r {
                    Ok(is) => {
                        self.ctx.clear_stack();
                        ReplAction::Eval(is)
                    },
                    Err(m) => ReplAction::Report(prefixed("Compile error: ", m.as_str())),
                }
            },
        }
    }

    /// What the line `line` (without surrounding blanks) typed at the
    /// prompt asks for; the context, the types and the counter follow.
    pub fn step(&mut self, line: &str) -> (a: ReplAction)
        ensures
            step_outcome(
                old(self).ctx@,
                old(self).types@,
                old(self).typecheck,
                old(self).labels as int,
                line@,
                action_view(a),
                final(self).ctx@,
                final(self).types@,
                final(self).labels as int,
            ),
            final(self).typecheck == old(self).typecheck,
            old(self).labels <= final(self).labels,
    {
        if str_eq(line, "exit") || str_eq(line, "quit") {
            return ReplAction::Quit;
        }
        let parsed = match read_sexp(line) {
            Some(s) => s,
            None => {
                return ReplAction::Report(text("Input parse error"));
            },
        };
        match parse_repl_entry(&parsed) {
            Ok(e) => self.entry(e),
            Err(m) => ReplAction::Report(prefixed("Parse error: ", m.as_str())),
        }
    }

    /// Binds a name defined at the prompt to the cell that holds its value,
    /// once its code has run; local variables are forgotten.
    pub fn bind(&mut self, name: String, cell: i64)
        ensures
            final(self).ctx@ == (CtxView {
                defines: old(self).ctx@.defines.insert(name@, cell),
                stack: Map::empty(),
                ..old(self).ctx@
            }),
            final(self).labels == old(self).labels,
            final(self).typecheck == old(self).typecheck,
            final(self).types@ == old(self).types@,
    {
        self.ctx.insert_define(name, cell);
        self.ctx.clear_stack();
    }
}

} // verus!
