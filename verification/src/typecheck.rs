//! The static type checker.
use vstd::prelude::*;
use vstd::string::*;
use crate::ast::{Program, Expr, Op1, Op2, FunDef, Type, type_text, op1_text, op2_text, child_count};
use crate::maps::{
    type_map_contents, type_map_new, type_map_update, type_map_get, type_map_clone,
    sig_map_contents, sig_map_new, sig_map_update, sig_map_get, sig_map_clone,
};
use crate::text::{push_str, push_nat, nat_text};

verus! {

/// The typing environment: the types of variables and the signatures of
/// functions.
#[derive(Debug)]
pub struct TypeEnv {
    vars: im::HashMap<String, Type>,
    funs: im::HashMap<String, (Vec<Type>, Type)>,
}

/// What a typing environment binds, keyed by the characters of each name.
pub struct TEnv {
    pub vars: Map<Seq<char>, Type>,
    pub funs: Map<Seq<char>, (Seq<Type>, Type)>,
}

impl View for TypeEnv {
    type V = TEnv;

    closed spec fn view(&self) -> TEnv {
        TEnv { vars: type_map_contents(self.vars), funs: sig_map_contents(self.funs) }
    }
}

/// The environment `env` with `x` bound to the type `t`.
pub open spec fn bind_var(env: TEnv, x: Seq<char>, t: Type) -> TEnv {
    TEnv { vars: env.vars.insert(x, t), funs: env.funs }
}

/// The environment `env` with the function `f` bound to a signature.
pub open spec fn bind_fun(env: TEnv, f: Seq<char>, args: Seq<Type>, ret: Type) -> TEnv {
    TEnv { vars: env.vars, funs: env.funs.insert(f, (args, ret)) }
}

impl Clone for TypeEnv {
    fn clone(&self) -> (r: Self)
        ensures
            r@ == self@,
    {
        TypeEnv { vars: type_map_clone(&self.vars), funs: sig_map_clone(&self.funs) }
    }
}

impl TypeEnv {
    /// The environment that binds nothing.
    pub fn new() -> (r: Self)
        ensures
            r@.vars == Map::<Seq<char>, Type>::empty(),
            r@.funs == Map::<Seq<char>, (Seq<Type>, Type)>::empty(),
    {
        TypeEnv { vars: type_map_new(), funs: sig_map_new() }
    }

    /// This environment with `name` bound to `ty`.
    pub fn with_var(&self, name: String, ty: Type) -> (r: Self)
        ensures
            r@ == bind_var(self@, name@, ty),
    {
        TypeEnv { vars: type_map_update(&self.vars, name, ty), funs: sig_map_clone(&self.funs) }
    }

    /// This environment with the function `name` bound to a signature.
    pub fn with_fun(&self, name: String, arg_types: Vec<Type>, ret_type: Type) -> (r: Self)
        ensures
            r@ == bind_fun(self@, name@, arg_types@, ret_type),
    {
        TypeEnv {
            vars: type_map_clone(&self.vars),
            funs: sig_map_update(&self.funs, name, (arg_types, ret_type)),
        }
    }

    /// The type of the variable `name`, if it is bound.
    pub fn get_var(&self, name: &str) -> (r: Option<&Type>)
        ensures
            match r {
                Some(t) => self@.vars.get(name@) == Some(*t),
                None => !self@.vars.contains_key(name@),
            },
    {
        type_map_get(&self.vars, name)
    }

    /// The signature of the function `name`, if it is bound.
    pub fn get_fun(&self, name: &str) -> (r: Option<&(Vec<Type>, Type)>)
        ensures
            match r {
                Some(p) => self@.funs.get(name@) == Some((p.0@, p.1)),
                None => !self@.funs.contains_key(name@),
            },
    {
        sig_map_get(&self.funs, name)
    }
}

/// The subtype order: `Nothing` below everything, `Any` above everything,
/// `Num` and `Bool` each below themselves.
pub open spec fn subtype(t1: Type, t2: Type) -> bool {
    t2 == Type::Any || t1 == Type::Nothing || (t1 == Type::Num && t2 == Type::Num) || (t1
        == Type::Bool && t2 == Type::Bool)
}

/// The least type above both `t1` and `t2`.
pub open spec fn join(t1: Type, t2: Type) -> Type {
    if t1 == Type::Any || t2 == Type::Any {
        Type::Any
    } else if t1 == Type::Nothing {
        t2
    } else if t2 == Type::Nothing {
        t1
    } else if t1 == t2 {
        t1
    } else {
        Type::Any
    }
}

/// Whether `t1` is a subtype of `t2`.
pub fn is_subtype(t1: &Type, t2: &Type) -> (r: bool)
    ensures
        r == subtype(*t1, *t2),
{
    match (t1, t2) {
        (_, Type::Any) => true,
        (Type::Nothing, _) => true,
        (Type::Num, Type::Num) => true,
        (Type::Bool, Type::Bool) => true,
        _ => false,
    }
}

/// The least type above both `t1` and `t2`.
pub fn union(t1: &Type, t2: &Type) -> (r: Type)
    ensures
        r == join(*t1, *t2),
{
    match (t1, t2) {
        (Type::Any, _) | (_, Type::Any) => Type::Any,
        (Type::Nothing, t) | (t, Type::Nothing) => *t,
        (Type::Num, Type::Num) => Type::Num,
        (Type::Bool, Type::Bool) => Type::Bool,
        (Type::Num, Type::Bool) | (Type::Bool, Type::Num) => Type::Any,
    }
}

/// The subtype order is reflexive: every type is a subtype of itself.
pub proof fn lemma_subtype_reflexive(t: Type)
    ensures
        subtype(t, t),
{
}

/// The subtype order is transitive.
pub proof fn lemma_subtype_transitive(a: Type, b: Type, c: Type)
    requires
        subtype(a, b),
        subtype(b, c),
    ensures
        subtype(a, c),
{
}

/// The subtype order is antisymmetric: two types each below the other
/// are the same type.
pub proof fn lemma_subtype_antisymmetric(a: Type, b: Type)
    requires
        subtype(a, b),
        subtype(b, a),
    ensures
        a == b,
{
}

/// `Nothing` is below every type and `Any` above every type.
pub proof fn lemma_subtype_bounds(t: Type)
    ensures
        subtype(Type::Nothing, t),
        subtype(t, Type::Any),
{
}

/// The union of two types is their least upper bound: it is above both,
/// and below every type that is above both.
pub proof fn lemma_join_least_upper_bound(a: Type, b: Type, c: Type)
    ensures
        subtype(a, join(a, b)),
        subtype(b, join(a, b)),
        subtype(a, c) && subtype(b, c) ==> subtype(join(a, b), c),
{
}

/// The union of types is commutative, associative and idempotent.
pub proof fn lemma_join_algebra(a: Type, b: Type, c: Type)
    ensures
        join(a, b) == join(b, a),
        join(join(a, b), c) == join(a, join(b, c)),
        join(a, a) == a,
{
}

/// A type is a subtype of another exactly when their union is the other.
pub proof fn lemma_subtype_iff_join(a: Type, b: Type)
    ensures
        subtype(a, b) <==> join(a, b) == b,
{
}

/// The least type above all of `ts`, folded from the left.
pub open spec fn join_all(ts: Seq<Type>) -> Type
    decreases ts.len(),
{
    if ts.len() <= 1 {
        ts[0]
    } else {
        join(join_all(ts.drop_last()), ts.last())
    }
}

/// The union of a non-empty list of types is above each of them, and
/// below every type that is above all of them.
pub proof fn lemma_join_all_least_upper_bound(ts: Seq<Type>, c: Type)
    requires
        ts.len() > 0,
    ensures
        forall|i: int| 0 <= i < ts.len() ==> subtype(#[trigger] ts[i], join_all(ts)),
        (forall|i: int| 0 <= i < ts.len() ==> subtype(#[trigger] ts[i], c)) ==> subtype(join_all(ts), c),
    decreases ts.len(),
{
    if ts.len() > 1 {
        let init = ts.drop_last();
        lemma_join_all_least_upper_bound(init, c);
        assert forall|i: int| 0 <= i < ts.len() implies subtype(#[trigger] ts[i], join_all(ts)) by {
            if i < ts.len() - 1 {
                assert(ts[i] == init[i]);
                lemma_join_least_upper_bound(join_all(init), ts.last(), c);
                lemma_subtype_transitive(ts[i], join_all(init), join_all(ts));
            }
        }
        if forall|i: int| 0 <= i < ts.len() ==> subtype(#[trigger] ts[i], c) {
            assert forall|i: int| 0 <= i < init.len() implies subtype(#[trigger] init[i], c) by {
                assert(init[i] == ts[i]);
            }
            assert(subtype(ts[ts.len() - 1], c));
            lemma_join_least_upper_bound(join_all(init), ts.last(), c);
        }
    }
}

/// Reading a variable just bound gives its type; other variables, and all
/// functions, keep their bindings.
pub proof fn lemma_bind_var_read(env: TEnv, x: Seq<char>, t: Type, y: Seq<char>)
    ensures
        bind_var(env, x, t).vars.get(x) == Some(t),
        y != x ==> bind_var(env, x, t).vars.get(y) == env.vars.get(y),
        bind_var(env, x, t).funs == env.funs,
{
}

/// Reading a function just bound gives its signature; other functions,
/// and all variables, keep their bindings.
pub proof fn lemma_bind_fun_read(env: TEnv, f: Seq<char>, args: Seq<Type>, ret: Type, g: Seq<char>)
    ensures
        bind_fun(env, f, args, ret).funs.get(f) == Some((args, ret)),
        g != f ==> bind_fun(env, f, args, ret).funs.get(g) == env.funs.get(g),
        bind_fun(env, f, args, ret).vars == env.vars,
{
}

// Messages of the type checker.
pub open spec fn msg_unbound(x: Seq<char>) -> Seq<char> {
    "Type error: unbound variable "@ + x
}

pub open spec fn msg_unop(op: Op1, t: Type) -> Seq<char> {
    "Type error: "@ + op1_text(op) + " expects Num but got "@ + type_text(t)
}

pub open spec fn msg_first_operand(op: Op2, t: Type) -> Seq<char> {
    "Type error: "@ + op2_text(op) + " expects Num for first operand but got "@ + type_text(t)
}

pub open spec fn msg_second_operand(op: Op2, t: Type) -> Seq<char> {
    "Type error: "@ + op2_text(op) + " expects Num for second operand but got "@ + type_text(t)
}

pub open spec fn msg_equal(t1: Type, t2: Type) -> Seq<char> {
    "Type error: = expects both operands to be Bools or Nums, got "@ + type_text(t1) + " and "@
        + type_text(t2)
}

pub open spec fn msg_if(t: Type) -> Seq<char> {
    "Type error: if condition expects Bool but got "@ + type_text(t)
}

pub open spec fn msg_assign(t: Type, x: Seq<char>, vt: Type) -> Seq<char> {
    "Type error: cannot assign "@ + type_text(t) + " to variable "@ + x + " of type "@
        + type_text(vt)
}

pub open spec fn msg_empty_block() -> Seq<char> {
    "Type error: empty block"@
}

pub open spec fn msg_arity(f: Seq<char>, expected: nat, got: nat) -> Seq<char> {
    "Type error: function "@ + f + " expects "@ + nat_text(expected) + " arguments but got "@
        + nat_text(got)
}

pub open spec fn msg_arg(i: nat, f: Seq<char>, t: Type, expected: Type) -> Seq<char> {
    "Type error: argument "@ + nat_text(i) + " to function "@ + f + " has type "@ + type_text(t)
        + " but expected "@ + type_text(expected)
}

pub open spec fn msg_unknown_fun(f: Seq<char>) -> Seq<char> {
    "Type error: unknown function "@ + f
}

pub open spec fn msg_fun_body(f: Seq<char>, t: Type, expected: Type) -> Seq<char> {
    "Type error: function "@ + f + " body has type "@ + type_text(t) + " but expected "@
        + type_text(expected)
}

pub open spec fn msg_unannotated_body(f: Seq<char>, t: Type) -> Seq<char> {
    "Type error: unannotated function "@ + f + " body has type "@ + type_text(t)
}

/// A result whose error message is read as its characters.
pub open spec fn res_view<T>(r: Result<T, String>) -> Result<T, Seq<char>> {
    match r {
        Ok(v) => Ok(v),
        Err(m) => Err(m@),
    }
}

/// The type of a unary operation whose operand has type `t`.
pub open spec fn unop_type(op: Op1, t: Type) -> Result<Type, Seq<char>> {
    match op {
        Op1::Add1 | Op1::Sub1 | Op1::Negate => if subtype(t, Type::Num) {
            Ok(Type::Num)
        } else {
            Err(msg_unop(op, t))
        },
        Op1::IsNum | Op1::IsBool => Ok(Type::Bool),
        Op1::Print => Ok(t),
    }
}

/// The type of a binary operation whose operands have types `t1` and `t2`.
pub open spec fn binop_type(op: Op2, t1: Type, t2: Type) -> Result<Type, Seq<char>> {
    match op {
        Op2::Equal => if (subtype(t1, Type::Num) && subtype(t2, Type::Num)) || (subtype(
            t1,
            Type::Bool,
        ) && subtype(t2, Type::Bool)) {
            Ok(Type::Bool)
        } else {
            Err(msg_equal(t1, t2))
        },
        _ => if !subtype(t1, Type::Num) {
            Err(msg_first_operand(op, t1))
        } else if !subtype(t2, Type::Num) {
            Err(msg_second_operand(op, t2))
        } else {
            match op {
                Op2::Plus | Op2::Minus | Op2::Times => Ok(Type::Num),
                _ => Ok(Type::Bool),
            }
        },
    }
}

/// The type of `e` in `env`, or the message of the first type error.
pub open spec fn tc(e: Expr, env: TEnv) -> Result<Type, Seq<char>>
    decreases e, child_count(e) + 1,
{
    match e {
        Expr::Num(_) => Ok(Type::Num),
        Expr::Bool(_) => Ok(Type::Bool),
        Expr::Input => if env.vars.contains_key("input"@) {
            Ok(env.vars["input"@])
        } else {
            Ok(Type::Any)
        },
        Expr::Id(x) => if env.vars.contains_key(x@) {
            Ok(env.vars[x@])
        } else {
            Err(msg_unbound(x@))
        },
        Expr::Let(_, _) => tc_let(e, 0, env),
        Expr::UnOp(op, x) => match tc(*x, env) {
            Ok(t) => unop_type(op, t),
            Err(m) => Err(m),
        },
        Expr::BinOp(op, a, b) => match tc(*a, env) {
            Ok(t1) => match tc(*b, env) {
                Ok(t2) => binop_type(op, t1, t2),
                Err(m) => Err(m),
            },
            Err(m) => Err(m),
        },
        Expr::If(c, a, b) => match tc(*c, env) {
            Ok(tc0) => if !subtype(tc0, Type::Bool) {
                Err(msg_if(tc0))
            } else {
                match tc(*a, env) {
                    Ok(t1) => match tc(*b, env) {
                        Ok(t2) => Ok(join(t1, t2)),
                        Err(m) => Err(m),
                    },
                    Err(m) => Err(m),
                }
            },
            Err(m) => Err(m),
        },
        Expr::Loop(body) => match breaks(*body, env) {
            Ok(ts) => if ts.len() == 0 {
                Ok(Type::Nothing)
            } else {
                Ok(join_all(ts))
            },
            Err(m) => Err(m),
        },
        Expr::Break(x) => match tc(*x, env) {
            Ok(_) => Ok(Type::Nothing),
            Err(m) => Err(m),
        },
        Expr::Assign(x, v) => match tc(*v, env) {
            Ok(t) => if env.vars.contains_key(x@) {
                if subtype(t, env.vars[x@]) {
                    Ok(t)
                } else {
                    Err(msg_assign(t, x@, env.vars[x@]))
                }
            } else {
                Err(msg_unbound(x@))
            },
            Err(m) => Err(m),
        },
        Expr::Block(es) => if es@.len() == 0 {
            Err(msg_empty_block())
        } else {
            tc_block(e, 0, env)
        },
        Expr::Call(f, args) => if env.funs.contains_key(f@) {
            let sig = env.funs[f@];
            if args@.len() != sig.0.len() {
                Err(msg_arity(f@, sig.0.len(), args@.len()))
            } else {
                match tc_args(e, 0, env, sig.0) {
                    Ok(_) => Ok(sig.1),
                    Err(m) => Err(m),
                }
            }
        } else {
            Err(msg_unknown_fun(f@))
        },
        Expr::Cast(t, x) => match tc(*x, env) {
            Ok(_) => Ok(t),
            Err(m) => Err(m),
        },
    }
}

/// The bindings of a `let` from the `i`-th on, each typed in the
/// environment that the earlier ones extend, then its body.
pub open spec fn tc_let(e: Expr, i: int, env: TEnv) -> Result<Type, Seq<char>>
    decreases e, child_count(e) - i,
{
    match e {
        Expr::Let(bs, body) => if 0 <= i < bs@.len() {
            match tc(bs@[i].1, env) {
                Ok(t) => tc_let(e, i + 1, bind_var(env, bs@[i].0@, t)),
                Err(m) => Err(m),
            }
        } else {
            tc(*body, env)
        },
        _ => Ok(Type::Any),
    }
}

/// The expressions of a block from the `i`-th on; the type of the last.
pub open spec fn tc_block(e: Expr, i: int, env: TEnv) -> Result<Type, Seq<char>>
    decreases e, child_count(e) - i,
{
    match e {
        Expr::Block(es) => if 0 <= i < es@.len() {
            match tc(es@[i], env) {
                Ok(t) => if i + 1 == es@.len() {
                    Ok(t)
                } else {
                    tc_block(e, i + 1, env)
                },
                Err(m) => Err(m),
            }
        } else {
            Ok(Type::Nothing)
        },
        _ => Ok(Type::Nothing),
    }
}

/// The arguments of a call from the `i`-th on, each checked against the
/// expected type `expected[i]`.
pub open spec fn tc_args(e: Expr, i: int, env: TEnv, expected: Seq<Type>) -> Result<
    (),
    Seq<char>,
>
    decreases e, child_count(e) - i,
{
    match e {
        Expr::Call(f, args) => if 0 <= i < args@.len() {
            match tc(args@[i], env) {
                Ok(t) => if subtype(t, expected[i]) {
                    tc_args(e, i + 1, env, expected)
                } else {
                    Err(msg_arg(i as nat, f@, t, expected[i]))
                },
                Err(m) => Err(m),
            }
        } else {
            Ok(())
        },
        _ => Ok(()),
    }
}

/// The block items from the `i`-th on, all well typed, give the type of
/// the last one.
proof fn lemma_tc_block_last(e: Expr, i: int, env: TEnv)
    requires
        e matches Expr::Block(es) && 0 <= i < es@.len() && forall|k: int| 0 <= k < es@.len() ==> #[trigger] tc(es@[k], env) is Ok,
    ensures
        tc_block(e, i, env) == tc(e->Block_0@.last(), env),
    decreases e->Block_0@.len() - i,
{
    let es = e->Block_0@;
    assert(tc(es[i], env) is Ok);
    if i + 1 < es.len() {
        lemma_tc_block_last(e, i + 1, env);
    }
}

/// The arguments from the `i`-th on, each well typed below the type the
/// signature expects, pass the check.
proof fn lemma_tc_args_ok(e: Expr, i: int, env: TEnv, expected: Seq<Type>)
    requires
        e matches Expr::Call(_, args) && 0 <= i && args@.len() == expected.len() && forall|k: int|
            0 <= k < args@.len() ==> #[trigger] tc(args@[k], env) is Ok && subtype(tc(args@[k], env)->Ok_0, expected[k]),
    ensures
        tc_args(e, i, env, expected) == Ok::<(), Seq<char>>(()),
    decreases e->Call_1@.len() - i,
{
    let args = e->Call_1@;
    if i < args.len() {
        assert(tc(args[i], env) is Ok);
        lemma_tc_args_ok(e, i + 1, env, expected);
    }
}

/// The types of the simple forms: a number is a `Num`, a boolean a `Bool`,
/// a `break` of a well-typed value `Nothing`, a cast of a well-typed value
/// its target type, a non-empty block of well-typed items the type of the
/// last item, and an empty block an error.
pub proof fn lemma_tc_forms(e: Expr, env: TEnv)
    ensures
        e is Num ==> tc(e, env) == Ok::<Type, Seq<char>>(Type::Num),
        e is Bool ==> tc(e, env) == Ok::<Type, Seq<char>>(Type::Bool),
        e matches Expr::Break(x) ==> (tc(*x, env) is Ok ==> tc(e, env) == Ok::<Type, Seq<char>>(Type::Nothing)),
        e matches Expr::Cast(t, x) ==> (tc(*x, env) is Ok ==> tc(e, env) == Ok::<Type, Seq<char>>(t)),
        e matches Expr::Block(es) ==> (es@.len() == 0 ==> tc(e, env) == Err::<Type, Seq<char>>(msg_empty_block())),
        e matches Expr::Block(es) ==> (es@.len() > 0 && (forall|k: int| 0 <= k < es@.len() ==> #[trigger] tc(es@[k], env) is Ok)
            ==> tc(e, env) == tc(es@.last(), env)),
{
    if let Expr::Block(es) = e {
        if es@.len() > 0 && (forall|k: int| 0 <= k < es@.len() ==> #[trigger] tc(es@[k], env) is Ok) {
            lemma_tc_block_last(e, 0, env);
        }
    }
}

/// Operators on numbers: when both operands are well typed below `Num`,
/// arithmetic (`+`, `-`, `*`) has type `Num`, and every comparison (`<`,
/// `>`, `<=`, `>=`, `=`) has type `Bool`; when either operand is a `Bool`,
/// arithmetic and ordering comparisons are type errors.
pub proof fn lemma_tc_binop_on_numbers(e: Expr, env: TEnv)
    requires
        e is BinOp,
        tc(*e->BinOp_1, env) is Ok,
        tc(*e->BinOp_2, env) is Ok,
    ensures
        ({
            let op = e->BinOp_0;
            let t1 = tc(*e->BinOp_1, env)->Ok_0;
            let t2 = tc(*e->BinOp_2, env)->Ok_0;
            &&& subtype(t1, Type::Num) && subtype(t2, Type::Num) ==> {
                &&& (op == Op2::Plus || op == Op2::Minus || op == Op2::Times) ==> tc(e, env) == Ok::<Type, Seq<char>>(Type::Num)
                &&& (op == Op2::Less || op == Op2::Greater || op == Op2::LessEqual || op == Op2::GreaterEqual
                    || op == Op2::Equal) ==> tc(e, env) == Ok::<Type, Seq<char>>(Type::Bool)
            }
            &&& (t1 == Type::Bool || t2 == Type::Bool) && op != Op2::Equal ==> tc(e, env) is Err
        }),
{
}

/// Operators of one operand: on a well-typed operand below `Num`,
/// `add1`, `sub1` and `negate` have type `Num`; on any well-typed operand,
/// `isnum` and `isbool` have type `Bool` and `print` has the operand's type.
pub proof fn lemma_tc_unop(e: Expr, env: TEnv)
    requires
        e is UnOp,
        tc(*e->UnOp_1, env) is Ok,
    ensures
        ({
            let op = e->UnOp_0;
            let t = tc(*e->UnOp_1, env)->Ok_0;
            &&& subtype(t, Type::Num) && (op == Op1::Add1 || op == Op1::Sub1 || op == Op1::Negate)
                ==> tc(e, env) == Ok::<Type, Seq<char>>(Type::Num)
            &&& t == Type::Bool && (op == Op1::Add1 || op == Op1::Sub1 || op == Op1::Negate) ==> tc(e, env) is Err
            &&& (op == Op1::IsNum || op == Op1::IsBool) ==> tc(e, env) == Ok::<Type, Seq<char>>(Type::Bool)
            &&& op == Op1::Print ==> tc(e, env) == Ok::<Type, Seq<char>>(t)
        }),
{
}

/// An `if` whose condition is well typed: with a condition that is not
/// below `Bool` it is a type error; otherwise, with both branches well
/// typed, its type is above the type of each branch and below every type
/// that is above both.
pub proof fn lemma_tc_if(e: Expr, env: TEnv, u: Type)
    requires
        e is If,
        tc(*e->If_0, env) is Ok,
    ensures
        ({
            let tcond = tc(*e->If_0, env)->Ok_0;
            let ta = tc(*e->If_1, env);
            let tb = tc(*e->If_2, env);
            &&& !subtype(tcond, Type::Bool) ==> tc(e, env) is Err
            &&& subtype(tcond, Type::Bool) && ta is Ok && tb is Ok ==> {
                &&& tc(e, env) is Ok
                &&& subtype(ta->Ok_0, tc(e, env)->Ok_0)
                &&& subtype(tb->Ok_0, tc(e, env)->Ok_0)
                &&& subtype(ta->Ok_0, u) && subtype(tb->Ok_0, u) ==> subtype(tc(e, env)->Ok_0, u)
            }
        }),
{
    let ta = tc(*e->If_1, env);
    let tb = tc(*e->If_2, env);
    if ta is Ok && tb is Ok {
        lemma_join_least_upper_bound(ta->Ok_0, tb->Ok_0, u);
    }
}

/// Reading a name gives the type it is bound to, and an unbound name is a
/// type error; the input has the type bound to `input`, or `Any`.
pub proof fn lemma_tc_names(e: Expr, env: TEnv, x: String, t: Type)
    ensures
        e == Expr::Id(x) && env.vars.get(x@) == Some(t) ==> tc(e, env) == Ok::<Type, Seq<char>>(t),
        e == Expr::Id(x) && !env.vars.contains_key(x@) ==> tc(e, env) is Err,
        e == Expr::Input && env.vars.get("input"@) == Some(t) ==> tc(e, env) == Ok::<Type, Seq<char>>(t),
        e == Expr::Input && !env.vars.contains_key("input"@) ==> tc(e, env) == Ok::<Type, Seq<char>>(Type::Any),
{
}

/// `Num` and `Bool` are apart: neither is below the other, only `Nothing`
/// is below both, and only `Any` is above both.
pub proof fn lemma_num_bool_apart(t: Type)
    ensures
        !subtype(Type::Num, Type::Bool),
        !subtype(Type::Bool, Type::Num),
        subtype(t, Type::Num) && subtype(t, Type::Bool) ==> t == Type::Nothing,
        subtype(Type::Num, t) && subtype(Type::Bool, t) ==> t == Type::Any,
        subtype(Type::Any, t) ==> t == Type::Any,
        subtype(t, Type::Nothing) ==> t == Type::Nothing,
{
}

/// A call of a known function: with the wrong number of arguments it is
/// an error that says so; with each argument well typed below the type
/// its signature expects, it has the signature's result type; a call of
/// an unknown function is an error that names it.
pub proof fn lemma_tc_call(e: Expr, env: TEnv)
    requires
        e is Call,
    ensures
        ({
            let f = e->Call_0@;
            let args = e->Call_1@;
            &&& !env.funs.contains_key(f) ==> tc(e, env) == Err::<Type, Seq<char>>(msg_unknown_fun(f))
            &&& env.funs.contains_key(f) && args.len() != env.funs[f].0.len() ==> tc(e, env) == Err::<
                Type,
                Seq<char>,
            >(msg_arity(f, env.funs[f].0.len(), args.len()))
            &&& env.funs.contains_key(f) && args.len() == env.funs[f].0.len() && (forall|k: int|
                0 <= k < args.len() ==> #[trigger] tc(args[k], env) is Ok && subtype(
                    tc(args[k], env)->Ok_0,
                    env.funs[f].0[k],
                )) ==> tc(e, env) == Ok::<Type, Seq<char>>(env.funs[f].1)
        }),
{
    let f = e->Call_0@;
    let args = e->Call_1@;
    if env.funs.contains_key(f) && args.len() == env.funs[f].0.len() && (forall|k: int|
        0 <= k < args.len() ==> #[trigger] tc(args[k], env) is Ok && subtype(tc(args[k], env)->Ok_0, env.funs[f].0[k])) {
        lemma_tc_args_ok(e, 0, env, env.funs[f].0);
    }
}

/// The types of the values that the `break`s of `e` leave a loop with, in
/// the order they occur; the `break`s of inner loops are not counted.
pub open spec fn breaks(e: Expr, env: TEnv) -> Result<Seq<Type>, Seq<char>>
    decreases e, child_count(e) + 1,
{
    match e {
        Expr::Break(x) => match tc(*x, env) {
            Ok(t) => Ok(seq![t]),
            Err(m) => Err(m),
        },
        Expr::Let(_, _) => breaks_let(e, 0, env),
        Expr::UnOp(_, x) => breaks(*x, env),
        Expr::BinOp(_, a, b) => match breaks(*a, env) {
            Ok(s1) => match breaks(*b, env) {
                Ok(s2) => Ok(s1 + s2),
                Err(m) => Err(m),
            },
            Err(m) => Err(m),
        },
        Expr::If(c, a, b) => match breaks(*c, env) {
            Ok(s1) => match breaks(*a, env) {
                Ok(s2) => match breaks(*b, env) {
                    Ok(s3) => Ok(s1 + s2 + s3),
                    Err(m) => Err(m),
                },
                Err(m) => Err(m),
            },
            Err(m) => Err(m),
        },
        Expr::Loop(_) => Ok(Seq::empty()),
        Expr::Assign(_, x) => breaks(*x, env),
        Expr::Block(_) => breaks_list(e, 0, env),
        Expr::Call(_, _) => breaks_list(e, 0, env),
        Expr::Cast(_, x) => breaks(*x, env),
        _ => Ok(Seq::empty()),
    }
}

/// The `break` types of the bindings of a `let` from the `i`-th on, then of
/// its body.
pub open spec fn breaks_let(e: Expr, i: int, env: TEnv) -> Result<Seq<Type>, Seq<char>>
    decreases e, child_count(e) - i,
{
    match e {
        Expr::Let(bs, body) => if 0 <= i < bs@.len() {
            match breaks(bs@[i].1, env) {
                Ok(s1) => match tc(bs@[i].1, env) {
                    Ok(t) => match breaks_let(e, i + 1, bind_var(env, bs@[i].0@, t)) {
                        Ok(s2) => Ok(s1 + s2),
                        Err(m) => Err(m),
                    },
                    Err(m) => Err(m),
                },
                Err(m) => Err(m),
            }
        } else {
            breaks(*body, env)
        },
        _ => Ok(Seq::empty()),
    }
}

/// The `break` types of the expressions of a block or the arguments of a
/// call, from the `i`-th on.
pub open spec fn breaks_list(e: Expr, i: int, env: TEnv) -> Result<Seq<Type>, Seq<char>>
    decreases e, child_count(e) - i,
{
    match e {
        Expr::Block(es) => if 0 <= i < es@.len() {
            match breaks(es@[i], env) {
                Ok(s1) => match breaks_list(e, i + 1, env) {
                    Ok(s2) => Ok(s1 + s2),
                    Err(m) => Err(m),
                },
                Err(m) => Err(m),
            }
        } else {
            Ok(Seq::empty())
        },
        Expr::Call(_, es) => if 0 <= i < es@.len() {
            match breaks(es@[i], env) {
                Ok(s1) => match breaks_list(e, i + 1, env) {
                    Ok(s2) => Ok(s1 + s2),
                    Err(m) => Err(m),
                },
                Err(m) => Err(m),
            }
        } else {
            Ok(Seq::empty())
        },
        _ => Ok(Seq::empty()),
    }
}

fn err_unbound(x: &str) -> (r: String)
    ensures
        r@ == msg_unbound(x@),
{
    let mut s = String::from_str("Type error: unbound variable ");
    push_str(&mut s, x);
    s
}

fn err_unop(op: &Op1, t: &Type) -> (r: String)
    ensures
        r@ == msg_unop(*op, *t),
{
    let mut s = String::from_str("Type error: ");
    push_str(&mut s, op.name());
    push_str(&mut s, " expects Num but got ");
    push_str(&mut s, t.to_string().as_str());
    s
}

fn err_operand(op: &Op2, first: bool, t: &Type) -> (r: String)
    ensures
        r@ == (if first { msg_first_operand(*op, *t) } else { msg_second_operand(*op, *t) }),
{
    let mut s = String::from_str("Type error: ");
    push_str(&mut s, op.name());
    if first {
        push_str(&mut s, " expects Num for first operand but got ");
    } else {
        push_str(&mut s, " expects Num for second operand but got ");
    }
    push_str(&mut s, t.to_string().as_str());
    s
}

fn err_equal(t1: &Type, t2: &Type) -> (r: String)
    ensures
        r@ == msg_equal(*t1, *t2),
{
    let mut s = String::from_str("Type error: = expects both operands to be Bools or Nums, got ");
    push_str(&mut s, t1.to_string().as_str());
    push_str(&mut s, " and ");
    push_str(&mut s, t2.to_string().as_str());
    s
}

fn err_if(t: &Type) -> (r: String)
    ensures
        r@ == msg_if(*t),
{
    let mut s = String::from_str("Type error: if condition expects Bool but got ");
    push_str(&mut s, t.to_string().as_str());
    s
}

fn err_assign(t: &Type, x: &str, vt: &Type) -> (r: String)
    ensures
        r@ == msg_assign(*t, x@, *vt),
{
    let mut s = String::from_str("Type error: cannot assign ");
    push_str(&mut s, t.to_string().as_str());
    push_str(&mut s, " to variable ");
    push_str(&mut s, x);
    push_str(&mut s, " of type ");
    push_str(&mut s, vt.to_string().as_str());
    s
}

fn err_arity(f: &str, expected: usize, got: usize) -> (r: String)
    ensures
        r@ == msg_arity(f@, expected as nat, got as nat),
{
    let mut s = String::from_str("Type error: function ");
    push_str(&mut s, f);
    push_str(&mut s, " expects ");
    push_nat(&mut s, expected as u64);
    push_str(&mut s, " arguments but got ");
    push_nat(&mut s, got as u64);
    s
}

fn err_arg(i: usize, f: &str, t: &Type, expected: &Type) -> (r: String)
    ensures
        r@ == msg_arg(i as nat, f@, *t, *expected),
{
    let mut s = String::from_str("Type error: argument ");
    push_nat(&mut s, i as u64);
    push_str(&mut s, " to function ");
    push_str(&mut s, f);
    push_str(&mut s, " has type ");
    push_str(&mut s, t.to_string().as_str());
    push_str(&mut s, " but expected ");
    push_str(&mut s, expected.to_string().as_str());
    s
}

fn err_unknown_fun(f: &str) -> (r: String)
    ensures
        r@ == msg_unknown_fun(f@),
{
    let mut s = String::from_str("Type error: unknown function ");
    push_str(&mut s, f);
    s
}

fn unop_result(op: &Op1, t: Type) -> (r: Result<Type, String>)
    ensures
        res_view(r) == unop_type(*op, t),
{
    match op {
        Op1::Add1 | Op1::Sub1 | Op1::Negate => {
            if !is_subtype(&t, &Type::Num) {
                return Err(err_unop(op, &t));
            }
            Ok(Type::Num)
        },
        Op1::IsNum | Op1::IsBool => Ok(Type::Bool),
        Op1::Print => Ok(t),
    }
}

fn binop_result(op: &Op2, t1: Type, t2: Type) -> (r: Result<Type, String>)
    ensures
        res_view(r) == binop_type(*op, t1, t2),
{
    match op {
        Op2::Plus | Op2::Minus | Op2::Times => {
            if !is_subtype(&t1, &Type::Num) {
                return Err(err_operand(op, true, &t1));
            }
            if !is_subtype(&t2, &Type::Num) {
                return Err(err_operand(op, false, &t2));
            }
            Ok(Type::Num)
        },
        Op2::Less | Op2::Greater | Op2::LessEqual | Op2::GreaterEqual => {
            if !is_subtype(&t1, &Type::Num) {
                return Err(err_operand(op, true, &t1));
            }
            if !is_subtype(&t2, &Type::Num) {
                return Err(err_operand(op, false, &t2));
            }
            Ok(Type::Bool)
        },
        Op2::Equal => {
            if is_subtype(&t1, &Type::Num) && is_subtype(&t2, &Type::Num) {
                Ok(Type::Bool)
            } else if is_subtype(&t1, &Type::Bool) && is_subtype(&t2, &Type::Bool) {
                Ok(Type::Bool)
            } else {
                Err(err_equal(&t1, &t2))
            }
        },
    }
}

/// The least type above all of `ts`.
fn union_all(ts: &Vec<Type>) -> (r: Type)
    requires
        ts@.len() > 0,
    ensures
        r == join_all(ts@),
{
    let mut acc = ts[0];
    let mut i: usize = 1;
    assert(ts@.subrange(0, 1) =~= seq![ts@[0]]);
    while i < ts.len()
        invariant
            1 <= i <= ts@.len(),
            acc == join_all(ts@.subrange(0, i as int)),
        decreases ts@.len() - i,
    {
        assert(ts@.subrange(0, i + 1).drop_last() =~= ts@.subrange(0, i as int));
        acc = union(&acc, &ts[i]);
        i = i + 1;
    }
    assert(ts@.subrange(0, i as int) =~= ts@);
    acc
}

/// The type of `e` in `env`, or the message of the first type error found,
/// checking sub-expressions left to right.
pub fn typecheck_expr(e: &Expr, env: &TypeEnv) -> (r: Result<Type, String>)
    ensures
        res_view(r) == tc(*e, env@),
    decreases e, 1nat,
{
    match e {
        Expr::Num(_) => Ok(Type::Num),
        Expr::Bool(_) => Ok(Type::Bool),
        Expr::Input => {
            match env.get_var("input") {
                Some(ty) => Ok(*ty),
                None => Ok(Type::Any),
            }
        },
        Expr::Id(name) => {
            match env.get_var(name.as_str()) {
                Some(ty) => Ok(*ty),
                None => Err(err_unbound(name.as_str())),
            }
        },
        Expr::Let(_, _) => typecheck_let(e, env),
        Expr::UnOp(op, x) => {
            let t = match typecheck_expr(x, env) {
                Ok(t) => t,
                Err(m) => {
                    return Err(m);
                },
            };
            unop_result(op, t)
        },
        Expr::BinOp(op, a, b) => {
            let t1 = match typecheck_expr(a, env) {
                Ok(t) => t,
                Err(m) => {
                    return Err(m);
                },
            };
            let t2 = match typecheck_expr(b, env) {
                Ok(t) => t,
                Err(m) => {
                    return Err(m);
                },
            };
            binop_result(op, t1, t2)
        },
        Expr::If(cond, then_e, else_e) => {
            let cond_type = match typecheck_expr(cond, env) {
                Ok(t) => t,
                Err(m) => {
                    return Err(m);
                },
            };
            if !is_subtype(&cond_type, &Type::Bool) {
                return Err(err_if(&cond_type));
            }
            let then_type = match typecheck_expr(then_e, env) {
                Ok(t) => t,
                Err(m) => {
                    return Err(m);
                },
            };
            let else_type = match typecheck_expr(else_e, env) {
                Ok(t) => t,
                Err(m) => {
                    return Err(m);
                },
            };
            Ok(union(&then_type, &else_type))
        },
        Expr::Loop(body) => {
            let break_types = match collect_break_types(body, env) {
                Ok(ts) => ts,
                Err(m) => {
                    return Err(m);
                },
            };
            if break_types.len() == 0 {
                Ok(Type::Nothing)
            } else {
                Ok(union_all(&break_types))
            }
        },
        Expr::Break(x) => {
            match typecheck_expr(x, env) {
                Ok(_) => Ok(Type::Nothing),
                Err(m) => Err(m),
            }
        },
        Expr::Assign(name, x) => {
            let expr_type = match typecheck_expr(x, env) {
                Ok(t) => t,
                Err(m) => {
                    return Err(m);
                },
            };
            match env.get_var(name.as_str()) {
                Some(var_type) => {
                    if !is_subtype(&expr_type, var_type) {
                        return Err(err_assign(&expr_type, name.as_str(), var_type));
                    }
                    Ok(expr_type)
                },
                None => Err(err_unbound(name.as_str())),
            }
        },
        Expr::Block(_) => typecheck_block(e, env),
        Expr::Call(_, _) => typecheck_call(e, env),
        Expr::Cast(target_type, x) => {
            match typecheck_expr(x, env) {
                Ok(_) => Ok(*target_type),
                Err(m) => Err(m),
            }
        },
    }
}

/// The type of a `let`: each binding typed in the environment that the
/// earlier ones extend, then the body.
fn typecheck_let(e: &Expr, env: &TypeEnv) -> (r: Result<Type, String>)
    requires
        e is Let,
    ensures
        res_view(r) == tc(*e, env@),
    decreases e, 0nat,
{
    match e {
        Expr::Let(bindings, body) => {
            let mut curr_env = env.clone();
            let mut i: usize = 0;
            while i < bindings.len()
                invariant
                    0 <= i <= bindings@.len(),
                    *e == Expr::Let(*bindings, *body),
                    tc(*e, env@) == tc_let(*e, i as int, curr_env@),
                decreases bindings@.len() - i,
            {
                proof {
                    assert(decreases_to!(*e => bindings@[i as int].1));
                }
                let expr_type = match typecheck_expr(&bindings[i].1, &curr_env) {
                    Ok(t) => t,
                    Err(m) => {
                        return Err(m);
                    },
                };
                curr_env = curr_env.with_var(bindings[i].0.clone(), expr_type);
                i = i + 1;
            }
            typecheck_expr(body, &curr_env)
        },
        _ => Ok(Type::Any),
    }
}

/// The type of a block: the type of its last expression, all of them
/// checked in turn.
fn typecheck_block(e: &Expr, env: &TypeEnv) -> (r: Result<Type, String>)
    requires
        e is Block,
    ensures
        res_view(r) == tc(*e, env@),
    decreases e, 0nat,
{
    match e {
        Expr::Block(exprs) => {
            if exprs.len() == 0 {
                return Err(String::from_str("Type error: empty block"));
            }
            let mut last_type = Type::Nothing;
            let mut i: usize = 0;
            while i < exprs.len()
                invariant
                    0 <= i <= exprs@.len(),
                    exprs@.len() > 0,
                    *e == Expr::Block(*exprs),
                    i > 0 ==> tc(*e, env@) == (if i == exprs@.len() {
                        Ok(last_type)
                    } else {
                        tc_block(*e, i as int, env@)
                    }),
                    i == 0 ==> tc(*e, env@) == tc_block(*e, 0, env@),
                decreases exprs@.len() - i,
            {
                proof {
                    assert(decreases_to!(*e => exprs@[i as int]));
                }
                last_type = match typecheck_expr(&exprs[i], env) {
                    Ok(t) => t,
                    Err(m) => {
                        return Err(m);
                    },
                };
                i = i + 1;
            }
            Ok(last_type)
        },
        _ => Ok(Type::Nothing),
    }
}

/// The type of a call: the declared result type of the function, once the
/// number of arguments and the type of each are checked.
fn typecheck_call(e: &Expr, env: &TypeEnv) -> (r: Result<Type, String>)
    requires
        e is Call,
    ensures
        res_view(r) == tc(*e, env@),
    decreases e, 0nat,
{
    match e {
        Expr::Call(name, args) => {
            match env.get_fun(name.as_str()) {
                Some(sig) => {
                    let arg_types = &sig.0;
                    if args.len() != arg_types.len() {
                        return Err(err_arity(name.as_str(), arg_types.len(), args.len()));
                    }
                    let mut i: usize = 0;
                    while i < args.len()
                        invariant
                            0 <= i <= args@.len(),
                            *e == Expr::Call(*name, *args),
                            args@.len() == arg_types@.len(),
                            env@.funs.get(name@) == Some((arg_types@, sig.1)),
                            tc(*e, env@) == (match tc_args(*e, i as int, env@, arg_types@) {
                                Ok(_) => Ok(sig.1),
                                Err(m) => Err(m),
                            }),
                        decreases args@.len() - i,
                    {
                        proof {
                            assert(decreases_to!(*e => args@[i as int]));
                        }
                        let arg_type = match typecheck_expr(&args[i], env) {
                            Ok(t) => t,
                            Err(m) => {
                                return Err(m);
                            },
                        };
                        if !is_subtype(&arg_type, &arg_types[i]) {
                            return Err(err_arg(i, name.as_str(), &arg_type, &arg_types[i]));
                        }
                        i = i + 1;
                    }
                    Ok(sig.1)
                },
                None => Err(err_unknown_fun(name.as_str())),
            }
        },
        _ => Ok(Type::Any),
    }
}

/// Appends `more` to `types`.
fn extend_types(types: &mut Vec<Type>, more: Vec<Type>)
    ensures
        final(types)@ == old(types)@ + more@,
{
    let mut more = more;
    types.append(&mut more);
}

/// The types of the values that the `break`s of `e` leave the enclosing
/// loop with, in the order they occur; the `break`s of inner loops are not
/// counted.
fn collect_break_types(e: &Expr, env: &TypeEnv) -> (r: Result<Vec<Type>, String>)
    ensures
        match r {
            Ok(ts) => breaks(*e, env@) == Ok::<Seq<Type>, Seq<char>>(ts@),
            Err(m) => breaks(*e, env@) == Err::<Seq<Type>, Seq<char>>(m@),
        },
    decreases e, 1nat,
{
    match e {
        Expr::Break(inner) => {
            match typecheck_expr(inner, env) {
                Ok(t) => {
                    let mut v = Vec::new();
                    v.push(t);
                    assert(v@ =~= seq![t]);
                    Ok(v)
                },
                Err(m) => Err(m),
            }
        },
        Expr::Let(bindings, body) => {
            let mut curr_env = env.clone();
            let mut types: Vec<Type> = Vec::new();
            let mut i: usize = 0;
            while i < bindings.len()
                invariant
                    0 <= i <= bindings@.len(),
                    *e == Expr::Let(*bindings, *body),
                    breaks(*e, env@) == (match breaks_let(*e, i as int, curr_env@) {
                        Ok(rest) => Ok(types@ + rest),
                        Err(m) => Err(m),
                    }),
                decreases bindings@.len() - i,
            {
                proof {
                    assert(decreases_to!(*e => bindings@[i as int].1));
                }
                let inner = match collect_break_types(&bindings[i].1, &curr_env) {
                    Ok(ts) => ts,
                    Err(m) => {
                        return Err(m);
                    },
                };
                let expr_type = match typecheck_expr(&bindings[i].1, &curr_env) {
                    Ok(t) => t,
                    Err(m) => {
                        return Err(m);
                    },
                };
                let ghost before = types@;
                let ghost s1 = inner@;
                let ghost old_env = curr_env@;
                extend_types(&mut types, inner);
                curr_env = curr_env.with_var(bindings[i].0.clone(), expr_type);
                i = i + 1;
                proof {
                    assert(curr_env@ == bind_var(old_env, bindings@[i - 1].0@, expr_type));
                    assert(breaks_let(*e, i - 1, old_env) == (match breaks_let(*e, i as int, curr_env@) {
                        Ok(s2) => Ok(s1 + s2),
                        Err(m) => Err(m),
                    }));
                    if let Ok(s2) = breaks_let(*e, i as int, curr_env@) {
                        assert(before + (s1 + s2) =~= types@ + s2);
                    }
                }
            }
            match collect_break_types(body, &curr_env) {
                Ok(ts) => {
                    extend_types(&mut types, ts);
                    Ok(types)
                },
                Err(m) => Err(m),
            }
        },
        Expr::UnOp(_, x) => collect_break_types(x, env),
        Expr::BinOp(_, a, b) => {
            let mut types = match collect_break_types(a, env) {
                Ok(ts) => ts,
                Err(m) => {
                    return Err(m);
                },
            };
            match collect_break_types(b, env) {
                Ok(ts) => {
                    extend_types(&mut types, ts);
                    Ok(types)
                },
                Err(m) => Err(m),
            }
        },
        Expr::If(c, a, b) => {
            let mut types = match collect_break_types(c, env) {
                Ok(ts) => ts,
                Err(m) => {
                    return Err(m);
                },
            };
            match collect_break_types(a, env) {
                Ok(ts) => extend_types(&mut types, ts),
                Err(m) => {
                    return Err(m);
                },
            }
            match collect_break_types(b, env) {
                Ok(ts) => {
                    extend_types(&mut types, ts);
                    Ok(types)
                },
                Err(m) => Err(m),
            }
        },
        Expr::Loop(_) => {
            let v: Vec<Type> = Vec::new();
            assert(v@ =~= Seq::<Type>::empty());
            Ok(v)
        },
        Expr::Assign(_, x) => collect_break_types(x, env),
        Expr::Block(exprs) => collect_list_breaks(e, exprs, env),
        Expr::Call(_, args) => collect_list_breaks(e, args, env),
        Expr::Cast(_, x) => collect_break_types(x, env),
        _ => {
            let v: Vec<Type> = Vec::new();
            assert(v@ =~= Seq::<Type>::empty());
            Ok(v)
        },
    }
}

/// The `break` types of the expressions `es` of a block or call `e`.
fn collect_list_breaks(e: &Expr, es: &Vec<Expr>, env: &TypeEnv) -> (r: Result<Vec<Type>, String>)
    requires
        (e matches Expr::Block(v) && v@ == es@) || (e matches Expr::Call(_, v) && v@ == es@),
    ensures
        match r {
            Ok(ts) => breaks(*e, env@) == Ok::<Seq<Type>, Seq<char>>(ts@),
            Err(m) => breaks(*e, env@) == Err::<Seq<Type>, Seq<char>>(m@),
        },
    decreases e, 0nat,
{
    let mut types: Vec<Type> = Vec::new();
    let mut i: usize = 0;
    assert(types@ + Seq::<Type>::empty() =~= types@);
    while i < es.len()
        invariant
            0 <= i <= es@.len(),
            (e matches Expr::Block(v) && v@ == es@) || (e matches Expr::Call(_, v) && v@ == es@),
            breaks(*e, env@) == (match breaks_list(*e, i as int, env@) {
                Ok(rest) => Ok(types@ + rest),
                Err(m) => Err(m),
            }),
        decreases es@.len() - i,
    {
        proof {
            assert(decreases_to!(*e => es@[i as int]));
        }
        let inner = match collect_break_types(&es[i], env) {
            Ok(ts) => ts,
            Err(m) => {
                return Err(m);
            },
        };
        let ghost before = types@;
        let ghost s1 = inner@;
        extend_types(&mut types, inner);
        i = i + 1;
        proof {
            assert(breaks_list(*e, i - 1, env@) == (match breaks_list(*e, i as int, env@) {
                Ok(s2) => Ok(s1 + s2),
                Err(m) => Err(m),
            }));
            if let Ok(s2) = breaks_list(*e, i as int, env@) {
                assert(before + (s1 + s2) =~= types@ + s2);
            }
        }
    }
    proof {
        assert(types@ + Seq::<Type>::empty() =~= types@);
    }
    Ok(types)
}

/// The signature that a definition declares: its annotations, or `Any` for
/// every argument and the result when it has none.
pub open spec fn fun_signature(def: FunDef) -> (Seq<Type>, Type) {
    match def.ret_type {
        Some(rt) => (def.arg_types@, rt),
        None => (Seq::new(def.args@.len(), |i: int| Type::Any), Type::Any),
    }
}

/// `env` with the first `n` names bound to the types at the same positions.
pub open spec fn bind_params(env: TEnv, names: Seq<String>, types: Seq<Type>, n: int) -> TEnv
    decreases n,
{
    if n <= 0 {
        env
    } else {
        bind_var(bind_params(env, names, types, n - 1), names[n - 1]@, types[n - 1])
    }
}

/// The environment in which the body of `def` is checked.
pub open spec fn body_env(def: FunDef, env: TEnv) -> TEnv {
    match def.ret_type {
        Some(_) => bind_params(
            env,
            def.args@,
            def.arg_types@,
            if def.args@.len() <= def.arg_types@.len() {
                def.args@.len() as int
            } else {
                def.arg_types@.len() as int
            },
        ),
        None => bind_params(
            env,
            def.args@,
            Seq::new(def.args@.len(), |i: int| Type::Any),
            def.args@.len() as int,
        ),
    }
}

/// Whether the body of `def` has a type below the declared result type
/// (`Any` when none is declared), or the message of the first type error.
pub open spec fn check_fundef(def: FunDef, env: TEnv) -> Result<(), Seq<char>> {
    match tc(*def.body, body_env(def, env)) {
        Err(m) => Err(m),
        Ok(t) => match def.ret_type {
            Some(expected) => if subtype(t, expected) {
                Ok(())
            } else {
                Err(msg_fun_body(def.name@, t, expected))
            },
            None => if subtype(t, Type::Any) {
                Ok(())
            } else {
                Err(msg_unannotated_body(def.name@, t))
            },
        },
    }
}

/// `env` with the signatures of the first `n` definitions bound, a later
/// definition of a name replacing an earlier one.
pub open spec fn bind_defs(env: TEnv, defs: Seq<FunDef>, n: int) -> TEnv
    decreases n,
{
    if n <= 0 {
        env
    } else {
        let d = defs[n - 1];
        bind_fun(bind_defs(env, defs, n - 1), d.name@, fun_signature(d).0, fun_signature(d).1)
    }
}

/// The definitions from the `i`-th on, checked in order.
pub open spec fn check_defs(defs: Seq<FunDef>, env: TEnv, i: int) -> Result<(), Seq<char>>
    decreases defs.len() - i,
{
    if 0 <= i < defs.len() {
        match check_fundef(defs[i], env) {
            Ok(_) => check_defs(defs, env, i + 1),
            Err(m) => Err(m),
        }
    } else {
        Ok(())
    }
}

/// The environment that binds nothing.
pub open spec fn empty_env() -> TEnv {
    TEnv { vars: Map::empty(), funs: Map::empty() }
}

/// The type of a program whose input has type `input_type` (`Any` when it
/// is not given), or the message of the first type error: all function
/// signatures are bound first, then each definition is checked, then the
/// main expression.
pub open spec fn tc_program(prog: Program, input_type: Option<Type>) -> Result<Type, Seq<char>> {
    let env = bind_defs(empty_env(), prog.defs@, prog.defs@.len() as int);
    match check_defs(prog.defs@, env, 0) {
        Err(m) => Err(m),
        Ok(_) => match input_type {
            Some(t) => tc(*prog.main, bind_var(env, "input"@, t)),
            None => tc(*prog.main, env),
        },
    }
}

/// Copies a list of types.
fn copy_types(ts: &Vec<Type>) -> (r: Vec<Type>)
    ensures
        r@ == ts@,
{
    let mut out: Vec<Type> = Vec::new();
    let mut i: usize = 0;
    while i < ts.len()
        invariant
            0 <= i <= ts@.len(),
            out@ == ts@.subrange(0, i as int),
        decreases ts@.len() - i,
    {
        out.push(ts[i]);
        i = i + 1;
        assert(out@ =~= ts@.subrange(0, i as int));
    }
    assert(ts@.subrange(0, i as int) =~= ts@);
    out
}

/// The signature that a definition declares.
pub fn get_function_signature(def: &FunDef) -> (r: (Vec<Type>, Type))
    ensures
        (r.0@, r.1) == fun_signature(*def),
{
    match &def.ret_type {
        Some(ret_ty) => (copy_types(&def.arg_types), *ret_ty),
        None => {
            let mut arg_types: Vec<Type> = Vec::new();
            let mut i: usize = 0;
            while i < def.args.len()
                invariant
                    0 <= i <= def.args@.len(),
                    arg_types@ =~= Seq::new(i as nat, |j: int| Type::Any),
                decreases def.args@.len() - i,
            {
                arg_types.push(Type::Any);
                i = i + 1;
                assert(arg_types@ =~= Seq::new(i as nat, |j: int| Type::Any));
            }
            (arg_types, Type::Any)
        },
    }
}

fn err_fun_body(f: &str, t: &Type, expected: &Type) -> (r: String)
    ensures
        r@ == msg_fun_body(f@, *t, *expected),
{
    let mut s = String::from_str("Type error: function ");
    push_str(&mut s, f);
    push_str(&mut s, " body has type ");
    push_str(&mut s, t.to_string().as_str());
    push_str(&mut s, " but expected ");
    push_str(&mut s, expected.to_string().as_str());
    s
}

fn err_unannotated_body(f: &str, t: &Type) -> (r: String)
    ensures
        r@ == msg_unannotated_body(f@, *t),
{
    let mut s = String::from_str("Type error: unannotated function ");
    push_str(&mut s, f);
    push_str(&mut s, " body has type ");
    push_str(&mut s, t.to_string().as_str());
    s
}

/// Checks that the body of `def` has a type below its declared result type,
/// with its parameters bound to their declared types (`Any` when the
/// definition is not annotated).
pub fn typecheck_fundef(def: &FunDef, env: &TypeEnv) -> (r: Result<(), String>)
    ensures
        res_view(r) == check_fundef(*def, env@),
{
    let mut body_env = env.clone();
    match &def.ret_type {
        Some(expected_ret) => {
            let n: usize = if def.args.len() <= def.arg_types.len() {
                def.args.len()
            } else {
                def.arg_types.len()
            };
            let mut i: usize = 0;
            while i < n
                invariant
                    0 <= i <= n,
                    n <= def.args@.len(),
                    n <= def.arg_types@.len(),
                    body_env@ == bind_params(env@, def.args@, def.arg_types@, i as int),
                decreases n - i,
            {
                body_env = body_env.with_var(def.args[i].clone(), def.arg_types[i]);
                i = i + 1;
            }
            let body_type = match typecheck_expr(&def.body, &body_env) {
                Ok(t) => t,
                Err(m) => {
                    return Err(m);
                },
            };
            if !is_subtype(&body_type, expected_ret) {
                return Err(err_fun_body(def.name.as_str(), &body_type, expected_ret));
            }
        },
        None => {
            let ghost anys = Seq::new(def.args@.len(), |j: int| Type::Any);
            let mut i: usize = 0;
            while i < def.args.len()
                invariant
                    0 <= i <= def.args@.len(),
                    anys == Seq::new(def.args@.len(), |j: int| Type::Any),
                    body_env@ == bind_params(env@, def.args@, anys, i as int),
                decreases def.args@.len() - i,
            {
                body_env = body_env.with_var(def.args[i].clone(), Type::Any);
                i = i + 1;
            }
            let body_type = match typecheck_expr(&def.body, &body_env) {
                Ok(t) => t,
                Err(m) => {
                    return Err(m);
                },
            };
            if !is_subtype(&body_type, &Type::Any) {
                return Err(err_unannotated_body(def.name.as_str(), &body_type));
            }
        },
    }
    Ok(())
}

/// The type of a program whose input has type `input_type`, or the message
/// of the first type error.
pub fn typecheck_program(prog: &Program, input_type: Option<Type>) -> (r: Result<Type, String>)
    ensures
        res_view(r) == tc_program(*prog, input_type),
{
    let mut env = TypeEnv::new();
    let mut i: usize = 0;
    while i < prog.defs.len()
        invariant
            0 <= i <= prog.defs@.len(),
            env@ == bind_defs(empty_env(), prog.defs@, i as int),
        decreases prog.defs@.len() - i,
    {
        let (arg_types, ret_type) = get_function_signature(&prog.defs[i]);
        env = env.with_fun(prog.defs[i].name.clone(), arg_types, ret_type);
        i = i + 1;
    }
    let mut j: usize = 0;
    while j < prog.defs.len()
        invariant
            0 <= j <= prog.defs@.len(),
            env@ == bind_defs(empty_env(), prog.defs@, prog.defs@.len() as int),
            check_defs(prog.defs@, env@, 0) == check_defs(prog.defs@, env@, j as int),
        decreases prog.defs@.len() - j,
    {
        match typecheck_fundef(&prog.defs[j], &env) {
            Ok(_) => {},
            Err(m) => {
                return Err(m);
            },
        }
        j = j + 1;
    }
    let main_env = match input_type {
        Some(ty) => env.with_var(String::from_str("input"), ty),
        None => env,
    };
    typecheck_expr(&prog.main, &main_env)
}

} // verus!
