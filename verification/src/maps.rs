//! Persistent hash maps of the `im` crate, keyed by names. Verus sees a map
//! only through a name for what it holds, keyed by the characters of each
//! name; the wrappers below state what each method of `im::HashMap` that the
//! compiler calls does to that content. Keys are `String`s, whose hashing and
//! equality go by their characters, so a lookup by `&str` finds the binding
//! of the name with the same characters.
use vstd::prelude::*;
use crate::ast::Type;

verus! {

#[verifier::external_type_specification]
#[verifier::external_body]
#[verifier::reject_recursive_types(K)]
#[verifier::reject_recursive_types(V)]
#[verifier::reject_recursive_types(S)]
pub struct ExImHashMap<K, V, S>(im::HashMap<K, V, S>);

/// The map with no bindings.
pub open spec fn no_bindings<V>() -> Map<Seq<char>, V> {
    Map::empty()
}

/// What a name-to-`i64` map holds.
pub uninterp spec fn i64_map_contents(m: im::HashMap<String, i64>) -> Map<Seq<char>, i64>;

/// `im::HashMap::new` on a name-to-`i64` map: a map that holds nothing.
#[verifier::external_body]
pub(crate) fn i64_map_new() -> (r: im::HashMap<String, i64>)
    ensures
        i64_map_contents(r) == no_bindings::<i64>(),
{
    im::HashMap::new()
}

/// `im::HashMap::update` on a name-to-`i64` map: a new map that also binds
/// `k` to `v`, in place of an earlier binding of `k`; `m` is left as it was.
#[verifier::external_body]
pub(crate) fn i64_map_update(m: &im::HashMap<String, i64>, k: String, v: i64) -> (r: im::HashMap<String, i64>)
    ensures
        i64_map_contents(r) == i64_map_contents(*m).insert(k@, v),
{
    m.update(k, v)
}

/// `im::HashMap::get` on a name-to-`i64` map: the value bound to `k`, if any.
#[verifier::external_body]
pub(crate) fn i64_map_get(m: &im::HashMap<String, i64>, k: &str) -> (r: Option<i64>)
    ensures
        r == i64_map_contents(*m).get(k@),
{
    m.get(k).copied()
}

/// `im::HashMap::clone` on a name-to-`i64` map: a map with the same bindings.
#[verifier::external_body]
pub(crate) fn i64_map_clone(m: &im::HashMap<String, i64>) -> (r: im::HashMap<String, i64>)
    ensures
        i64_map_contents(r) == i64_map_contents(*m),
{
    m.clone()
}

/// What a name-to-`i32` map holds.
pub uninterp spec fn i32_map_contents(m: im::HashMap<String, i32>) -> Map<Seq<char>, i32>;

/// `im::HashMap::new` on a name-to-`i32` map: a map that holds nothing.
#[verifier::external_body]
pub(crate) fn i32_map_new() -> (r: im::HashMap<String, i32>)
    ensures
        i32_map_contents(r) == no_bindings::<i32>(),
{
    im::HashMap::new()
}

/// `im::HashMap::update` on a name-to-`i32` map: a new map that also binds
/// `k` to `v`, in place of an earlier binding of `k`; `m` is left as it was.
#[verifier::external_body]
pub(crate) fn i32_map_update(m: &im::HashMap<String, i32>, k: String, v: i32) -> (r: im::HashMap<String, i32>)
    ensures
        i32_map_contents(r) == i32_map_contents(*m).insert(k@, v),
{
    m.update(k, v)
}

/// `im::HashMap::get` on a name-to-`i32` map: the value bound to `k`, if any.
#[verifier::external_body]
pub(crate) fn i32_map_get(m: &im::HashMap<String, i32>, k: &str) -> (r: Option<i32>)
    ensures
        r == i32_map_contents(*m).get(k@),
{
    m.get(k).copied()
}

/// `im::HashMap::clone` on a name-to-`i32` map: a map with the same bindings.
#[verifier::external_body]
pub(crate) fn i32_map_clone(m: &im::HashMap<String, i32>) -> (r: im::HashMap<String, i32>)
    ensures
        i32_map_contents(r) == i32_map_contents(*m),
{
    m.clone()
}

/// What a name-to-type map holds.
pub uninterp spec fn type_map_contents(m: im::HashMap<String, Type>) -> Map<Seq<char>, Type>;

/// `im::HashMap::new` on a name-to-type map: a map that holds nothing.
#[verifier::external_body]
pub(crate) fn type_map_new() -> (r: im::HashMap<String, Type>)
    ensures
        type_map_contents(r) == no_bindings::<Type>(),
{
    im::HashMap::new()
}

/// `im::HashMap::update` on a name-to-type map: a new map that also binds
/// `k` to `v`, in place of an earlier binding of `k`; `m` is left as it was.
#[verifier::external_body]
pub(crate) fn type_map_update(m: &im::HashMap<String, Type>, k: String, v: Type) -> (r: im::HashMap<String, Type>)
    ensures
        type_map_contents(r) == type_map_contents(*m).insert(k@, v),
{
    m.update(k, v)
}

/// `im::HashMap::get` on a name-to-type map: a reference to the type bound to `k`, if any.
#[verifier::external_body]
pub(crate) fn type_map_get<'a>(m: &'a im::HashMap<String, Type>, k: &str) -> (r: Option<&'a Type>)
    ensures
        match r {
            Some(t) => type_map_contents(*m).get(k@) == Some(*t),
            None => !type_map_contents(*m).contains_key(k@),
        },
{
    m.get(k)
}

/// `im::HashMap::clone` on a name-to-type map: a map with the same bindings.
#[verifier::external_body]
pub(crate) fn type_map_clone(m: &im::HashMap<String, Type>) -> (r: im::HashMap<String, Type>)
    ensures
        type_map_contents(r) == type_map_contents(*m),
{
    m.clone()
}

/// What a function-signature map holds: for each function name, the
/// argument types and the result type.
pub uninterp spec fn sig_map_contents(m: im::HashMap<String, (Vec<Type>, Type)>) -> Map<Seq<char>, (Seq<Type>, Type)>;

/// `im::HashMap::new` on a signature map: a map that holds nothing.
#[verifier::external_body]
pub(crate) fn sig_map_new() -> (r: im::HashMap<String, (Vec<Type>, Type)>)
    ensures
        sig_map_contents(r) == no_bindings::<(Seq<Type>, Type)>(),
{
    im::HashMap::new()
}

/// `im::HashMap::update` on a signature map: a new map that also binds `k`
/// to `v`, in place of an earlier binding of `k`; `m` is left as it was.
#[verifier::external_body]
pub(crate) fn sig_map_update(m: &im::HashMap<String, (Vec<Type>, Type)>, k: String, v: (Vec<Type>, Type)) -> (r: im::HashMap<String, (Vec<Type>, Type)>)
    ensures
        sig_map_contents(r) == sig_map_contents(*m).insert(k@, (v.0@, v.1)),
{
    m.update(k, v)
}

/// `im::HashMap::get` on a signature map: a reference to the signature bound
/// to `k`, if any.
#[verifier::external_body]
pub(crate) fn sig_map_get<'a>(m: &'a im::HashMap<String, (Vec<Type>, Type)>, k: &str) -> (r: Option<&'a (Vec<Type>, Type)>)
    ensures
        match r {
            Some(p) => sig_map_contents(*m).get(k@) == Some((p.0@, p.1)),
            None => !sig_map_contents(*m).contains_key(k@),
        },
{
    m.get(k)
}

/// `im::HashMap::clone` on a signature map: a map with the same bindings.
#[verifier::external_body]
pub(crate) fn sig_map_clone(m: &im::HashMap<String, (Vec<Type>, Type)>) -> (r: im::HashMap<String, (Vec<Type>, Type)>)
    ensures
        sig_map_contents(r) == sig_map_contents(*m),
{
    m.clone()
}

} // verus!
