//! The compile-time context: stack slots in use, and the names in scope.
use vstd::prelude::*;
use crate::maps::{
    i64_map_contents, i64_map_new, i64_map_update, i64_map_clone, i32_map_contents, i32_map_new,
    i32_map_update, i32_map_clone,
};

verus! {

/// The compile-time context.
pub struct Context {
    /// The next free stack slot (slots are 8 bytes below `rsp`).
    pub si: i32,
    /// Variables defined at the prompt, with the address of their cell.
    pub define_env: im::HashMap<String, i64>,
    /// Functions, with their number of arguments.
    pub fun_env: im::HashMap<String, i32>,
    /// Local variables, with their offset below `rsp`.
    pub stack_env: im::HashMap<String, i32>,
    /// The label that a `break` jumps to, inside a loop.
    pub break_label: Option<String>,
}

/// What a context holds: the next free slot, and the bindings of each kind,
/// keyed by the characters of each name.
pub struct CtxView {
    pub si: int,
    pub defines: Map<Seq<char>, i64>,
    pub funs: Map<Seq<char>, i32>,
    pub stack: Map<Seq<char>, i32>,
    pub break_label: Option<Seq<char>>,
}

/// An optional string, read as characters.
pub open spec fn opt_text(o: Option<String>) -> Option<Seq<char>> {
    match o {
        Some(s) => Some(s@),
        None => None,
    }
}

impl View for Context {
    type V = CtxView;

    open spec fn view(&self) -> CtxView {
        CtxView {
            si: self.si as int,
            defines: i64_map_contents(self.define_env),
            funs: i32_map_contents(self.fun_env),
            stack: i32_map_contents(self.stack_env),
            break_label: opt_text(self.break_label),
        }
    }
}

/// Copies an optional string.
pub fn copy_opt_string(o: &Option<String>) -> (r: Option<String>)
    ensures
        opt_text(r) == opt_text(*o),
{
    match o {
        Some(s) => Some(s.clone()),
        None => None,
    }
}

impl Clone for Context {
    fn clone(&self) -> (r: Self)
        ensures
            r@ == self@,
    {
        Context {
            si: self.si,
            define_env: i64_map_clone(&self.define_env),
            fun_env: i32_map_clone(&self.fun_env),
            stack_env: i32_map_clone(&self.stack_env),
            break_label: copy_opt_string(&self.break_label),
        }
    }
}

impl Context {
    /// The context at the start: slot 1 is the first free one, nothing is
    /// bound, and no loop is open.
    pub fn new() -> (r: Self)
        ensures
            r@ == (CtxView {
                si: 1,
                defines: Map::empty(),
                funs: Map::empty(),
                stack: Map::empty(),
                break_label: None,
            }),
    {
        Context {
            si: 1,
            stack_env: i32_map_new(),
            define_env: i64_map_new(),
            fun_env: i32_map_new(),
            break_label: None,
        }
    }

    /// Moves the next free slot `n` slots on.
    pub fn increment_si_by(&mut self, n: i32)
        requires
            i32::MIN <= old(self).si + n <= i32::MAX,
        ensures
            final(self)@ == (CtxView { si: old(self)@.si + n, ..old(self)@ }),
    {
        self.si = self.si + n;
    }

    /// Binds a variable defined at the prompt to the address of its cell.
    pub fn insert_define(&mut self, name: String, ptr: i64)
        ensures
            final(self)@ == (CtxView { defines: old(self)@.defines.insert(name@, ptr), ..old(self)@ }),
    {
        self.define_env = i64_map_update(&self.define_env, name, ptr);
    }

    /// Replaces the functions in scope.
    pub fn with_fun_env(&mut self, fun_env: im::HashMap<String, i32>)
        ensures
            final(self)@ == (CtxView { funs: i32_map_contents(fun_env), ..old(self)@ }),
    {
        self.fun_env = fun_env;
    }

    /// Binds a function to its number of arguments.
    pub fn insert_fun(&mut self, name: String, arg_count: i32)
        ensures
            final(self)@ == (CtxView { funs: old(self)@.funs.insert(name@, arg_count), ..old(self)@ }),
    {
        self.fun_env = i32_map_update(&self.fun_env, name, arg_count);
    }

    /// Binds a local variable to its offset below `rsp`.
    pub fn insert_stack(&mut self, name: String, offset: i32)
        ensures
            final(self)@ == (CtxView { stack: old(self)@.stack.insert(name@, offset), ..old(self)@ }),
    {
        self.stack_env = i32_map_update(&self.stack_env, name, offset);
    }

    /// Forgets all local variables.
    pub fn clear_stack(&mut self)
        ensures
            final(self)@ == (CtxView { stack: Map::empty(), ..old(self)@ }),
    {
        self.stack_env = i32_map_new();
    }

    /// Sets the label that a `break` jumps to.
    pub fn with_break_label(&mut self, label: String)
        ensures
            final(self)@ == (CtxView { break_label: Some(label@), ..old(self)@ }),
    {
        self.break_label = Some(label);
    }

    /// Leaves the enclosing loop: a `break` has nowhere to jump.
    pub fn clear_break_label(&mut self)
        ensures
            final(self)@ == (CtxView { break_label: None, ..old(self)@ }),
    {
        self.break_label = None;
    }

    /// The offset below `rsp` of the next free slot.
    pub fn curr_offset(&self) -> (r: i32)
        requires
            i32::MIN <= self.si * 8 <= i32::MAX,
        ensures
            r == self.si * 8,
    {
        self.si * 8
    }
}

} // verus!
