//! Runtime values and the environment arena.
//!
//! [`Object`] is the closed union of runtime values. [`Context`] is an arena
//! of environments indexed by stable handles: a closure stores the handle of
//! its captured environment, so several closures and the active call stack
//! can all reach the same scope without aliasing. Each exec type has a
//! mathematical model ([`Obj`], [`EnvModel`]) that the contracts speak of.
use crate::ast::{Expr, Stmt};
use std::rc::Rc;
use vstd::hash_map::StringHashMap;
use vstd::prelude::*;

verus! {

broadcast use vstd::std_specs::vec::axiom_vec_index_decreases;

/// A runtime value.
#[derive(Debug)]
pub enum Object {
    Integer(i64),
    /// A floating-point value, carried as its IEEE 754 bit pattern; the
    /// evaluator never computes with it.
    Float(u64),
    Boolean(bool),
    String(String),
    /// The wildcard placeholder value.
    Underscore,
    /// Absence: the result of statements that produce nothing.
    Null,
    Array(Vec<Object>),
    /// A closure: parameter names, body, and the handle of the environment
    /// captured when the function literal was evaluated.
    Function { parameters: Rc<Vec<String>>, body: Rc<Vec<Stmt>>, context: usize },
    /// A reference: the value its target held when the reference was taken,
    /// and the expression it was taken from (used to resolve a later
    /// write-through).
    Reference { value: Box<Object>, to: Rc<Expr> },
    /// Not user-visible: the control-flow signal a `return` statement raises,
    /// unwrapped again at the function-application boundary.
    ReturnValue { value: Box<Object> },
}

/// The mathematical model of a runtime value.
#[verifier::ext_equal]
pub enum Obj {
    Int(i64),
    Float(u64),
    Bool(bool),
    Str(Seq<char>),
    Underscore,
    Null,
    Arr(Seq<Obj>),
    Func { parameters: Seq<String>, body: Seq<Stmt>, context: int },
    Ref { value: Box<Obj>, to: Expr },
    Ret { value: Box<Obj> },
}

/// The model of a runtime value.
pub open spec fn obj_view(o: Object) -> Obj
    decreases o,
{
    match o {
        Object::Integer(i) => Obj::Int(i),
        Object::Float(bits) => Obj::Float(bits),
        Object::Boolean(b) => Obj::Bool(b),
        Object::String(s) => Obj::Str(s@),
        Object::Underscore => Obj::Underscore,
        Object::Null => Obj::Null,
        Object::Array(elems) => Obj::Arr(objs_view(elems@)),
        Object::Function { parameters, body, context } => Obj::Func {
            parameters: parameters@,
            body: body@,
            context: context as int,
        },
        Object::Reference { value, to } => Obj::Ref {
            value: Box::new(obj_view(*value)),
            to: to@,
        },
        Object::ReturnValue { value } => Obj::Ret { value: Box::new(obj_view(*value)) },
    }
}

/// The models of a sequence of runtime values, elementwise.
pub open spec fn objs_view(s: Seq<Object>) -> Seq<Obj>
    decreases s,
{
    if s.len() == 0 {
        Seq::empty()
    } else {
        seq![obj_view(s[0])] + objs_view(s.drop_first())
    }
}

/// `objs_view` is the elementwise model: same length, model of each element.
pub proof fn lemma_objs_view(s: Seq<Object>)
    ensures
        objs_view(s).len() == s.len(),
        forall|i: int| 0 <= i < s.len() ==> objs_view(s)[i] == obj_view(s[i]),
    decreases s,
{
    if s.len() > 0 {
        lemma_objs_view(s.drop_first());
    }
}

impl View for Object {
    type V = Obj;

    open spec fn view(&self) -> Obj {
        obj_view(*self)
    }
}

/// The model of an optional runtime value.
pub open spec fn opt_obj_view(o: Option<Object>) -> Option<Obj> {
    match o {
        Some(v) => Some(obj_view(v)),
        None => None,
    }
}

/// Relies on `Rc::clone` of std: the returned pointer shares the same value.
#[verifier::external_body]
pub(crate) fn rc_clone<T>(rc: &Rc<T>) -> (res: Rc<T>)
    ensures
        res == *rc,
{
    Rc::clone(rc)
}

impl Clone for Object {
    /// A structural copy with the same model; array elements are copied,
    /// closure parameter lists and bodies stay shared.
    fn clone(&self) -> (res: Object)
        ensures
            res@ == self@,
        decreases *self,
    {
        match self {
            Object::Integer(i) => Object::Integer(*i),
            Object::Float(bits) => Object::Float(*bits),
            Object::Boolean(b) => Object::Boolean(*b),
            Object::String(s) => Object::String(s.clone()),
            Object::Underscore => Object::Underscore,
            Object::Null => Object::Null,
            Object::Array(elems) => {
                let mut copy: Vec<Object> = Vec::new();
                let mut i: usize = 0;
                while i < elems.len()
                    invariant
                        *self == Object::Array(*elems),
                        i <= elems.len(),
                        copy@.len() == i as int,
                        forall|j: int| 0 <= j < i ==> obj_view(copy@[j]) == obj_view(elems@[j]),
                    decreases elems.len() - i,
                {
                    proof {
                        assert(decreases_to!(*self => (*self)->Array_0));
                        assert((*self)->Array_0 == *elems);
                        assert(decreases_to!(*elems => elems@));
                        assert(decreases_to!(elems@ => elems@[i as int]));
                    }
                    copy.push(elems[i].clone());
                    i = i + 1;
                }
                proof {
                    lemma_objs_view(copy@);
                    lemma_objs_view(elems@);
                    assert(objs_view(copy@) =~= objs_view(elems@));
                }
                Object::Array(copy)
            },
            Object::Function { parameters, body, context } => Object::Function {
                parameters: rc_clone(parameters),
                body: rc_clone(body),
                context: *context,
            },
            Object::Reference { value, to } => Object::Reference {
                value: Box::new((**value).clone()),
                to: rc_clone(to),
            },
            Object::ReturnValue { value } => Object::ReturnValue {
                value: Box::new((**value).clone()),
            },
        }
    }
}

/// A namespace table. The current language keeps it only as an extension
/// point: nothing reads it, since dotted identifiers are flattened into one
/// literal key.
pub struct Module {
    pub functions: StringHashMap<Object>,
}

/// One environment: its own bindings, the handle of the enclosing
/// environment, and its namespace tables.
pub struct Env {
    pub store: StringHashMap<Object>,
    pub outer: Option<usize>,
    pub modules: StringHashMap<Module>,
}

/// The model of one environment.
#[verifier::ext_equal]
pub struct EnvModel {
    pub store: Map<Seq<char>, Obj>,
    pub outer: Option<int>,
    pub modules: Map<Seq<char>, Map<Seq<char>, Obj>>,
}

/// The model of a namespace table.
pub open spec fn module_view(m: Module) -> Map<Seq<char>, Obj> {
    m.functions@.map_values(|o: Object| obj_view(o))
}

/// The model of one environment.
pub open spec fn env_view(e: Env) -> EnvModel {
    EnvModel {
        store: e.store@.map_values(|o: Object| obj_view(o)),
        outer: match e.outer {
            Some(p) => Some(p as int),
            None => None,
        },
        modules: e.modules@.map_values(|m: Module| module_view(m)),
    }
}

impl View for Env {
    type V = EnvModel;

    open spec fn view(&self) -> EnvModel {
        env_view(*self)
    }
}

/// A freshly created, empty environment under the given parent.
pub open spec fn empty_env_model(outer: Option<int>) -> EnvModel {
    EnvModel { store: Map::empty(), outer, modules: Map::empty() }
}

/// The arena of environments. Handles are indices; they stay stable because
/// the arena only ever grows.
pub struct Context {
    pub envs: Vec<Env>,
}

impl View for Context {
    type V = Seq<EnvModel>;

    open spec fn view(&self) -> Seq<EnvModel> {
        Seq::new(self.envs@.len(), |i: int| env_view(self.envs@[i]))
    }
}

/// The environment along the chain from `env` outward that defines `key`:
/// the innermost one wins. Walks only parent links that point strictly
/// inward, which every environment this library builds does.
pub open spec fn chain_resolve(envs: Seq<EnvModel>, env: int, key: Seq<char>) -> Option<int>
    decreases env,
{
    if env < 0 || env >= envs.len() {
        None
    } else if envs[env].store.dom().contains(key) {
        Some(env)
    } else {
        match envs[env].outer {
            Some(p) => if 0 <= p < env {
                chain_resolve(envs, p, key)
            } else {
                None
            },
            None => None,
        }
    }
}

/// The value bound to `key`, read from the nearest environment up the chain.
pub open spec fn chain_lookup(envs: Seq<EnvModel>, env: int, key: Seq<char>) -> Option<Obj> {
    match chain_resolve(envs, env, key) {
        Some(e) => Some(envs[e].store[key]),
        None => None,
    }
}

/// The arena after `key` is bound to `v` in environment `env` alone; out of
/// range, nothing changes.
pub open spec fn arena_define(envs: Seq<EnvModel>, env: int, key: Seq<char>, v: Obj) -> Seq<
    EnvModel,
> {
    if 0 <= env < envs.len() {
        envs.update(
            env,
            EnvModel { store: envs[env].store.insert(key, v), ..envs[env] },
        )
    } else {
        envs
    }
}

impl Context {
    /// A fresh arena holding only the root environment, which has no parent
    /// and lives for the whole run.
    pub fn new() -> (c: Context)
        ensures
            c@ =~~= seq![empty_env_model(None)],
    {
        let root = Env { store: StringHashMap::new(), outer: None, modules: StringHashMap::new() };
        let c = Context { envs: vec![root] };
        proof {
            assert(c@ =~~= seq![empty_env_model(None)]);
        }
        c
    }

    /// Appends a fresh, empty environment under `outer` and hands back its
    /// stable handle.
    pub fn push_env(&mut self, outer: Option<usize>) -> (id: usize)
        ensures
            id == old(self)@.len(),
            final(self)@ =~~= old(self)@.push(
                empty_env_model(
                    match outer {
                        Some(p) => Some(p as int),
                        None => None,
                    },
                ),
            ),
    {
        let id = self.envs.len();
        let e = Env { store: StringHashMap::new(), outer, modules: StringHashMap::new() };
        self.envs.push(e);
        id
    }

    /// Reads `key` from the nearest environment along the chain from `env`
    /// outward; `None` once the chain is exhausted.
    pub fn get(&self, env: usize, key: &str) -> (r: Option<Object>)
        ensures
            opt_obj_view(r) == chain_lookup(self@, env as int, key@),
        decreases env,
    {
        if env >= self.envs.len() {
            return None;
        }
        match self.envs[env].store.get(key) {
            Some(o) => Some(o.clone()),
            None => match self.envs[env].outer {
                Some(p) => if p < env {
                    self.get(p, key)
                } else {
                    None
                },
                None => None,
            },
        }
    }

    /// Binds `key` to `value` in environment `env` itself, inserting or
    /// overwriting; no other environment changes.
    pub fn set(&mut self, env: usize, key: &str, value: Object)
        ensures
            final(self)@ == arena_define(old(self)@, env as int, key@, value@),
    {
        let ghost pre = self@;
        if env < self.envs.len() {
            let e = &mut self.envs[env];
            e.store.insert(key.to_owned(), value);
            proof {
                assert(final(e)@.store =~~= pre[env as int].store.insert(key@, value@));
                assert(final(e)@ =~~= EnvModel {
                    store: pre[env as int].store.insert(key@, value@),
                    ..pre[env as int]
                });
                assert(self@ =~~= arena_define(pre, env as int, key@, value@));
            }
        }
    }

    /// Mutates the binding of `key` in the first environment up the chain
    /// that already has one, and stops there. Returns whether a binding was
    /// found; when none is, the arena is untouched — a failed mutation never
    /// creates a binding.
    pub fn update(&mut self, env: usize, key: &str, value: Object) -> (r: bool)
        ensures
            match chain_resolve(old(self)@, env as int, key@) {
                Some(e) => r && final(self)@ == arena_define(old(self)@, e, key@, value@),
                None => !r && final(self)@ == old(self)@,
            },
        decreases env,
    {
        if env >= self.envs.len() {
            return false;
        }
        if self.envs[env].store.contains_key(key) {
            self.set(env, key, value);
            true
        } else {
            match self.envs[env].outer {
                Some(p) => if p < env {
                    self.update(p, key, value)
                } else {
                    false
                },
                None => false,
            }
        }
    }
}

} // verus!
