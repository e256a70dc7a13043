use vstd::prelude::*;
use vstd::hash_map::StringHashMap;
use crate::value::{Val, Value, clone_value};

verus! {

/// The variables of a run: one flat mapping from names to values.
pub struct Env {
    vars: StringHashMap<Value>,
}

impl Env {
    /// The variables, each name with the model of its value.
    pub closed spec fn model(&self) -> Map<Seq<char>, Val> {
        self.vars@.map_values(|v: Value| v.model())
    }

    /// An environment with no variables.
    pub fn new() -> (r: Env)
        ensures
            r.model() == Map::<Seq<char>, Val>::empty(),
    {
        let r = Env { vars: StringHashMap::new() };
        assert(r.model() =~= Map::<Seq<char>, Val>::empty());
        r
    }

    /// A copy of the value bound to `name`, if any.
    pub fn get(&self, name: &str) -> (r: Option<Value>)
        ensures
            match r {
                Some(v) => self.model().contains_key(name@) && v.model() == self.model()[name@],
                None => !self.model().contains_key(name@),
            },
    {
        match self.vars.get(name) {
            Some(v) => Some(clone_value(v)),
            None => None,
        }
    }

    /// Whether `name` is bound.
    pub fn contains(&self, name: &str) -> (r: bool)
        ensures
            r == self.model().contains_key(name@),
    {
        self.vars.contains_key(name)
    }

    /// Binds `name` to `v`, replacing what it was bound to.
    pub fn set(&mut self, name: String, v: Value)
        ensures
            final(self).model() == old(self).model().insert(name@, v.model()),
    {
        let ghost m = v.model();
        self.vars.insert(name, v);
        assert(self.model() =~= old(self).model().insert(name@, m));
    }

    /// Binds `name` to the native function of the host with handle `handle`.
    pub fn register_native(&mut self, name: String, handle: u64)
        ensures
            final(self).model() == old(self).model().insert(name@, Val::Native(handle)),
    {
        self.set(name, Value::Func(handle));
    }
}

} // verus!
