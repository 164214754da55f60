use vstd::prelude::*;

use crate::table::{
    find_binding, lemma_table_map_at, lemma_table_map_push, lemma_table_map_update, names_unique,
    table_map, Binding,
};
use crate::types::CVarValue;

verus! {

/// A named configuration variable.
pub type CVar = Binding<CVarValue>;

/// The registry of configuration variables shared by all subsystems.
pub struct State {
    cvars: Vec<CVar>,
}

impl View for State {
    type V = Map<Seq<char>, CVarValue>;

    closed spec fn view(&self) -> Map<Seq<char>, CVarValue> {
        table_map(self.cvars@)
    }
}

impl State {
    /// Each name is registered at most once.
    pub closed spec fn wf(&self) -> bool {
        names_unique(self.cvars@)
    }

    /// An empty registry.
    pub fn new() -> (r: State)
        ensures
            r.wf(),
            r@ == Map::<Seq<char>, CVarValue>::empty(),
    {
        State { cvars: Vec::new() }
    }

    /// Whether `name` is registered.
    pub fn contains(&self, name: &str) -> (r: bool)
        requires
            self.wf(),
        ensures
            r == self@.contains_key(name@),
    {
        let key = name.to_owned();
        match find_binding(&self.cvars, &key) {
            Some(i) => {
                proof {
                    lemma_table_map_at(self.cvars@, i as int);
                }
                true
            },
            None => false,
        }
    }

    /// Binds `name` to `value`, replacing any earlier binding of it.
    pub fn register(&mut self, name: &str, value: CVarValue)
        requires
            old(self).wf(),
        ensures
            final(self).wf(),
            final(self)@ == old(self)@.insert(name@, value),
    {
        let key = name.to_owned();
        match find_binding(&self.cvars, &key) {
            Some(i) => {
                let b = Binding { name: key, value };
                proof {
                    lemma_table_map_at(self.cvars@, i as int);
                    lemma_table_map_update(self.cvars@, i as int, b);
                }
                self.cvars.set(i, b);
            },
            None => {
                let b = Binding { name: key, value };
                proof {
                    lemma_table_map_push(self.cvars@, b);
                }
                self.cvars.push(b);
            },
        }
    }

    /// Replaces the value of a registered variable; an unregistered name
    /// leaves the registry as it is.
    pub fn set(&mut self, name: &str, value: CVarValue)
        requires
            old(self).wf(),
        ensures
            final(self).wf(),
            old(self)@.contains_key(name@) ==> final(self)@ == old(self)@.insert(name@, value),
            !old(self)@.contains_key(name@) ==> final(self)@ == old(self)@,
    {
        let key = name.to_owned();
        match find_binding(&self.cvars, &key) {
            Some(i) => {
                let b = Binding { name: key, value };
                proof {
                    lemma_table_map_at(self.cvars@, i as int);
                    lemma_table_map_update(self.cvars@, i as int, b);
                }
                self.cvars.set(i, b);
            },
            None => {},
        }
    }

    /// The value of a registered variable; asking for an unregistered one is
    /// a usage error that callers rule out by registering first.
    pub fn get(&self, name: &str) -> (r: &CVarValue)
        requires
            self.wf(),
            self@.contains_key(name@),
        ensures
            *r == self@[name@],
    {
        let key = name.to_owned();
        match find_binding(&self.cvars, &key) {
            Some(i) => {
                proof {
                    lemma_table_map_at(self.cvars@, i as int);
                }
                &self.cvars[i].value
            },
            None => vstd::pervasive::unreached(),
        }
    }
}

} // verus!
