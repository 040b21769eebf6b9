//! The outcome of each rule, by the rule's name.

use vstd::hash_map::StringHashMap;
use vstd::prelude::*;
use vstd::string::StringExecFns;

verus! {

/// A map from rule names to outcomes: `true` for compliant. A name has at
/// most one outcome, so that rules that share a name share it.
pub struct StatusMap {
    map: StringHashMap<bool>,
}

impl View for StatusMap {
    type V = Map<Seq<char>, bool>;

    closed spec fn view(&self) -> Map<Seq<char>, bool> {
        self.map@
    }
}

impl StatusMap {
    /// A map without entries.
    pub fn new() -> (map: StatusMap)
        ensures
            map@ == Map::<Seq<char>, bool>::empty(),
    {
        StatusMap { map: StringHashMap::new() }
    }

    /// Sets the outcome of a name, whether or not it had one.
    pub fn insert(&mut self, name: &str, passed: bool)
        ensures
            final(self)@ == old(self)@.insert(name@, passed),
    {
        self.map.insert(String::from_str(name), passed);
    }

    /// The outcome of a name, if it has one.
    pub fn get(&self, name: &str) -> (outcome: Option<bool>)
        ensures
            outcome == (if self@.dom().contains(name@) {
                Some(self@[name@])
            } else {
                None
            }),
    {
        match self.map.get(name) {
            Some(passed) => Some(*passed),
            None => None,
        }
    }

    /// The number of names that have an outcome.
    pub fn len(&self) -> (n: usize)
        ensures
            n == self@.len(),
    {
        self.map.len()
    }
}

} // verus!
