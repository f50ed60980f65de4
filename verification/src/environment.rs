//! The variables of a session.

use std::collections::HashMap;
use vstd::prelude::*;

verus! {

broadcast use vstd::std_specs::hash::group_hash_axioms;

/// The key under which the variable `name` is stored: its code point.
pub open spec fn key_of(name: char) -> u32 {
    name as u32
}

/// The value that each assigned variable holds.
pub struct Environment<N> {
    /// The values, keyed by the code point of the variable's name.
    values: HashMap<u32, N>,
}

impl<N> View for Environment<N> {
    type V = Map<char, N>;

    /// The environment as a map from names to values.
    closed spec fn view(&self) -> Map<char, N> {
        Map::new(
            |name: char| self.values@.contains_key(key_of(name)),
            |name: char| self.values@[key_of(name)],
        )
    }
}

impl<N: Copy> Environment<N> {
    /// An environment in which no variable is assigned.
    pub fn new() -> (environment: Self)
        ensures
            environment@ == Map::<char, N>::empty(),
    {
        let environment = Environment { values: HashMap::new() };
        assert(environment@ =~= Map::<char, N>::empty());
        environment
    }

    /// The value of the variable `name`, if it is assigned.
    pub fn get(&self, name: char) -> (value: Option<N>)
        ensures
            value == if self@.contains_key(name) {
                Some(self@[name])
            } else {
                None
            },
    {
        let key = name as u32;
        match self.values.get(&key) {
            Some(value) => Some(*value),
            None => None,
        }
    }

    /// Assigns `value` to the variable `name`, in place of any earlier value.
    pub fn insert(&mut self, name: char, value: N)
        ensures
            final(self)@ == old(self)@.insert(name, value),
    {
        self.values.insert(name as u32, value);
        proof {
            assert forall|other: char| #[trigger] key_of(other) == key_of(name) implies other
                == name by {
                vstd::utf8::char_u32_cast(other, key_of(other));
                vstd::utf8::char_u32_cast(name, key_of(name));
            }
            assert(self@ =~= old(self)@.insert(name, value));
        }
    }
}

} // verus!
