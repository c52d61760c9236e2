//! The environment: the name-to-value mapping consulted during evaluation.
//!
//! Bindings are kept in insertion order and a later binding for a name
//! shadows an earlier one, so the model is a finite map in which the newest
//! binding for each name wins.
use vstd::prelude::*;

use crate::ast::{Value, ValueS, value_view};
use crate::equality::{clone_value, string_eq};

verus! {

pub struct Env {
    entries: Vec<(String, Value)>,
}

/// The map modelled by a binding list: entries are folded in order, so the
/// newest binding for a name is the one the map holds.
pub open spec fn env_map(s: Seq<(String, Value)>) -> Map<Seq<char>, ValueS>
    decreases s.len(),
{
    if s.len() == 0 {
        Map::empty()
    } else {
        env_map(s.subrange(0, s.len() - 1)).insert(s.last().0@, value_view(s.last().1))
    }
}

impl View for Env {
    type V = Map<Seq<char>, ValueS>;

    closed spec fn view(&self) -> Map<Seq<char>, ValueS> {
        env_map(self.entries@)
    }
}

impl Env {
    /// An environment with no bindings.
    pub fn empty() -> (r: Env)
        ensures
            r@ == Map::<Seq<char>, ValueS>::empty(),
    {
        Env { entries: Vec::new() }
    }

    /// Binds `name` to `value`, overwriting any prior binding of that name.
    pub fn insert(&mut self, name: String, value: Value)
        ensures
            final(self)@ == old(self)@.insert(name@, value@),
    {
        let ghost olds = self.entries@;
        self.entries.push((name, value));
        proof {
            assert(self.entries@.subrange(0, olds.len() as int) =~= olds);
        }
    }

    /// Looks up `name`, returning a copy of the newest value bound to it.
    pub fn lookup(&self, name: &String) -> (r: Option<Value>)
        ensures
            match r {
                Some(v) => self@.contains_key(name@) && v@ == self@[name@],
                None => !self@.contains_key(name@),
            },
    {
        let n = self.entries.len();
        let mut i: usize = n;
        proof {
            assert(self.entries@.subrange(0, n as int) =~= self.entries@);
        }
        while i > 0
            invariant
                0 <= i <= n,
                n == self.entries@.len(),
                env_map(self.entries@).contains_key(name@) == env_map(
                    self.entries@.subrange(0, i as int),
                ).contains_key(name@),
                env_map(self.entries@.subrange(0, i as int)).contains_key(name@) ==> env_map(
                    self.entries@,
                )[name@] == env_map(self.entries@.subrange(0, i as int))[name@],
            decreases i,
        {
            i = i - 1;
            proof {
                assert(self.entries@.subrange(0, i + 1 as int).subrange(0, i as int)
                    =~= self.entries@.subrange(0, i as int));
                assert(self.entries@.subrange(0, i + 1 as int).last() == self.entries@[i as int]);
            }
            if string_eq(&self.entries[i].0, name) {
                return Some(clone_value(&self.entries[i].1));
            }
        }
        proof {
            assert(self.entries@.subrange(0, 0) =~= Seq::<(String, Value)>::empty());
        }
        None
    }

    /// A copy of this environment with the same model; the copy and the
    /// original do not share state.
    pub fn snapshot(&self) -> (r: Env)
        ensures
            r@ == self@,
    {
        let mut entries: Vec<(String, Value)> = Vec::new();
        let n = self.entries.len();
        let mut i: usize = 0;
        while i < n
            invariant
                0 <= i <= n,
                n == self.entries@.len(),
                entries@.len() == i,
                env_map(entries@) == env_map(self.entries@.subrange(0, i as int)),
            decreases n - i,
        {
            let ghost olds = entries@;
            let name = self.entries[i].0.clone();
            let value = clone_value(&self.entries[i].1);
            entries.push((name, value));
            proof {
                assert(entries@.subrange(0, i as int) =~= olds);
                assert(self.entries@.subrange(0, i + 1 as int).subrange(0, i as int)
                    =~= self.entries@.subrange(0, i as int));
                assert(self.entries@.subrange(0, i + 1 as int).last() == self.entries@[i as int]);
            }
            i = i + 1;
        }
        proof {
            assert(self.entries@.subrange(0, n as int) =~= self.entries@);
        }
        Env { entries }
    }
}

} // verus!
