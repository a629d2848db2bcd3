use std::collections::HashMap;
use vstd::prelude::*;

verus! {

broadcast use vstd::std_specs::hash::group_hash_axioms;

/// The map after an entry tagged `tag` was removed from under `key`; an entry
/// with another tag stays.
pub open spec fn remove_tagged<T>(m: Map<i32, (u64, T)>, key: i32, tag: u64) -> Map<
    i32,
    (u64, T),
> {
    if m.contains_key(key) && m[key].0 == tag {
        m.remove(key)
    } else {
        m
    }
}

/// At most one entry per identity, each tagged with the id of whoever put it
/// there. Putting a second entry under an identity replaces the first.
pub struct Registry<T> {
    entries: HashMap<i32, (u64, T)>,
}

impl<T> View for Registry<T> {
    type V = Map<i32, (u64, T)>;

    closed spec fn view(&self) -> Map<i32, (u64, T)> {
        self.entries@
    }
}

impl<T> Registry<T> {
    pub fn new() -> (r: Registry<T>)
        ensures
            r@ == Map::<i32, (u64, T)>::empty(),
    {
        Registry { entries: HashMap::new() }
    }

    /// Puts `value` under `key` with the tag `tag`, replacing any entry there.
    pub fn insert(&mut self, key: i32, tag: u64, value: T)
        ensures
            final(self)@ == old(self)@.insert(key, (tag, value)),
    {
        self.entries.insert(key, (tag, value));
    }

    pub fn contains(&self, key: i32) -> (r: bool)
        ensures
            r == self@.contains_key(key),
    {
        self.entries.contains_key(&key)
    }

    /// The value under `key`.
    pub fn get(&self, key: i32) -> (r: Option<&T>)
        ensures
            match r {
                Some(v) => self@.contains_key(key) && *v == self@[key].1,
                None => !self@.contains_key(key),
            },
    {
        match self.entries.get(&key) {
            Some(entry) => Some(&entry.1),
            None => None,
        }
    }

    /// The tag of the entry under `key`.
    pub fn tag(&self, key: i32) -> (r: Option<u64>)
        ensures
            match r {
                Some(t) => self@.contains_key(key) && t == self@[key].0,
                None => !self@.contains_key(key),
            },
    {
        match self.entries.get(&key) {
            Some(entry) => Some(entry.0),
            None => None,
        }
    }

    /// Removes the entry under `key` and hands its value out.
    pub fn take(&mut self, key: i32) -> (r: Option<T>)
        ensures
            final(self)@ == old(self)@.remove(key),
            match r {
                Some(v) => old(self)@.contains_key(key) && v == old(self)@[key].1,
                None => !old(self)@.contains_key(key),
            },
    {
        match self.entries.remove(&key) {
            Some(entry) => Some(entry.1),
            None => None,
        }
    }

    /// Removes the entry under `key` only if it carries `tag`.
    pub fn remove_tagged(&mut self, key: i32, tag: u64) -> (r: bool)
        ensures
            final(self)@ == remove_tagged(old(self)@, key, tag),
            r == (old(self)@.contains_key(key) && old(self)@[key].0 == tag),
    {
        let found = match self.entries.get(&key) {
            Some(entry) => entry.0 == tag,
            None => false,
        };
        if found {
            self.entries.remove(&key);
        }
        found
    }
}

} // verus!
