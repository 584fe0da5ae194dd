//! The keybinding tree: commands bound to keys, and nested maps for chords.

use vstd::prelude::*;
use crate::key::Key;

verus! {

/// A unit of work that a key can be bound to. This crate only carries it: running it
/// is the caller's business.
#[derive(Debug, PartialEq, Eq)]
pub struct Command {
    pub name: String,
}

impl Command {
    /// The command of this name.
    pub fn new(name: &str) -> (c: Command)
        ensures
            c.name@ == name@,
    {
        Command { name: String::from_str(name) }
    }

    /// The text under which the command appears in menus.
    pub fn name(&self) -> (s: &str)
        ensures
            s@ == self.name@,
    {
        self.name.as_str()
    }
}

/// What a key is bound to: a command, or a further map of keys (a chord).
#[derive(Debug)]
pub enum CommandKeybind {
    Simple(Command),
    Composite(KeyMap),
}

/// One entry of a map: a key and what it is bound to.
#[derive(Debug)]
pub struct Binding {
    pub key: Key,
    pub bind: CommandKeybind,
}

/// A map from keys to bindings. No key occurs twice.
#[derive(Debug)]
pub struct KeyMap {
    entries: Vec<Binding>,
}

/// No two entries share a key.
pub open spec fn distinct_keys(s: Seq<Binding>) -> bool {
    forall|i: int, j: int| 0 <= i < j < s.len() ==> s[i].key != s[j].key
}

/// The position of `key` among the entries, if it is bound.
pub open spec fn position(s: Seq<Binding>, key: Key) -> Option<int> {
    if exists|i: int| 0 <= i < s.len() && s[i].key == key {
        Some(choose|i: int| 0 <= i < s.len() && s[i].key == key)
    } else {
        None
    }
}

/// Among entries with distinct keys, a key is found where it stands.
pub proof fn lemma_position_of_entry(s: Seq<Binding>, i: int)
    requires
        distinct_keys(s),
        0 <= i < s.len(),
    ensures
        position(s, s[i].key) == Some(i),
{
}

impl KeyMap {
    #[verifier::type_invariant]
    spec fn inv(self) -> bool {
        distinct_keys(self.entries@)
    }

    /// The entries, in the order in which their keys were first bound.
    pub closed spec fn entries(self) -> Seq<Binding> {
        self.entries@
    }

    /// What every map that code can hold satisfies.
    pub open spec fn wf(self) -> bool {
        distinct_keys(self.entries())
    }

    /// What `key` is bound to.
    pub open spec fn lookup(self, key: Key) -> Option<CommandKeybind> {
        match position(self.entries(), key) {
            Some(i) => Some(self.entries()[i].bind),
            None => None,
        }
    }

    /// A map that binds no key.
    pub fn new() -> (m: KeyMap)
        ensures
            m.entries() == Seq::<Binding>::empty(),
            m.wf(),
    {
        KeyMap { entries: Vec::new() }
    }

    /// The number of keys bound.
    pub fn len(&self) -> (n: usize)
        ensures
            n == self.entries().len(),
            self.wf(),
    {
        proof {
            use_type_invariant(self);
        }
        self.entries.len()
    }

    /// The entry at position `i`.
    pub fn entry(&self, i: usize) -> (b: &Binding)
        requires
            i < self.entries().len(),
        ensures
            *b == self.entries()[i as int],
    {
        &self.entries[i]
    }

    fn find(&self, key: Key) -> (r: Option<usize>)
        ensures
            match r {
                Some(i) => position(self.entries(), key) == Some(i as int) && i < self.entries().len()
                    && self.entries()[i as int].key == key,
                None => position(self.entries(), key) is None,
            },
    {
        proof {
            use_type_invariant(self);
        }
        let mut i: usize = 0;
        while i < self.entries.len()
            invariant
                i <= self.entries.len(),
                distinct_keys(self.entries@),
                forall|j: int| 0 <= j < i ==> self.entries@[j].key != key,
            decreases self.entries.len() - i,
        {
            if self.entries[i].key == key {
                return Some(i);
            }
            i += 1;
        }
        None
    }

    /// Looks a key up.
    pub fn get(&self, key: Key) -> (r: Option<&CommandKeybind>)
        ensures
            match r {
                Some(b) => self.lookup(key) == Some(*b),
                None => self.lookup(key) is None,
            },
    {
        match self.find(key) {
            Some(i) => Some(&self.entries[i].bind),
            None => None,
        }
    }

    /// Binds `key`, and returns what it was bound to before.
    pub fn insert(&mut self, key: Key, bind: CommandKeybind) -> (prev: Option<CommandKeybind>)
        ensures
            prev == old(self).lookup(key),
            match position(old(self).entries(), key) {
                Some(i) => final(self).entries() == old(self).entries().update(i, Binding { key, bind }),
                None => final(self).entries() == old(self).entries().push(Binding { key, bind }),
            },
            forall|other: Key| #[trigger]
                final(self).lookup(other) == if other == key {
                    Some(bind)
                } else {
                    old(self).lookup(other)
                },
            final(self).wf(),
    {
        let found = self.find(key);
        proof {
            use_type_invariant(&*self);
        }
        let mut entries: Vec<Binding> = Vec::new();
        core::mem::swap(&mut self.entries, &mut entries);
        entries.push(Binding { key, bind });
        let prev = match found {
            Some(i) => {
                let replaced = entries.swap_remove(i);
                assert(entries@ =~= old(self).entries@.update(i as int, Binding { key, bind }));
                Some(replaced.bind)
            },
            None => None,
        };
        self.entries = entries;
        proof {
            let before = old(self).entries();
            let after = self.entries();
            assert forall|other: Key| #[trigger]
                self.lookup(other) == if other == key {
                    Some(bind)
                } else {
                    old(self).lookup(other)
                } by {
                let at = match found {
                    Some(i) => i as int,
                    None => before.len() as int,
                };
                assert(after[at].key == key);
                if other == key {
                    lemma_position_of_entry(after, at);
                } else if position(before, other) is Some {
                    let i = position(before, other)->0;
                    assert(after[i] == before[i]);
                    lemma_position_of_entry(after, i);
                } else if position(after, other) is Some {
                    let i = position(after, other)->0;
                    assert(before[i].key == other);
                }
            }
        }
        prev
    }
}

} // verus!
