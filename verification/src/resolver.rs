//! Resolution of chords: sequences of keys that walk down the keybinding tree.

use vstd::prelude::*;
use crate::key::Key;
use crate::keymap::{Command, CommandKeybind, KeyMap};

verus! {

/// A chord that has begun and waits for its next key.
#[derive(Debug)]
pub struct Pending<'a> {
    /// The key that began the chord.
    pub first: Key,
    /// The map in which the next key is looked up.
    pub node: &'a KeyMap,
}

/// What the caller does after a key.
#[derive(Debug)]
pub enum Dispatch<'a> {
    /// The key completed a binding: run this command.
    Execute(&'a Command),
    /// The key led to a nested map: show its menu and wait for one more key.
    Menu(&'a KeyMap),
    /// Nothing came of the input. The key named is the one that began it.
    Unknown(Key),
}

/// How to wait for the next input.
#[derive(Clone, Copy, Debug, PartialEq, Eq, Structural)]
pub enum WaitMode {
    /// Give up after a short while, so that other work gets its turn.
    Bounded,
    /// Wait until a key arrives.
    Indefinite,
}

/// One step of resolution: the chord that is pending afterwards, and what to do.
///
/// Outside a chord any key is looked up in the root. Inside a chord only a plain
/// character that the current map binds goes on; anything else ends the chord.
pub open spec fn step<'a>(root: &'a KeyMap, pending: Option<Pending<'a>>, key: Key) -> (
    Option<Pending<'a>>,
    Dispatch<'a>,
) {
    match pending {
        None => match root.lookup(key) {
            Some(CommandKeybind::Simple(c)) => (None, Dispatch::Execute(&c)),
            Some(CommandKeybind::Composite(m)) => (
                Some(Pending { first: key, node: &m }),
                Dispatch::Menu(&m),
            ),
            None => (None, Dispatch::Unknown(key)),
        },
        Some(p) => if key.is_char() {
            match p.node.lookup(key) {
                Some(CommandKeybind::Simple(c)) => (None, Dispatch::Execute(&c)),
                Some(CommandKeybind::Composite(m)) => (
                    Some(Pending { first: p.first, node: &m }),
                    Dispatch::Menu(&m),
                ),
                None => (None, Dispatch::Unknown(p.first)),
            }
        } else {
            (None, Dispatch::Unknown(p.first))
        },
    }
}

/// The chord that is pending after `keys` were fed, one by one, to a resolver that
/// began outside any chord.
pub open spec fn pending_after<'a>(root: &'a KeyMap, keys: Seq<Key>) -> Option<Pending<'a>>
    decreases keys.len(),
{
    if keys.len() == 0 {
        None
    } else {
        step(root, pending_after(root, keys.drop_last()), keys.last()).0
    }
}

/// What the resolver answers to the last of `keys`.
pub open spec fn reply_to_last<'a>(root: &'a KeyMap, keys: Seq<Key>) -> Dispatch<'a>
    recommends
        keys.len() > 0,
{
    step(root, pending_after(root, keys.drop_last()), keys.last()).1
}

/// The binding at the end of the path that `keys` spell from the root. The first
/// key may be any key; each later one must be a plain character, looked up in the
/// nested map that the keys before it lead to.
pub open spec fn walk(root: &KeyMap, keys: Seq<Key>) -> Option<CommandKeybind>
    decreases keys.len(),
{
    if keys.len() == 0 {
        None
    } else if keys.len() == 1 {
        root.lookup(keys[0])
    } else {
        match walk(root, keys.drop_last()) {
            Some(CommandKeybind::Composite(m)) => if keys.last().is_char() {
                m.lookup(keys.last())
            } else {
                None
            },
            _ => None,
        }
    }
}

/// The command that `keys` resolve to: the one at the end of their path, if the
/// path ends at a command.
pub open spec fn resolved(root: &KeyMap, keys: Seq<Key>) -> Option<Command> {
    match walk(root, keys) {
        Some(CommandKeybind::Simple(c)) => Some(c),
        _ => None,
    }
}

/// The state of chord resolution between two inputs.
#[derive(Debug)]
pub struct Resolver<'a> {
    root: &'a KeyMap,
    pending: Option<Pending<'a>>,
}

impl<'a> Resolver<'a> {
    /// The tree that keys are resolved in.
    pub closed spec fn root(self) -> &'a KeyMap {
        self.root
    }

    /// The chord that waits for its next key, if there is one.
    pub closed spec fn pending(self) -> Option<Pending<'a>> {
        self.pending
    }

    /// A resolver outside any chord.
    pub fn new(root: &'a KeyMap) -> (r: Resolver<'a>)
        ensures
            r.root() == root,
            r.pending() is None,
    {
        Resolver { root, pending: None }
    }

    /// Whether a chord waits for its next key.
    pub fn in_chord(&self) -> (b: bool)
        ensures
            b == self.pending() is Some,
    {
        self.pending.is_some()
    }

    /// How to wait for the next input: without limit inside a chord, bounded outside.
    pub fn wait_mode(&self) -> (w: WaitMode)
        ensures
            w == if self.pending() is Some {
                WaitMode::Indefinite
            } else {
                WaitMode::Bounded
            },
    {
        if self.pending.is_some() {
            WaitMode::Indefinite
        } else {
            WaitMode::Bounded
        }
    }

    /// Takes one key.
    pub fn feed(&mut self, key: Key) -> (d: Dispatch<'a>)
        ensures
            final(self).root() == old(self).root(),
            (final(self).pending(), d) == step(old(self).root(), old(self).pending(), key),
    {
        let (node, first): (&'a KeyMap, Key) = match &self.pending {
            Some(p) => {
                if !key.is_plain_char() {
                    let first = p.first;
                    self.pending = None;
                    return Dispatch::Unknown(first);
                }
                (p.node, p.first)
            },
            None => (self.root, key),
        };
        match node.get(key) {
            Some(CommandKeybind::Simple(c)) => {
                self.pending = None;
                Dispatch::Execute(c)
            },
            Some(CommandKeybind::Composite(m)) => {
                self.pending = Some(Pending { first, node: m });
                Dispatch::Menu(m)
            },
            None => {
                self.pending = None;
                Dispatch::Unknown(first)
            },
        }
    }

    /// Ends a chord on an input that is no key. Returns the key that began the
    /// chord, or `None` where no chord was pending.
    pub fn abort(&mut self) -> (first: Option<Key>)
        ensures
            final(self).root() == old(self).root(),
            final(self).pending() is None,
            first == match old(self).pending() {
                Some(p) => Some(p.first),
                None => None,
            },
    {
        let first = match &self.pending {
            Some(p) => Some(p.first),
            None => None,
        };
        self.pending = None;
        first
    }
}

/// Resolves a whole sequence of keys at once.
pub fn resolve<'a>(root: &'a KeyMap, keys: &[Key]) -> (r: Option<&'a Command>)
    ensures
        match r {
            Some(c) => resolved(root, keys@) == Some(*c),
            None => resolved(root, keys@) is None,
        },
{
    if keys.len() == 0 {
        return None;
    }
    assert(keys@.take(1).len() == 1);
    let mut bind: Option<&'a CommandKeybind> = root.get(keys[0]);
    let mut i: usize = 1;
    while i < keys.len()
        invariant
            1 <= i <= keys.len(),
            match bind {
                Some(b) => walk(root, keys@.take(i as int)) == Some(*b),
                None => walk(root, keys@.take(i as int)) is None,
            },
        decreases keys.len() - i,
    {
        assert(keys@.take(i + 1).drop_last() =~= keys@.take(i as int));
        let key = keys[i];
        bind = match bind {
            Some(CommandKeybind::Composite(m)) => if key.is_plain_char() {
                m.get(key)
            } else {
                None
            },
            _ => None,
        };
        i += 1;
    }
    assert(keys@.take(i as int) =~= keys@);
    match bind {
        Some(CommandKeybind::Simple(c)) => Some(c),
        _ => None,
    }
}

/// Keys that spell a path into a nested map leave the resolver waiting in that map,
/// with its menu asked for, and remembering the key that began the chord.
pub proof fn lemma_path_into_map_pends(root: &KeyMap, keys: Seq<Key>, m: KeyMap)
    requires
        walk(root, keys) == Some(CommandKeybind::Composite(m)),
    ensures
        pending_after(root, keys) == Some(Pending { first: keys[0], node: &m }),
        reply_to_last(root, keys) == Dispatch::Menu(&m),
    decreases keys.len(),
{
    if keys.len() > 1 {
        let before = keys.drop_last();
        let parent = walk(root, before)->0->Composite_0;
        lemma_path_into_map_pends(root, before, parent);
        assert(before[0] == keys[0]);
    } else {
        assert(keys.drop_last() =~= Seq::<Key>::empty());
    }
}

/// Keys that spell exactly a path to a command resolve to that command: every key
/// before the last asks for a menu, the last one asks to run the command, and the
/// resolver is then outside any chord.
pub proof fn lemma_exact_path_resolves(root: &KeyMap, keys: Seq<Key>, c: Command)
    requires
        walk(root, keys) == Some(CommandKeybind::Simple(c)),
    ensures
        resolved(root, keys) == Some(c),
        reply_to_last(root, keys) == Dispatch::Execute(&c),
        pending_after(root, keys) is None,
        forall|n: int| 0 < n < keys.len() ==> (#[trigger] reply_to_last(root, keys.take(n))) is Menu,
{
    if keys.len() > 1 {
        let before = keys.drop_last();
        let parent = walk(root, before)->0->Composite_0;
        lemma_path_into_map_pends(root, before, parent);
    } else {
        assert(keys.drop_last() =~= Seq::<Key>::empty());
    }
    assert forall|n: int| 0 < n < keys.len() implies (#[trigger] reply_to_last(
        root,
        keys.take(n),
    )) is Menu by {
        lemma_prefix_walks_into_map(root, keys, n);
        let m = walk(root, keys.take(n))->0->Composite_0;
        lemma_path_into_map_pends(root, keys.take(n), m);
    }
}

/// Every proper prefix of a path leads into a nested map.
pub proof fn lemma_prefix_walks_into_map(root: &KeyMap, keys: Seq<Key>, n: int)
    requires
        walk(root, keys) is Some,
        0 < n < keys.len(),
    ensures
        walk(root, keys.take(n)) is Some,
        walk(root, keys.take(n))->0 is Composite,
    decreases keys.len(),
{
    if n == keys.len() - 1 {
        assert(keys.take(n) =~= keys.drop_last());
    } else {
        assert(keys.drop_last().take(n) =~= keys.take(n));
        lemma_prefix_walks_into_map(root, keys.drop_last(), n);
    }
}

/// A deviation inside a chord yields no command. Where `keys` lead into a nested
/// map and the next key is Escape, another key that is no plain character, or a
/// character that the map does not bind, the resolver answers that nothing is
/// bound, naming the key that began the chord, and is then outside any chord.
pub proof fn lemma_deviation_yields_nothing(root: &KeyMap, keys: Seq<Key>, m: KeyMap, key: Key)
    requires
        walk(root, keys) == Some(CommandKeybind::Composite(m)),
        !key.is_char() || m.lookup(key) is None,
    ensures
        resolved(root, keys.push(key)) is None,
        reply_to_last(root, keys.push(key)) == Dispatch::Unknown(keys[0]),
        pending_after(root, keys.push(key)) is None,
{
    lemma_path_into_map_pends(root, keys, m);
    assert(keys.push(key).drop_last() =~= keys);
}

/// A first key that the root does not bind yields no command and begins no chord.
pub proof fn lemma_unbound_key_yields_nothing(root: &KeyMap, key: Key)
    requires
        root.lookup(key) is None,
    ensures
        resolved(root, seq![key]) is None,
        reply_to_last(root, seq![key]) == Dispatch::Unknown(key),
        pending_after(root, seq![key]) is None,
{
    assert(seq![key].drop_last() =~= Seq::<Key>::empty());
}

/// Once a resolution has ended, with a command or without, the next input is
/// resolved as if nothing had come before it.
pub proof fn lemma_resolution_leaves_no_trace(root: &KeyMap, done: Seq<Key>, more: Seq<Key>)
    requires
        pending_after(root, done) is None,
    ensures
        pending_after(root, done + more) == pending_after(root, more),
        more.len() > 0 ==> reply_to_last(root, done + more) == reply_to_last(root, more),
    decreases more.len(),
{
    if more.len() == 0 {
        assert(done + more =~= done);
    } else {
        assert((done + more).drop_last() =~= done + more.drop_last());
        lemma_resolution_leaves_no_trace(root, done, more.drop_last());
    }
}

} // verus!
