//! The overlay that lists the keys which continue a chord.

use vstd::prelude::*;
use vstd::string::*;
use crate::key::key_text;
use crate::keymap::{Binding, CommandKeybind, KeyMap};

verus! {

/// Where a panel stands on the screen and how large it is.
#[derive(Clone, Copy, Debug, PartialEq, Eq, Structural)]
pub struct Geometry {
    pub rows: i32,
    pub cols: i32,
    /// The row of the panel's top edge.
    pub y: usize,
    /// The column of the panel's left edge.
    pub x: usize,
}

/// The panel of a menu with `entries` lines on a terminal of `term_rows` rows: one
/// row more than there are lines, as wide as the terminal, and ending just above the
/// terminal's last row, which belongs to the status bar.
pub open spec fn overlay(term_rows: i32, term_cols: i32, entries: usize) -> Geometry {
    Geometry {
        rows: (entries + 1) as i32,
        cols: term_cols,
        y: (term_rows - entries - 2) as usize,
        x: 0,
    }
}

/// Places the menu. There is no place for it where the terminal has fewer than
/// `entries + 2` rows.
pub fn menu_geometry(term_rows: i32, term_cols: i32, entries: usize) -> (g: Option<Geometry>)
    ensures
        g == if entries + 2 <= term_rows {
            Some(overlay(term_rows, term_cols, entries))
        } else {
            None::<Geometry>
        },
{
    if term_rows >= 2 && entries <= (term_rows - 2) as usize {
        let lines: i32 = entries as i32;
        Some(Geometry { rows: lines + 1, cols: term_cols, y: (term_rows - lines - 2) as usize, x: 0 })
    } else {
        None
    }
}

/// How a binding is described in a menu: a command by its name, a nested map by
/// three dots.
pub open spec fn description(bind: CommandKeybind) -> Seq<char> {
    match bind {
        CommandKeybind::Simple(c) => c.name@,
        CommandKeybind::Composite(_) => seq!['.', '.', '.'],
    }
}

/// The menu line of an entry: two spaces, the key, a tab, the description.
pub open spec fn line_text(entry: Binding) -> Seq<char> {
    seq![' ', ' '] + key_text(entry.key) + seq!['\t'] + description(entry.bind)
}

/// The menu lines of some entries, in the order of the entries.
pub open spec fn entry_lines(entries: Seq<Binding>) -> Seq<Seq<char>> {
    entries.map_values(|entry: Binding| line_text(entry))
}

/// The texts of some strings.
pub open spec fn texts(lines: Seq<String>) -> Seq<Seq<char>> {
    lines.map_values(|line: String| line@)
}

/// Lexicographic order on bytes: a proper prefix comes first.
pub open spec fn bytes_le(a: Seq<u8>, b: Seq<u8>) -> bool
    decreases a.len(),
{
    if a.len() == 0 {
        true
    } else if b.len() == 0 {
        false
    } else if a[0] != b[0] {
        a[0] < b[0]
    } else {
        bytes_le(a.skip(1), b.skip(1))
    }
}

/// The order of strings: that of their UTF-8 encodings.
pub open spec fn text_le(a: Seq<char>, b: Seq<char>) -> bool {
    bytes_le(vstd::utf8::encode_utf8(a), vstd::utf8::encode_utf8(b))
}

/// No line stands before a smaller one.
pub open spec fn ascending(lines: Seq<String>) -> bool {
    forall|i: int, j: int| 0 <= i < j < lines.len() ==> text_le(lines[i]@, lines[j]@)
}

/// Of two byte strings one is at most the other.
pub proof fn lemma_bytes_le_total(a: Seq<u8>, b: Seq<u8>)
    ensures
        bytes_le(a, b) || bytes_le(b, a),
    decreases a.len(),
{
    if a.len() > 0 && b.len() > 0 && a[0] == b[0] {
        lemma_bytes_le_total(a.skip(1), b.skip(1));
    }
}

/// The order on byte strings is transitive.
pub proof fn lemma_bytes_le_transitive(a: Seq<u8>, b: Seq<u8>, c: Seq<u8>)
    requires
        bytes_le(a, b),
        bytes_le(b, c),
    ensures
        bytes_le(a, c),
    decreases a.len(),
{
    if a.len() > 0 && a[0] == b[0] && b[0] == c[0] {
        lemma_bytes_le_transitive(a.skip(1), b.skip(1), c.skip(1));
    }
}

/// Whether `a` is at most `b` in the order of strings.
pub fn str_le(a: &str, b: &str) -> (le: bool)
    ensures
        le == text_le(a@, b@),
{
    let x = a.as_bytes();
    let y = b.as_bytes();
    let mut i: usize = 0;
    assert(x@.skip(0) =~= x@ && y@.skip(0) =~= y@);
    while i < x.len() && i < y.len()
        invariant
            i <= x.len(),
            i <= y.len(),
            x@ == vstd::utf8::encode_utf8(a@),
            y@ == vstd::utf8::encode_utf8(b@),
            bytes_le(x@, y@) == bytes_le(x@.skip(i as int), y@.skip(i as int)),
        decreases x.len() - i,
    {
        assert(x@.skip(i as int).skip(1) =~= x@.skip(i + 1));
        assert(y@.skip(i as int).skip(1) =~= y@.skip(i + 1));
        if x[i] != y[i] {
            return x[i] < y[i];
        }
        i += 1;
    }
    x.len() <= y.len()
}

/// The menu line of an entry.
pub fn menu_line(entry: &Binding) -> (line: String)
    ensures
        line@ == line_text(*entry),
{
    proof {
        reveal_strlit("  ");
        reveal_strlit("\t");
        reveal_strlit("...");
    }
    let mut line = String::from_str("  ");
    let key = entry.key.text();
    line.append(key.as_str());
    line.append("\t");
    match &entry.bind {
        CommandKeybind::Simple(c) => line.append(c.name()),
        CommandKeybind::Composite(_) => line.append("..."),
    }
    assert(line@ =~= line_text(*entry));
    line
}

/// Puts `line` into ascending `lines`, behind the lines that are at most it.
fn insert_ascending(lines: &mut Vec<String>, line: String)
    requires
        ascending(old(lines)@),
    ensures
        ascending(final(lines)@),
        final(lines)@.len() == old(lines)@.len() + 1,
        texts(final(lines)@).to_multiset() == texts(old(lines)@).to_multiset().insert(line@),
{
    let mut pos: usize = 0;
    while pos < lines.len() && str_le(lines[pos].as_str(), line.as_str())
        invariant
            pos <= lines.len(),
            *lines == *old(lines),
            forall|k: int| 0 <= k < pos ==> text_le(lines@[k]@, line@),
        decreases lines.len() - pos,
    {
        pos += 1;
    }
    proof {
        let s = lines@;
        let t = s.insert(pos as int, line);
        assert forall|i: int, j: int| 0 <= i < j < t.len() implies text_le(t[i]@, t[j]@) by {
            if j == pos {
            } else if i == pos {
                // `line` stands before what was at `pos` or later.
                let first_after = vstd::utf8::encode_utf8(s[pos as int]@);
                let new = vstd::utf8::encode_utf8(line@);
                lemma_bytes_le_total(first_after, new);
                if j - 1 > pos {
                    assert(text_le(s[pos as int]@, s[j - 1]@));
                    lemma_bytes_le_transitive(new, first_after, vstd::utf8::encode_utf8(s[j - 1]@));
                }
            } else {
                let oi = if i < pos { i } else { i - 1 };
                let oj = if j < pos { j } else { j - 1 };
                assert(t[i] == s[oi] && t[j] == s[oj]);
            }
        }
        let head = s.take(pos as int);
        let tail = s.skip(pos as int);
        assert(texts(t) =~= texts(head).push(line@) + texts(tail));
        assert(texts(s) =~= texts(head) + texts(tail));
        vstd::seq_lib::lemma_multiset_commutative(texts(head).push(line@), texts(tail));
        vstd::seq_lib::lemma_multiset_commutative(texts(head), texts(tail));
        vstd::seq_lib::to_multiset_build(texts(head), line@);
        assert(texts(t).to_multiset() =~= texts(s).to_multiset().insert(line@));
    }
    lines.insert(pos, line);
}

/// The lines of the menu for a map: one for each entry, in ascending order.
pub fn menu_lines(node: &KeyMap) -> (lines: Vec<String>)
    ensures
        lines@.len() == node.entries().len(),
        ascending(lines@),
        texts(lines@).to_multiset() == entry_lines(node.entries()).to_multiset(),
{
    let mut lines: Vec<String> = Vec::new();
    let n = node.len();
    let mut i: usize = 0;
    assert(entry_lines(node.entries().take(0)) =~= texts(lines@));
    while i < n
        invariant
            i <= n,
            n == node.entries().len(),
            lines@.len() == i,
            ascending(lines@),
            texts(lines@).to_multiset() == entry_lines(node.entries().take(i as int)).to_multiset(),
        decreases n - i,
    {
        let line = menu_line(node.entry(i));
        proof {
            let done = node.entries().take(i as int);
            assert(entry_lines(node.entries().take(i + 1)) =~= entry_lines(done).push(line@));
            vstd::seq_lib::to_multiset_build(entry_lines(done), line@);
        }
        insert_ascending(&mut lines, line);
        i += 1;
    }
    assert(node.entries().take(n as int) =~= node.entries());
    lines
}

} // verus!
