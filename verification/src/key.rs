//! Keys as a terminal reports them, and the text that names them on the screen.

use vstd::prelude::*;
use vstd::string::*;

verus! {

/// One key press.
#[derive(Clone, Copy, Debug, PartialEq, Eq, Structural, Hash)]
pub enum Key {
    Backspace,
    Left,
    Right,
    Up,
    Down,
    Home,
    End,
    PageUp,
    PageDown,
    BackTab,
    Delete,
    Insert,
    /// A function key, by its number.
    F(u8),
    /// A plain character.
    Char(char),
    /// A character pressed together with Alt.
    Alt(char),
    /// A character pressed together with Ctrl.
    Ctrl(char),
    Null,
    Esc,
}

/// The text that `{:?}` prints for a character: the character between single
/// quotes, with an escape in its place where it cannot stand for itself.
pub uninterp spec fn char_debug_text(c: char) -> Seq<char>;

/// Formats a character with `{:?}`, that is with the `Debug` impl that the standard
/// library has for `char`. The contract only gives the text a name: one character
/// always has the same text.
#[verifier::external_body]
fn char_debug(c: char) -> (text: String)
    ensures
        text@ == char_debug_text(c),
{
    format!("{:?}", c)
}

/// The digit for a number below ten.
pub open spec fn digit(d: nat) -> char {
    if d == 0 {
        '0'
    } else if d == 1 {
        '1'
    } else if d == 2 {
        '2'
    } else if d == 3 {
        '3'
    } else if d == 4 {
        '4'
    } else if d == 5 {
        '5'
    } else if d == 6 {
        '6'
    } else if d == 7 {
        '7'
    } else if d == 8 {
        '8'
    } else {
        '9'
    }
}

/// A number in decimal digits, without leading zeros.
pub open spec fn decimal(n: nat) -> Seq<char>
    decreases n,
{
    if n < 10 {
        seq![digit(n)]
    } else {
        decimal(n / 10).push(digit(n % 10))
    }
}

/// The text that names a key: the name of its kind, followed in brackets by the
/// number of a function key, or by the character as `{:?}` prints it.
pub open spec fn key_text(key: Key) -> Seq<char> {
    match key {
        Key::Backspace => "Backspace"@,
        Key::Left => "Left"@,
        Key::Right => "Right"@,
        Key::Up => "Up"@,
        Key::Down => "Down"@,
        Key::Home => "Home"@,
        Key::End => "End"@,
        Key::PageUp => "PageUp"@,
        Key::PageDown => "PageDown"@,
        Key::BackTab => "BackTab"@,
        Key::Delete => "Delete"@,
        Key::Insert => "Insert"@,
        Key::F(number) => "F("@ + decimal(number as nat) + ")"@,
        Key::Char(c) => "Char("@ + char_debug_text(c) + ")"@,
        Key::Alt(c) => "Alt("@ + char_debug_text(c) + ")"@,
        Key::Ctrl(c) => "Ctrl("@ + char_debug_text(c) + ")"@,
        Key::Null => "Null"@,
        Key::Esc => "Esc"@,
    }
}

fn digit_str(d: u8) -> (s: &'static str)
    requires
        d < 10,
    ensures
        s@ == seq![digit(d as nat)],
{
    proof {
        reveal_strlit("0");
        reveal_strlit("1");
        reveal_strlit("2");
        reveal_strlit("3");
        reveal_strlit("4");
        reveal_strlit("5");
        reveal_strlit("6");
        reveal_strlit("7");
        reveal_strlit("8");
        reveal_strlit("9");
    }
    let s = match d {
        0 => "0",
        1 => "1",
        2 => "2",
        3 => "3",
        4 => "4",
        5 => "5",
        6 => "6",
        7 => "7",
        8 => "8",
        _ => "9",
    };
    assert(s@ =~= seq![digit(d as nat)]);
    s
}

/// A number in decimal digits.
pub fn decimal_string(n: u8) -> (s: String)
    ensures
        s@ == decimal(n as nat),
    decreases n,
{
    if n < 10 {
        String::from_str(digit_str(n))
    } else {
        let mut s = decimal_string(n / 10);
        s.append(digit_str(n % 10));
        assert(s@ =~= decimal(n as nat));
        s
    }
}

fn bracketed(kind: &str, inner: &str) -> (s: String)
    ensures
        s@ == kind@ + inner@ + ")"@,
{
    let mut s = String::from_str(kind);
    s.append(inner);
    s.append(")");
    s
}

impl Key {
    /// Whether the key is a plain character, the only kind that continues a chord.
    pub open spec fn is_char(self) -> bool {
        self is Char
    }

    /// Whether the key is a plain character.
    pub fn is_plain_char(&self) -> (b: bool)
        ensures
            b == self.is_char(),
    {
        match self {
            Key::Char(_) => true,
            _ => false,
        }
    }

    /// The text that names the key on the screen.
    pub fn text(&self) -> (text: String)
        ensures
            text@ == key_text(*self),
    {
        match self {
            Key::Backspace => String::from_str("Backspace"),
            Key::Left => String::from_str("Left"),
            Key::Right => String::from_str("Right"),
            Key::Up => String::from_str("Up"),
            Key::Down => String::from_str("Down"),
            Key::Home => String::from_str("Home"),
            Key::End => String::from_str("End"),
            Key::PageUp => String::from_str("PageUp"),
            Key::PageDown => String::from_str("PageDown"),
            Key::BackTab => String::from_str("BackTab"),
            Key::Delete => String::from_str("Delete"),
            Key::Insert => String::from_str("Insert"),
            Key::F(number) => bracketed("F(", decimal_string(*number).as_str()),
            Key::Char(c) => bracketed("Char(", char_debug(*c).as_str()),
            Key::Alt(c) => bracketed("Alt(", char_debug(*c).as_str()),
            Key::Ctrl(c) => bracketed("Ctrl(", char_debug(*c).as_str()),
            Key::Null => String::from_str("Null"),
            Key::Esc => String::from_str("Esc"),
        }
    }
}

} // verus!
