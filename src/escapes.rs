//! The most common escapes that control a terminal: its state, the cursor,
//! line jumps and erasing. `to_ansi` gives the escape sequence of each.

use vstd::prelude::*;

use crate::text::{decimal, push_char, push_decimal, push_str};

verus! {

/// `n` in decimal followed by `c`.
pub open spec fn number_then(n: nat, c: char) -> Seq<char> {
    decimal(n) + seq![c]
}

/// `n` in decimal followed by `c`, as a string.
pub fn number_then_of(n: u32, c: char) -> (r: String)
    ensures
        r@ == number_then(n as nat, c),
{
    let mut s = String::new();
    push_decimal(&mut s, n);
    push_char(&mut s, c);
    assert(s@ =~= number_then(n as nat, c));
    s
}

/// `ESC`, then `code`.
fn escaped(code: String) -> (r: String)
    ensures
        r@ == seq!['\u{1b}'] + code@,
{
    let mut s = String::new();
    push_char(&mut s, '\u{1b}');
    push_str(&mut s, code.as_str());
    s
}

/// `ESC [`, then `code`.
pub(crate) fn control(code: String) -> (r: String)
    ensures
        r@ == seq!['\u{1b}', '['] + code@,
{
    let mut s = String::new();
    push_char(&mut s, '\u{1b}');
    push_char(&mut s, '[');
    push_str(&mut s, code.as_str());
    assert(s@ =~= seq!['\u{1b}', '['] + code@);
    s
}

/// System escapes.
#[derive(Debug, PartialEq, Eq, Clone, Copy)]
pub enum System<'a> {
    ResetState,
    SaveState,
    RestoreState,
    SetTitle(&'a str),
}

/// The code of a system escape, after `ESC`.
pub open spec fn system_code(s: System) -> Seq<char> {
    match s {
        System::ResetState => seq!['c'],
        System::SaveState => seq!['7'],
        System::RestoreState => seq!['8'],
        System::SetTitle(title) => seq![']', '0', ';'] + title@ + seq!['\u{7}'],
    }
}

impl<'a> System<'a> {
    /// The code of this escape, after `ESC`.
    pub fn code(&self) -> (r: String)
        ensures
            r@ == system_code(*self),
    {
        let mut s = String::new();
        match self {
            System::ResetState => push_char(&mut s, 'c'),
            System::SaveState => push_char(&mut s, '7'),
            System::RestoreState => push_char(&mut s, '8'),
            System::SetTitle(title) => {
                push_char(&mut s, ']');
                push_char(&mut s, '0');
                push_char(&mut s, ';');
                push_str(&mut s, title);
                push_char(&mut s, '\u{7}');
            },
        }
        assert(s@ =~= system_code(*self));
        s
    }

    /// The escape sequence.
    pub fn to_ansi(&self) -> (r: String)
        ensures
            r@ == seq!['\u{1b}'] + system_code(*self),
    {
        escaped(self.code())
    }
}

/// Cursor movement.
#[derive(Debug, PartialEq, Eq, Clone, Copy)]
pub enum Cursor {
    /// Save cursor position (SCO).
    Save,
    /// Restore cursor position (SCO).
    Restore,
    /// Position 0, 0.
    Reset,
    Up(u32),
    Down(u32),
    Right(u32),
    Left(u32),
    /// Move to column N.
    Column(u8),
    /// Set absolute position.
    Goto(u32, u32),
}

/// The code of a cursor movement, after `ESC [`.
pub open spec fn cursor_code(c: Cursor) -> Seq<char> {
    match c {
        Cursor::Save => seq!['s'],
        Cursor::Restore => seq!['u'],
        Cursor::Reset => seq!['H'],
        Cursor::Up(n) => number_then(n as nat, 'A'),
        Cursor::Down(n) => number_then(n as nat, 'B'),
        Cursor::Right(n) => number_then(n as nat, 'C'),
        Cursor::Left(n) => number_then(n as nat, 'D'),
        Cursor::Column(n) => number_then(n as nat, 'G'),
        Cursor::Goto(x, y) => number_then(x as nat, ';') + number_then(y as nat, 'H'),
    }
}

impl Cursor {
    /// The code of this movement, after `ESC [`.
    pub fn code(&self) -> (r: String)
        ensures
            r@ == cursor_code(*self),
    {
        match self {
            Cursor::Save => single_code('s'),
            Cursor::Restore => single_code('u'),
            Cursor::Reset => single_code('H'),
            Cursor::Up(n) => number_then_of(*n, 'A'),
            Cursor::Down(n) => number_then_of(*n, 'B'),
            Cursor::Right(n) => number_then_of(*n, 'C'),
            Cursor::Left(n) => number_then_of(*n, 'D'),
            Cursor::Column(n) => number_then_of(*n as u32, 'G'),
            Cursor::Goto(x, y) => {
                let mut s = number_then_of(*x, ';');
                let t = number_then_of(*y, 'H');
                push_str(&mut s, t.as_str());
                s
            },
        }
    }

    /// The escape sequence.
    pub fn to_ansi(&self) -> (r: String)
        ensures
            r@ == seq!['\u{1b}', '['] + cursor_code(*self),
    {
        control(self.code())
    }
}

/// The one-character code `c`.
pub(crate) fn single_code(c: char) -> (r: String)
    ensures
        r@ == seq![c],
{
    let mut s = String::new();
    push_char(&mut s, c);
    assert(s@ =~= seq![c]);
    s
}

/// The two-character code `a b`.
pub(crate) fn pair_code(a: char, b: char) -> (r: String)
    ensures
        r@ == seq![a, b],
{
    let mut s = String::new();
    push_char(&mut s, a);
    push_char(&mut s, b);
    assert(s@ =~= seq![a, b]);
    s
}

/// Jumps to the beginning of lines.
#[derive(Debug, PartialEq, Eq, Clone, Copy)]
pub enum Line {
    /// First character of the current line.
    Home,
    Up(u32),
    Down(u32),
}

/// The code of a line jump, after `ESC [`.
pub open spec fn line_code(l: Line) -> Seq<char> {
    match l {
        Line::Home => seq!['0', 'G'],
        Line::Up(n) => number_then(n as nat, 'E'),
        Line::Down(n) => number_then(n as nat, 'F'),
    }
}

impl Line {
    /// The code of this jump, after `ESC [`.
    pub fn code(&self) -> (r: String)
        ensures
            r@ == line_code(*self),
    {
        match self {
            Line::Home => pair_code('0', 'G'),
            Line::Up(n) => number_then_of(*n, 'E'),
            Line::Down(n) => number_then_of(*n, 'F'),
        }
    }

    /// The escape sequence.
    pub fn to_ansi(&self) -> (r: String)
        ensures
            r@ == seq!['\u{1b}', '['] + line_code(*self),
    {
        control(self.code())
    }
}

/// Screen erasing.
#[derive(Debug, PartialEq, Eq, Clone, Copy)]
pub enum Erase {
    /// Insert N blank characters.
    After(u32),
    Screen,
    /// Whole screen, including the scroll buffer.
    WholeScreen,
    /// Everything after.
    AllAfter,
    /// Everything before.
    AllBefore,
    Line,
    /// Everything after in a line.
    LineAfter,
    /// Everything before in a line.
    LineBefore,
}

/// The code of an erase, after `ESC [`.
pub open spec fn erase_code(e: Erase) -> Seq<char> {
    match e {
        Erase::After(n) => number_then(n as nat, '@'),
        Erase::Screen => seq!['2', 'J'],
        Erase::WholeScreen => seq!['3', 'J'],
        Erase::AllAfter => seq!['0', 'J'],
        Erase::AllBefore => seq!['1', 'J'],
        Erase::Line => seq!['2', 'K'],
        Erase::LineAfter => seq!['0', 'K'],
        Erase::LineBefore => seq!['1', 'K'],
    }
}

impl Erase {
    /// The code of this erase, after `ESC [`.
    pub fn code(&self) -> (r: String)
        ensures
            r@ == erase_code(*self),
    {
        match self {
            Erase::After(n) => number_then_of(*n, '@'),
            Erase::Screen => pair_code('2', 'J'),
            Erase::WholeScreen => pair_code('3', 'J'),
            Erase::AllAfter => pair_code('0', 'J'),
            Erase::AllBefore => pair_code('1', 'J'),
            Erase::Line => pair_code('2', 'K'),
            Erase::LineAfter => pair_code('0', 'K'),
            Erase::LineBefore => pair_code('1', 'K'),
        }
    }

    /// The escape sequence.
    pub fn to_ansi(&self) -> (r: String)
        ensures
            r@ == seq!['\u{1b}', '['] + erase_code(*self),
    {
        control(self.code())
    }
}

} // verus!
