//! A smaller set of cursor and screen escapes, each a control sequence
//! (`ESC [` and a code).

use vstd::prelude::*;

use crate::escapes::{control, number_then, number_then_of, pair_code, single_code};

verus! {

/// Moves the cursor.
#[derive(Debug, PartialEq, Eq, Clone, Copy)]
pub enum Cursor {
    /// Save cursor position (SCO).
    Save,
    /// Restore cursor position (SCO).
    Restore,
    /// Position 0, 0.
    Reset,
    /// One line up.
    Up,
    /// One line down.
    Down,
    Right(u32),
    Left(u32),
    /// Column N.
    Position(u32),
}

/// The code of a cursor movement, after `ESC [`.
pub open spec fn cursor_code(c: Cursor) -> Seq<char> {
    match c {
        Cursor::Save => seq!['s'],
        Cursor::Restore => seq!['u'],
        Cursor::Reset => seq!['H'],
        Cursor::Up => seq!['1', 'A'],
        Cursor::Down => seq!['1', 'B'],
        Cursor::Right(n) => number_then(n as nat, 'C'),
        Cursor::Left(n) => number_then(n as nat, 'D'),
        Cursor::Position(n) => number_then(n as nat, 'G'),
    }
}

impl Cursor {
    /// The code of this movement, after `ESC [`.
    pub fn code(&self) -> (r: String)
        ensures
            r@ == cursor_code(*self),
    {
        match self {
            Cursor::Save => single_code('s'),
            Cursor::Restore => single_code('u'),
            Cursor::Reset => single_code('H'),
            Cursor::Up => pair_code('1', 'A'),
            Cursor::Down => pair_code('1', 'B'),
            Cursor::Right(n) => number_then_of(*n, 'C'),
            Cursor::Left(n) => number_then_of(*n, 'D'),
            Cursor::Position(n) => number_then_of(*n, 'G'),
        }
    }

    /// The escape sequence.
    pub fn to_ansi(&self) -> (r: String)
        ensures
            r@ == seq!['\u{1b}', '['] + cursor_code(*self),
    {
        control(self.code())
    }
}

/// Jumps to the beginning of lines.
#[derive(Debug, PartialEq, Eq, Clone, Copy)]
pub enum Line {
    /// First character of the current line.
    Home,
    /// Beginning of the next line.
    Next,
    /// Beginning of the previous line.
    Previous,
    Up(u32),
    Down(u32),
}

/// The code of a line jump, after `ESC [`.
pub open spec fn line_code(l: Line) -> Seq<char> {
    match l {
        Line::Home => seq!['0', 'G'],
        Line::Next => seq!['1', 'E'],
        Line::Previous => seq!['1', 'F'],
        Line::Up(n) => number_then(n as nat, 'E'),
        Line::Down(n) => number_then(n as nat, 'F'),
    }
}

impl Line {
    /// The code of this jump, after `ESC [`.
    pub fn code(&self) -> (r: String)
        ensures
            r@ == line_code(*self),
    {
        match self {
            Line::Home => pair_code('0', 'G'),
            Line::Next => pair_code('1', 'E'),
            Line::Previous => pair_code('1', 'F'),
            Line::Up(n) => number_then_of(*n, 'E'),
            Line::Down(n) => number_then_of(*n, 'F'),
        }
    }

    /// The escape sequence.
    pub fn to_ansi(&self) -> (r: String)
        ensures
            r@ == seq!['\u{1b}', '['] + line_code(*self),
    {
        control(self.code())
    }
}

/// Screen erasing.
#[derive(Debug, PartialEq, Eq, Clone, Copy)]
pub enum Erase {
    Screen,
    /// Everything after.
    AllAfter,
    /// Everything before.
    AllBefore,
    Line,
    /// Everything after in a line.
    LineAfter,
    /// Everything before in a line.
    LineBefore,
}

/// The code of an erase, after `ESC [`.
pub open spec fn erase_code(e: Erase) -> Seq<char> {
    match e {
        Erase::Screen => seq!['2', 'J'],
        Erase::AllAfter => seq!['0', 'J'],
        Erase::AllBefore => seq!['1', 'J'],
        Erase::Line => seq!['2', 'K'],
        Erase::LineAfter => seq!['0', 'K'],
        Erase::LineBefore => seq!['1', 'K'],
    }
}

impl Erase {
    /// The code of this erase, after `ESC [`.
    pub fn code(&self) -> (r: String)
        ensures
            r@ == erase_code(*self),
    {
        match self {
            Erase::Screen => pair_code('2', 'J'),
            Erase::AllAfter => pair_code('0', 'J'),
            Erase::AllBefore => pair_code('1', 'J'),
            Erase::Line => pair_code('2', 'K'),
            Erase::LineAfter => pair_code('0', 'K'),
            Erase::LineBefore => pair_code('1', 'K'),
        }
    }

    /// The escape sequence.
    pub fn to_ansi(&self) -> (r: String)
        ensures
            r@ == seq!['\u{1b}', '['] + erase_code(*self),
    {
        control(self.code())
    }
}

} // verus!
