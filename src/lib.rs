//! A small toolkit for command line programs: a verified flag parser and
//! builders for ANSI terminal escape sequences.

pub mod text;
pub mod flags;
pub mod colors;
pub mod escapes;
pub mod lines;
pub mod common;
