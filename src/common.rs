//! Common helpers: program names from paths, and the decisions on whether
//! to use colors and underline styles, made from what the caller read from
//! the environment.

use vstd::prelude::*;

use crate::text::{chars_of, contains_chars, occurs_in, str_is, string_of_range};

verus! {

/// Where the last component of `p` starts: just after its last character
/// that is one of `seps`, or at the start if it has none.
pub open spec fn component_start(p: Seq<char>, seps: Seq<char>) -> nat
    decreases p.len(),
{
    if p.len() == 0 {
        0
    } else if seps.contains(p.last()) {
        p.len()
    } else {
        component_start(p.drop_last(), seps)
    }
}

/// The last component of the path `p`, with the directory separators
/// `seps`: what follows its last separator, or all of `p` if it has none.
pub open spec fn last_component(p: Seq<char>, seps: Seq<char>) -> Seq<char> {
    p.skip(component_start(p, seps) as int)
}

fn has_char(cs: &Vec<char>, c: char) -> (r: bool)
    ensures
        r == cs@.contains(c),
{
    let mut i: usize = 0;
    while i < cs.len()
        invariant
            i <= cs@.len(),
            forall|k: int| 0 <= k < i ==> cs@[k] != c,
        decreases cs.len() - i,
    {
        if cs[i] == c {
            assert(cs@[i as int] == c);
            return true;
        }
        i = i + 1;
    }
    false
}

/// Gets the file name from its path, where any character of `separators`
/// separates directories (`"/"` on POSIX systems, `"\\/"` on Windows).
pub fn name_from_path_with(path: &String, separators: &str) -> (r: String)
    ensures
        r@ == last_component(path@, separators@),
{
    let seps = chars_of(separators);
    let cs = chars_of(path.as_str());
    let mut i: usize = cs.len();
    assert(cs@.take(i as int) =~= cs@);
    while i > 0 && !has_char(&seps, cs[i - 1])
        invariant
            i <= cs@.len(),
            seps@ == separators@,
            component_start(cs@, seps@) == component_start(cs@.take(i as int), seps@),
        decreases i,
    {
        assert(cs@.take(i as int).drop_last() =~= cs@.take(i - 1));
        i = i - 1;
    }
    proof {
        if i == 0 {
            assert(cs@.take(0).len() == 0);
        }
    }
    let r = string_of_range(&cs, i, cs.len());
    assert(cs@.subrange(i as int, cs@.len() as int) =~= cs@.skip(i as int));
    r
}

/// Gets the file name from its path, with `/` as the directory separator
/// (`toilet/bin/program` gives `program`). See [`name_from_path_with`] for
/// other separator sets.
pub fn name_from_path(path: &String) -> (r: String)
    ensures
        r@ == last_component(path@, "/"@),
{
    name_from_path_with(path, "/")
}

/// Whether a `$TERMINAL` value names a terminal that supports underline
/// styles and colors.
pub open spec fn terminal_supports_underline(t: Seq<char>) -> bool {
    occurs_in(t, "vte"@) || occurs_in(t, "kitty"@) || occurs_in(t, "mintty"@) || occurs_in(
        t,
        "iterm2"@,
    ) || occurs_in(t, "alacritty"@)
}

/// Whether a `$TERM` value names a terminal that supports underline styles
/// and colors.
pub open spec fn term_supports_underline(t: Seq<char>) -> bool {
    occurs_in(t, "xterm-ghostty"@)
}

fn has_part(t: &Vec<char>, part: &str) -> (r: bool)
    ensures
        r == occurs_in(t@, part@),
{
    let p = chars_of(part);
    contains_chars(t, &p)
}

/// Whether underline styles can be used, given the values of `$TERMINAL`
/// and `$TERM` (`None` where a variable is not set).
pub fn underline_supported_by(terminal: Option<&str>, term: Option<&str>) -> (r: bool)
    ensures
        r == ((terminal matches Some(t) && terminal_supports_underline(t@)) || (term matches Some(
            t,
        ) && term_supports_underline(t@))),
{
    let by_terminal = match terminal {
        Some(t) => {
            let cs = chars_of(t);
            has_part(&cs, "vte") || has_part(&cs, "kitty") || has_part(&cs, "mintty") || has_part(
                &cs,
                "iterm2",
            ) || has_part(&cs, "alacritty")
        },
        None => false,
    };
    let by_term = match term {
        Some(t) => {
            let cs = chars_of(t);
            has_part(&cs, "xterm-ghostty")
        },
        None => false,
    };
    by_terminal || by_term
}

/// Whether colors should be used: both standard output and standard error
/// are terminals, `$NO_COLOR` is not set, and `$TERM` is not `dumb`.
pub fn colors_enabled(
    stderr_is_tty: bool,
    stdout_is_tty: bool,
    no_color_set: bool,
    term: Option<&str>,
) -> (r: bool)
    ensures
        r == (stderr_is_tty && stdout_is_tty && !no_color_set && !(term matches Some(t) && t@
            == "dumb"@)),
{
    let dumb = match term {
        Some(t) => {
            let d = chars_of("dumb");
            str_is(t, &d)
        },
        None => false,
    };
    stderr_is_tty && stdout_is_tty && !no_color_set && !dumb
}

} // verus!
