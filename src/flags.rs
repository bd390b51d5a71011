//! Command line argument parsing.
//!
//! Long flags are made of two dashes and a word (`--help`).
//! Short flags are made of a dash and a single character (`-n`).
//!
//! Short flags of the [`FlagType::BoolFlag`] type can be combined: `-vAsn`
//! sets all of `-v`, `-A`, `-s` and `-n`. Once a short flag in such a group
//! has taken a value, no further flag of the group may follow it.
//!
//! A flag that takes a value reads it either after an `=` in the same
//! argument (`-k=value`, `--key=value`) or from the next argument
//! (`-k value`).
//!
//! When parsing the whole input, the argument `--` makes the rest of the
//! input plain arguments and is itself dropped. When parsing only until a
//! subcommand, `--` counts as the first plain argument.
//!
//! A [`FlagType::RestFlag`] takes every argument after it, whatever it looks
//! like.
//!
//! Each declaration owns the slot that the parser fills; after parsing, the
//! caller reads the slots back from the declaration table. The contracts
//! state the outcome of a parse with the model in this module: `parse_all`
//! and `parse_until` over the views of the table and of the stream.

pub mod laws;

use vstd::prelude::*;

use crate::text::{chars_eq, chars_of, prefix_of, push_str, str_is, string_of, string_of_range};

verus! {

/// The kind of a flag, holding the value that parsing fills in.
#[derive(Debug, PartialEq, Eq, Clone)]
pub enum FlagType {
    /// Set to `true` when the flag is present.
    BoolFlag(bool),
    /// Requires a value; holds the last value given.
    StringFlag(String),
    /// Requires a value; holds every value given, in order.
    ManyFlag(Vec<String>),
    /// Counts how many times the flag occurs. A short flag counts each
    /// repetition of its character (`-vvv` is three); a long flag counts one.
    /// The count stops at `usize::MAX`.
    RepeatFlag(usize),
    /// Takes every argument that follows it, flags included; at least one
    /// value must be collected.
    RestFlag(Vec<String>),
}

/// The kinds of parse errors.
#[derive(Debug, PartialEq, Eq, Clone, Copy)]
pub enum FlagErrorType {
    /// A short flag that took a value was followed by another flag in the
    /// same argument.
    CannotCombine,
    /// A flag that requires a value got none.
    NoValueProvided,
    /// A boolean flag was given a value with `=`.
    ExtraValueProvided,
    /// The flag is not declared.
    Unknown,
}

/// A parse error, with the flag that caused it as the user wrote it.
#[derive(Debug)]
pub struct FlagError {
    pub error_type: FlagErrorType,
    /// The flag that caused this error, with its leading dashes.
    pub flag: String,
}

impl FlagType {
    /// A boolean flag, not yet set.
    pub fn bool_flag() -> (r: FlagType)
        ensures
            r@ == FlagValue::Switch(false),
    {
        FlagType::BoolFlag(false)
    }

    /// A flag that takes a value, with an empty string until it gets one.
    pub fn string_flag() -> (r: FlagType)
        ensures
            r@ == FlagValue::Text(Seq::empty()),
    {
        FlagType::StringFlag(String::new())
    }

    /// A flag that gathers values, with none yet.
    pub fn many_flag() -> (r: FlagType)
        ensures
            r@ == FlagValue::List(Seq::empty()),
    {
        let v: Vec<String> = Vec::new();
        assert(strings_view(v@) =~= Seq::<Seq<char>>::empty());
        FlagType::ManyFlag(v)
    }

    /// A counting flag, at zero.
    pub fn repeat_flag() -> (r: FlagType)
        ensures
            r@ == FlagValue::Count(0),
    {
        FlagType::RepeatFlag(0)
    }

    /// A flag that takes the rest of the arguments, with none yet.
    pub fn rest_flag() -> (r: FlagType)
        ensures
            r@ == FlagValue::Rest(Seq::empty()),
    {
        let v: Vec<String> = Vec::new();
        assert(strings_view(v@) =~= Seq::<Seq<char>>::empty());
        FlagType::RestFlag(v)
    }
}

impl FlagError {
    /// A message for the user, such as `Unknown flag --nope`.
    pub fn message(&self) -> (r: String)
        ensures
            r@ == match self.error_type {
                FlagErrorType::CannotCombine => "Flag "@ + self.flag@
                    + " requires a value and can't be combined"@,
                FlagErrorType::NoValueProvided => "No value provided for "@ + self.flag@,
                FlagErrorType::ExtraValueProvided => "Flag "@ + self.flag@
                    + " does not take a value"@,
                FlagErrorType::Unknown => "Unknown flag "@ + self.flag@,
            },
    {
        let mut s = String::new();
        match self.error_type {
            FlagErrorType::CannotCombine => {
                push_str(&mut s, "Flag ");
                push_str(&mut s, self.flag.as_str());
                push_str(&mut s, " requires a value and can't be combined");
            },
            FlagErrorType::NoValueProvided => {
                push_str(&mut s, "No value provided for ");
                push_str(&mut s, self.flag.as_str());
            },
            FlagErrorType::ExtraValueProvided => {
                push_str(&mut s, "Flag ");
                push_str(&mut s, self.flag.as_str());
                push_str(&mut s, " does not take a value");
            },
            FlagErrorType::Unknown => {
                push_str(&mut s, "Unknown flag ");
                push_str(&mut s, self.flag.as_str());
            },
        }
        assert(s@ =~= match self.error_type {
            FlagErrorType::CannotCombine => "Flag "@ + self.flag@
                + " requires a value and can't be combined"@,
            FlagErrorType::NoValueProvided => "No value provided for "@ + self.flag@,
            FlagErrorType::ExtraValueProvided => "Flag "@ + self.flag@ + " does not take a value"@,
            FlagErrorType::Unknown => "Unknown flag "@ + self.flag@,
        });
        s
    }
}

/// A flag declaration: its kind (and slot) and its aliases.
pub type Flag<'a> = (FlagType, Vec<&'a str>);

/// What a flag slot holds, as a mathematical value.
pub enum FlagValue {
    /// The slot of a [`FlagType::BoolFlag`].
    Switch(bool),
    /// The slot of a [`FlagType::StringFlag`].
    Text(Seq<char>),
    /// The slot of a [`FlagType::ManyFlag`].
    List(Seq<Seq<char>>),
    /// The slot of a [`FlagType::RepeatFlag`].
    Count(int),
    /// The slot of a [`FlagType::RestFlag`].
    Rest(Seq<Seq<char>>),
}

/// A declaration as a mathematical value: its slot and its aliases.
pub type Decl = (FlagValue, Seq<Seq<char>>);

/// An error as a mathematical value: its kind and the flag it names.
pub type ErrorModel = (FlagErrorType, Seq<char>);

/// The views of a sequence of strings.
pub open spec fn strings_view(v: Seq<String>) -> Seq<Seq<char>> {
    v.map_values(|s: String| s@)
}

impl View for FlagType {
    type V = FlagValue;

    open spec fn view(&self) -> FlagValue {
        match self {
            FlagType::BoolFlag(b) => FlagValue::Switch(*b),
            FlagType::StringFlag(s) => FlagValue::Text(s@),
            FlagType::ManyFlag(v) => FlagValue::List(strings_view(v@)),
            FlagType::RepeatFlag(n) => FlagValue::Count(*n as int),
            FlagType::RestFlag(v) => FlagValue::Rest(strings_view(v@)),
        }
    }
}

impl View for FlagError {
    type V = ErrorModel;

    open spec fn view(&self) -> ErrorModel {
        (self.error_type, self.flag@)
    }
}

/// The model of one declaration.
pub open spec fn decl_of(f: Flag) -> Decl {
    (f.0@, f.1@.map_values(|a: &str| a@))
}

/// The model of a declaration table.
pub open spec fn decls_of(flags: Seq<Flag>) -> Seq<Decl> {
    flags.map_values(|f: Flag| decl_of(f))
}

/// A forward-only stream of arguments, shared between successive parse
/// calls.
pub struct ArgStream {
    items: Vec<String>,
    pos: usize,
}

impl View for ArgStream {
    type V = Seq<Seq<char>>;

    /// The arguments that are still to come.
    closed spec fn view(&self) -> Seq<Seq<char>> {
        strings_view(self.items@.subrange(self.pos as int, self.items@.len() as int))
    }
}

impl ArgStream {
    #[verifier::type_invariant]
    spec fn inv(self) -> bool {
        self.pos <= self.items@.len()
    }

    /// A stream over `items`, from the first one on.
    pub fn new(items: Vec<String>) -> (r: ArgStream)
        ensures
            r@ == strings_view(items@),
    {
        let r = ArgStream { items, pos: 0 };
        assert(r.items@.subrange(0, r.items@.len() as int) =~= r.items@);
        r
    }

    /// The number of arguments still to come.
    pub fn len(&self) -> (r: usize)
        ensures
            r == self@.len(),
    {
        proof { use_type_invariant(self); }
        self.items.len() - self.pos
    }

    /// Takes the next argument, if any.
    pub fn next(&mut self) -> (r: Option<String>)
        ensures
            old(self)@.len() == 0 ==> r is None && final(self)@ == old(self)@,
            old(self)@.len() > 0 ==> r is Some && r->0@ == old(self)@[0]
                && final(self)@ == old(self)@.drop_first(),
    {
        proof { use_type_invariant(&*self); }
        if self.pos < self.items.len() {
            let s = self.items[self.pos].clone();
            proof {
                assert(self.items@.subrange(self.pos + 1, self.items@.len() as int) =~=
                    self.items@.subrange(self.pos as int, self.items@.len() as int).drop_first());
            }
            self.pos = self.pos + 1;
            Some(s)
        } else {
            None
        }
    }
}

/// `-c`: the short flag of the character `c`.
pub open spec fn short_name(c: char) -> Seq<char> {
    seq!['-', c]
}

/// The position of the first `=` in `t`, or the length of `t` if there is
/// none.
pub open spec fn eq_position(t: Seq<char>) -> nat
    decreases t.len(),
{
    if t.len() == 0 || t[0] == '=' {
        0
    } else {
        1 + eq_position(t.drop_first())
    }
}

/// The part of an argument before its first `=`.
pub open spec fn flag_part(t: Seq<char>) -> Seq<char> {
    t.take(eq_position(t) as int)
}

/// The part of an argument after its first `=`, if it has one.
pub open spec fn inline_value(t: Seq<char>) -> Option<Seq<char>> {
    if eq_position(t) < t.len() {
        Some(t.skip(eq_position(t) + 1int))
    } else {
        None
    }
}

/// The first declaration, from index `from` on, that has `name` among its
/// aliases.
pub open spec fn find_decl(decls: Seq<Decl>, name: Seq<char>, from: int) -> Option<int>
    decreases decls.len() - from,
{
    if from < 0 || from >= decls.len() {
        None
    } else if decls[from].1.contains(name) {
        Some(from)
    } else {
        find_decl(decls, name, from + 1)
    }
}

/// The value for a flag: the inline one if given, else the next argument.
/// Yields the value and the arguments that remain.
pub open spec fn take_value(val: Option<Seq<char>>, stream: Seq<Seq<char>>) -> Option<
    (Seq<char>, Seq<Seq<char>>),
> {
    match val {
        Some(v) => Some((v, stream)),
        None => if stream.len() > 0 {
            Some((stream[0], stream.drop_first()))
        } else {
            None
        },
    }
}

/// The effect of one occurrence of a flag, written `name`, on its slot `v`.
/// Yields the new slot, the arguments that remain, and whether the flag took
/// a value.
pub open spec fn apply_flag(
    v: FlagValue,
    name: Seq<char>,
    val: Option<Seq<char>>,
    stream: Seq<Seq<char>>,
) -> Result<(FlagValue, Seq<Seq<char>>, bool), ErrorModel> {
    match v {
        FlagValue::Switch(_) => if val is Some {
            Err((FlagErrorType::ExtraValueProvided, name))
        } else {
            Ok((FlagValue::Switch(true), stream, false))
        },
        FlagValue::Text(_) => match take_value(val, stream) {
            None => Err((FlagErrorType::NoValueProvided, name)),
            Some((x, rest)) => Ok((FlagValue::Text(x), rest, true)),
        },
        FlagValue::List(l) => match take_value(val, stream) {
            None => Err((FlagErrorType::NoValueProvided, name)),
            Some((x, rest)) => Ok((FlagValue::List(l.push(x)), rest, true)),
        },
        FlagValue::Count(n) => Ok(
            (FlagValue::Count(if n < usize::MAX { n + 1 } else { n }), stream, false),
        ),
        FlagValue::Rest(l) => {
            let all = match val {
                Some(x) => l.push(x),
                None => l,
            } + stream;
            if all.len() == 0 {
                Err((FlagErrorType::NoValueProvided, name))
            } else {
                Ok((FlagValue::Rest(all), Seq::empty(), true))
            }
        },
    }
}

/// The effect of the characters `cs` of a group of short flags, given the
/// group's inline value `val`. `owner` is the flag of the group that already
/// took a value, if any.
pub open spec fn parse_cluster(
    decls: Seq<Decl>,
    cs: Seq<char>,
    val: Option<Seq<char>>,
    stream: Seq<Seq<char>>,
    owner: Option<char>,
) -> Result<(Seq<Decl>, Seq<Seq<char>>), ErrorModel>
    decreases cs.len(),
{
    if cs.len() == 0 {
        Ok((decls, stream))
    } else if owner is Some {
        Err((FlagErrorType::CannotCombine, short_name(owner->0)))
    } else {
        let c = cs[0];
        match find_decl(decls, short_name(c), 0) {
            None => Err((FlagErrorType::Unknown, short_name(c))),
            Some(i) => match apply_flag(decls[i].0, short_name(c), val, stream) {
                Err(e) => Err(e),
                Ok((nv, rest, took)) => parse_cluster(
                    decls.update(i, (nv, decls[i].1)),
                    cs.drop_first(),
                    val,
                    rest,
                    if took { Some(c) } else { None },
                ),
            },
        }
    }
}

/// The effect of the argument `t`, followed by `stream`: `Ok(None)` when `t`
/// is a plain argument, else the new declarations and what remains of
/// `stream`. An argument of two or more characters that starts with `-` is a
/// flag: a long flag when its part before any `=` starts with `--`, else a
/// group of short flags (possibly empty, as in `-=x`).
pub open spec fn parse_token(decls: Seq<Decl>, t: Seq<char>, stream: Seq<Seq<char>>) -> Result<
    Option<(Seq<Decl>, Seq<Seq<char>>)>,
    ErrorModel,
> {
    let f = flag_part(t);
    let val = inline_value(t);
    if t.len() < 2 || t[0] != '-' {
        Ok(None)
    } else if f.len() >= 2 && f[1] == '-' {
        match find_decl(decls, f, 0) {
            None => Err((FlagErrorType::Unknown, f)),
            Some(i) => match apply_flag(decls[i].0, f, val, stream) {
                Err(e) => Err(e),
                Ok((nv, rest, _)) => Ok(Some((decls.update(i, (nv, decls[i].1)), rest))),
            },
        }
    } else {
        match parse_cluster(decls, f.drop_first(), val, stream, None) {
            Err(e) => Err(e),
            Ok(r) => Ok(Some(r)),
        }
    }
}

/// `--`
pub open spec fn double_dash() -> Seq<char> {
    seq!['-', '-']
}

/// `p` put in front of the plain arguments of `r`.
pub open spec fn with_prefix(
    p: Seq<Seq<char>>,
    r: Result<(Seq<Decl>, Seq<Seq<char>>), ErrorModel>,
) -> Result<(Seq<Decl>, Seq<Seq<char>>), ErrorModel> {
    match r {
        Ok((d, ps)) => Ok((d, p + ps)),
        Err(e) => Err(e),
    }
}

/// Parsing all of `stream`: the final declarations and the plain arguments
/// in order. `rest` is set once `--` has been seen.
pub open spec fn parse_all(decls: Seq<Decl>, stream: Seq<Seq<char>>, rest: bool) -> Result<
    (Seq<Decl>, Seq<Seq<char>>),
    ErrorModel,
>
    decreases stream.len(),
{
    if stream.len() == 0 {
        Ok((decls, Seq::empty()))
    } else {
        let t = stream[0];
        let s1 = stream.drop_first();
        if rest {
            with_prefix(seq![t], parse_all(decls, s1, true))
        } else if t == double_dash() {
            parse_all(decls, s1, true)
        } else {
            match parse_token(decls, t, s1) {
                Err(e) => Err(e),
                Ok(None) => with_prefix(seq![t], parse_all(decls, s1, false)),
                Ok(Some((d2, s2))) => {
                    proof {
                        lemma_token_consumes(decls, t, s1);
                    }
                    parse_all(d2, s2, false)
                },
            }
        }
    }
}

/// Parsing `stream` up to its first plain argument: the final declarations,
/// that argument (empty if there is none) and the arguments after it.
pub open spec fn parse_until(decls: Seq<Decl>, stream: Seq<Seq<char>>) -> Result<
    (Seq<Decl>, Seq<char>, Seq<Seq<char>>),
    ErrorModel,
>
    decreases stream.len(),
{
    if stream.len() == 0 {
        Ok((decls, Seq::empty(), Seq::empty()))
    } else {
        let t = stream[0];
        let s1 = stream.drop_first();
        if t == double_dash() {
            Ok((decls, t, s1))
        } else {
            match parse_token(decls, t, s1) {
                Err(e) => Err(e),
                Ok(None) => Ok((decls, t, s1)),
                Ok(Some((d2, s2))) => {
                    proof {
                        lemma_token_consumes(decls, t, s1);
                    }
                    parse_until(d2, s2)
                },
            }
        }
    }
}

/// A flag never adds arguments to the stream.
/// `a` is what remains of `b` after some of its first items are taken.
pub open spec fn is_tail(a: Seq<Seq<char>>, b: Seq<Seq<char>>) -> bool {
    a.len() <= b.len() && a == b.skip(b.len() - a.len())
}

/// A flag only takes arguments from the front of the stream.
pub proof fn lemma_apply_consumes(
    v: FlagValue,
    name: Seq<char>,
    val: Option<Seq<char>>,
    stream: Seq<Seq<char>>,
)
    ensures
        apply_flag(v, name, val, stream) is Ok ==> is_tail(
            apply_flag(v, name, val, stream)->Ok_0.1,
            stream,
        ),
{
    assert(stream.skip(0) =~= stream);
    if stream.len() > 0 {
        assert(stream.skip(1) =~= stream.drop_first());
    }
    assert(stream.skip(stream.len() as int) =~= Seq::<Seq<char>>::empty());
}

/// A group of short flags only takes arguments from the front of the
/// stream.
pub proof fn lemma_cluster_consumes(
    decls: Seq<Decl>,
    cs: Seq<char>,
    val: Option<Seq<char>>,
    stream: Seq<Seq<char>>,
    owner: Option<char>,
)
    ensures
        parse_cluster(decls, cs, val, stream, owner) is Ok ==> parse_cluster(
            decls,
            cs,
            val,
            stream,
            owner,
        )->Ok_0.1.len() <= stream.len() && is_tail(
            parse_cluster(decls, cs, val, stream, owner)->Ok_0.1,
            stream,
        ),
    decreases cs.len(),
{
    assert(stream.skip(0) =~= stream);
    if cs.len() > 0 && owner is None {
        let c = cs[0];
        if let Some(i) = find_decl(decls, short_name(c), 0) {
            lemma_apply_consumes(decls[i].0, short_name(c), val, stream);
            if let Ok((nv, rest, took)) = apply_flag(decls[i].0, short_name(c), val, stream) {
                let next = decls.update(i, (nv, decls[i].1));
                let o = if took {
                    Some(c)
                } else {
                    None
                };
                lemma_cluster_consumes(next, cs.drop_first(), val, rest, o);
                if let Ok((_, s2)) = parse_cluster(next, cs.drop_first(), val, rest, o) {
                    assert(s2 =~= stream.skip(stream.len() - s2.len()));
                }
            }
        }
    }
}

/// An argument that is a flag only takes arguments from the front of the
/// stream after it.
pub proof fn lemma_token_consumes(decls: Seq<Decl>, t: Seq<char>, stream: Seq<Seq<char>>)
    ensures
        parse_token(decls, t, stream) matches Ok(Some((_, s2))) ==> s2.len() <= stream.len()
            && is_tail(s2, stream),
{
    let f = flag_part(t);
    let val = inline_value(t);
    if let Some(i) = find_decl(decls, f, 0) {
        lemma_apply_consumes(decls[i].0, f, val, stream);
    }
    lemma_cluster_consumes(decls, f.drop_first(), val, stream, None);
}

/// The views of an optional string.
pub open spec fn option_view(v: Option<String>) -> Option<Seq<char>> {
    match v {
        Some(s) => Some(s@),
        None => None,
    }
}

fn flag_error(error_type: FlagErrorType, name: &Vec<char>) -> (r: FlagError)
    ensures
        r@ == (error_type, name@),
{
    FlagError { error_type, flag: string_of(name) }
}

/// The position of the first `=` in `t`, or its length.
fn find_eq(t: &Vec<char>) -> (p: usize)
    ensures
        p == eq_position(t@),
        p <= t@.len(),
{
    let mut i: usize = 0;
    assert(t@.skip(0) =~= t@);
    while i < t.len() && t[i] != '='
        invariant
            i <= t@.len(),
            eq_position(t@) == i + eq_position(t@.skip(i as int)),
        decreases t.len() - i,
    {
        assert(t@.skip(i as int).drop_first() =~= t@.skip(i + 1));
        i = i + 1;
    }
    assert(i == t@.len() ==> t@.skip(i as int).len() == 0);
    i
}

/// Whether `name` is one of `aliases`.
fn has_alias(aliases: &Vec<&str>, name: &Vec<char>) -> (r: bool)
    ensures
        r == aliases@.map_values(|a: &str| a@).contains(name@),
{
    let ghost m = aliases@.map_values(|a: &str| a@);
    let mut i: usize = 0;
    while i < aliases.len()
        invariant
            i <= aliases@.len(),
            m == aliases@.map_values(|a: &str| a@),
            forall|j: int| 0 <= j < i ==> m[j] != name@,
        decreases aliases.len() - i,
    {
        if str_is(aliases[i], name) {
            assert(m[i as int] == name@);
            return true;
        }
        i = i + 1;
    }
    false
}

/// The index of the first declaration that has `name` among its aliases.
fn find_flag(flags: &Vec<Flag>, name: &Vec<char>) -> (r: Option<usize>)
    ensures
        r matches Some(i) ==> find_decl(decls_of(flags@), name@, 0) == Some(i as int) && i
            < flags@.len(),
        r is None ==> find_decl(decls_of(flags@), name@, 0) is None,
{
    let ghost d = decls_of(flags@);
    let mut i: usize = 0;
    while i < flags.len()
        invariant
            i <= flags@.len(),
            d == decls_of(flags@),
            find_decl(d, name@, 0) == find_decl(d, name@, i as int),
        decreases flags.len() - i,
    {
        if has_alias(&flags[i].1, name) {
            return Some(i);
        }
        i = i + 1;
    }
    None
}

/// The value for a flag: `val` if given, else the next argument.
fn take_value_from(val: &Option<String>, args: &mut ArgStream) -> (r: Option<String>)
    ensures
        match take_value(option_view(*val), old(args)@) {
            None => r is None,
            Some((x, rest)) => r matches Some(s) && s@ == x && final(args)@ == rest,
        },
{
    match val {
        Some(v) => Some(v.clone()),
        None => args.next(),
    }
}

/// Applies one occurrence of a flag, written `name`, to its slot.
fn apply_to_slot(
    kind: &mut FlagType,
    name: &Vec<char>,
    val: &Option<String>,
    args: &mut ArgStream,
) -> (r: Result<bool, FlagError>)
    ensures
        match apply_flag(old(kind)@, name@, option_view(*val), old(args)@) {
            Ok((nv, rest, took)) => r == Ok::<bool, FlagError>(took) && final(kind)@ == nv
                && final(args)@ == rest,
            Err(e) => r matches Err(err) && err@ == e,
        },
{
    match kind {
        FlagType::BoolFlag(b) => {
            if val.is_some() {
                return Err(flag_error(FlagErrorType::ExtraValueProvided, name));
            }
            *b = true;
            Ok(false)
        },
        FlagType::StringFlag(s) => {
            match take_value_from(val, args) {
                Some(x) => {
                    *s = x;
                    Ok(true)
                },
                None => Err(flag_error(FlagErrorType::NoValueProvided, name)),
            }
        },
        FlagType::ManyFlag(v) => {
            match take_value_from(val, args) {
                Some(x) => {
                    assert(strings_view(v@.push(x)) =~= strings_view(v@).push(x@));
                    v.push(x);
                    Ok(true)
                },
                None => Err(flag_error(FlagErrorType::NoValueProvided, name)),
            }
        },
        FlagType::RepeatFlag(n) => {
            if *n < usize::MAX {
                *n = *n + 1;
            }
            Ok(false)
        },
        FlagType::RestFlag(v) => {
            let ghost l0 = v@;
            if let Some(x) = val {
                let y = x.clone();
                assert(strings_view(v@.push(y)) =~= strings_view(v@).push(x@));
                v.push(y);
            }
            let ghost all = strings_view(v@) + args@;
            loop
                invariant
                    strings_view(v@) + args@ == all,
                ensures
                    strings_view(v@) + args@ == all,
                    args@.len() == 0,
                decreases args@.len(),
            {
                match args.next() {
                    Some(x) => {
                        assert(strings_view(v@.push(x)) =~= strings_view(v@).push(x@));
                        v.push(x);
                    },
                    None => break,
                }
            }
            assert(strings_view(v@) =~= all);
            assert(args@ =~= Seq::<Seq<char>>::empty());
            if v.len() == 0 {
                Err(flag_error(FlagErrorType::NoValueProvided, name))
            } else {
                Ok(true)
            }
        },
    }
}

/// Applies one occurrence of a flag, written `name`, to declaration `i`.
fn apply_at(
    flags: &mut Vec<Flag>,
    i: usize,
    name: &Vec<char>,
    val: &Option<String>,
    args: &mut ArgStream,
) -> (r: Result<bool, FlagError>)
    requires
        i < old(flags)@.len(),
    ensures
        final(flags)@.len() == old(flags)@.len(),
        match apply_flag(decls_of(old(flags)@)[i as int].0, name@, option_view(*val), old(args)@) {
            Ok((nv, rest, took)) => r == Ok::<bool, FlagError>(took) && decls_of(final(flags)@)
                == decls_of(old(flags)@).update(i as int, (nv, decls_of(old(flags)@)[i as int].1))
                && final(args)@ == rest,
            Err(e) => r matches Err(err) && err@ == e,
        },
{
    let ghost before = flags@;
    let r = apply_to_slot(&mut flags[i].0, name, val, args);
    proof {
        if let Ok((nv, rest, took)) = apply_flag(
            decls_of(before)[i as int].0,
            name@,
            option_view(*val),
            old(args)@,
        ) {
            assert(decls_of(flags@) =~= decls_of(before).update(
                i as int,
                (nv, decls_of(before)[i as int].1),
            ));
        }
    }
    r
}

/// Parses one argument `arg`, taking values from `args` where a flag needs
/// them. Returns `Ok(false)` when `arg` is a plain argument.
fn parse_arg(arg: &String, args: &mut ArgStream, flags: &mut Vec<Flag>) -> (r: Result<
    bool,
    FlagError,
>)
    ensures
        final(flags)@.len() == old(flags)@.len(),
        match parse_token(decls_of(old(flags)@), arg@, old(args)@) {
            Ok(None) => r == Ok::<bool, FlagError>(false) && final(flags)@ == old(flags)@
                && final(args)@ == old(args)@,
            Ok(Some((d, rest))) => r == Ok::<bool, FlagError>(true) && decls_of(final(flags)@)
                == d && final(args)@ == rest,
            Err(e) => r matches Err(err) && err@ == e,
        },
{
    let cs = chars_of(arg.as_str());
    let p = find_eq(&cs);
    let val: Option<String> = if p < cs.len() {
        Some(string_of_range(&cs, p + 1, cs.len()))
    } else {
        None
    };
    proof {
        if p < cs.len() {
            assert(cs@.subrange(p + 1, cs@.len() as int) =~= cs@.skip(p + 1));
        }
    }
    let ghost f = flag_part(arg@);
    if cs.len() < 2 || cs[0] != '-' {
        return Ok(false);
    }
    if p >= 2 && cs[1] == '-' {
        let name = prefix_of(&cs, p);
        return match find_flag(flags, &name) {
            None => Err(flag_error(FlagErrorType::Unknown, &name)),
            Some(i) => {
                match apply_at(flags, i, &name, &val, args) {
                    Ok(_) => Ok(true),
                    Err(e) => Err(e),
                }
            },
        };
    }
    // A group of short flags: each character is a flag of its own.

    let ghost d0 = decls_of(flags@);
    let ghost s0 = args@;
    assert(p >= 1);
    assert(f.len() == p && f[0] == cs@[0]);
    assert(p >= 2 ==> f[1] == cs@[1]);
    assert(f.drop_first() =~= cs@.subrange(1, p as int));
    let mut owner: Option<char> = None;
    let mut i: usize = 1;
    while i < p
        invariant
            1 <= i <= p <= cs@.len(),
            cs@ == arg@,
            d0 == decls_of(old(flags)@),
            s0 == old(args)@,
            f == flag_part(arg@),
            f.len() == p,
            cs@.len() >= 2,
            cs@[0] == '-',
            !(f.len() >= 2 && f[1] == '-'),
            f.drop_first() == cs@.subrange(1, p as int),
            option_view(val) == inline_value(arg@),
            flags@.len() == old(flags)@.len(),
            parse_cluster(d0, cs@.subrange(1, p as int), option_view(val), s0, None)
                == parse_cluster(
                decls_of(flags@),
                cs@.subrange(i as int, p as int),
                option_view(val),
                args@,
                owner,
            ),
        decreases p - i,
    {
        let c = cs[i];
        let ghost dcur = decls_of(flags@);
        let ghost scur = args@;
        assert(cs@.subrange(i as int, p as int)[0] == c);
        assert(cs@.subrange(i as int, p as int).drop_first() =~= cs@.subrange(i + 1, p as int));
        if let Some(o) = owner {
            let owner_name = vec!['-', o];
            assert(owner_name@ =~= short_name(o));
            return Err(flag_error(FlagErrorType::CannotCombine, &owner_name));
        }
        let name = vec!['-', c];
        assert(name@ =~= short_name(c));
        match find_flag(flags, &name) {
            None => {
                return Err(flag_error(FlagErrorType::Unknown, &name));
            },
            Some(j) => {
                match apply_at(flags, j, &name, &val, args) {
                    Ok(took) => {
                        owner = if took {
                            Some(c)
                        } else {
                            None
                        };
                    },
                    Err(e) => {
                        assert(parse_cluster(
                            dcur,
                            cs@.subrange(i as int, p as int),
                            option_view(val),
                            scur,
                            owner,
                        ) == Err::<(Seq<Decl>, Seq<Seq<char>>), ErrorModel>(e@));
                        return Err(e);
                    },
                }
            },
        }
        i = i + 1;
    }
    Ok(true)
}

/// Putting `a` and then `b` in front of the plain arguments is putting
/// `a + b` in front of them.
pub proof fn lemma_prefix_twice(
    a: Seq<Seq<char>>,
    b: Seq<Seq<char>>,
    r: Result<(Seq<Decl>, Seq<Seq<char>>), ErrorModel>,
)
    ensures
        with_prefix(a, with_prefix(b, r)) == with_prefix(a + b, r),
{
    if let Ok((d, ps)) = r {
        assert(a + (b + ps) =~= (a + b) + ps);
    }
}

/// Whether `s` is the argument `--`.
fn is_double_dash(s: &String) -> (r: bool)
    ensures
        r == (s@ == double_dash()),
{
    let cs = chars_of(s.as_str());
    let dd = vec!['-', '-'];
    assert(dd@ =~= double_dash());
    chars_eq(&cs, &dd)
}

/// Consumes and parses flags and arguments from `args`.
///
/// Returns every argument that is not a flag, in order, and fills the slots
/// of `flags`. Fails on an unknown flag, on a flag that needs a value and
/// gets none, on a value given to a boolean flag, and on a short flag that
/// took a value and is followed by another flag in the same argument. After
/// an error the slots may be partly filled.
pub fn parse_flags(args: &mut ArgStream, flags: &mut Vec<Flag>) -> (r: Result<
    Vec<String>,
    FlagError,
>)
    requires
        table_well_formed(decls_of(old(flags)@)),
    ensures
        final(flags)@.len() == old(flags)@.len(),
        match parse_all(decls_of(old(flags)@), old(args)@, false) {
            Ok((d, ps)) => r matches Ok(v) && strings_view(v@) == ps && decls_of(final(flags)@)
                == d && final(args)@.len() == 0,
            Err(e) => r matches Err(err) && err@ == e,
        },
{
    let mut out: Vec<String> = Vec::new();
    let mut rest = false;
    assert(strings_view(out@) =~= Seq::<Seq<char>>::empty());
    proof {
        lemma_prefix_twice(Seq::empty(), Seq::empty(), parse_all(decls_of(flags@), args@, false));
        assert(Seq::<Seq<char>>::empty() + Seq::<Seq<char>>::empty() =~= Seq::<Seq<char>>::empty());
        if let Ok((d, ps)) = parse_all(decls_of(flags@), args@, false) {
            assert(Seq::<Seq<char>>::empty() + ps =~= ps);
        }
    }
    loop
        invariant
            flags@.len() == old(flags)@.len(),
            parse_all(decls_of(old(flags)@), old(args)@, false) == with_prefix(
                strings_view(out@),
                parse_all(decls_of(flags@), args@, rest),
            ),
        decreases args@.len(),
    {
        let ghost d = decls_of(flags@);
        let ghost st = args@;
        match args.next() {
            None => {
                assert(strings_view(out@) + Seq::<Seq<char>>::empty() =~= strings_view(out@));
                return Ok(out);
            },
            Some(arg) => {
                proof {
                    assert(strings_view(out@.push(arg)) =~= strings_view(out@) + seq![arg@]);
                }
                if rest {
                    proof {
                        lemma_prefix_twice(strings_view(out@), seq![arg@], parse_all(d, args@, true));
                    }
                    out.push(arg);
                } else if is_double_dash(&arg) {
                    rest = true;
                } else {
                    match parse_arg(&arg, args, flags) {
                        Err(e) => {
                            return Err(e);
                        },
                        Ok(false) => {
                            proof {
                                lemma_prefix_twice(
                                    strings_view(out@),
                                    seq![arg@],
                                    parse_all(d, args@, false),
                                );
                            }
                            out.push(arg);
                        },
                        Ok(true) => {
                            proof {
                                lemma_token_consumes(d, arg@, st.drop_first());
                            }
                        },
                    }
                }
            },
        }
    }
}

/// Works as [`parse_flags`], but stops at the first argument that is not a
/// flag and returns it, leaving what follows it in `args` for another parse.
/// Here `--` counts as such an argument. Returns an empty string when `args`
/// holds no such argument.
pub fn parse_flags_until_subcommand(args: &mut ArgStream, flags: &mut Vec<Flag>) -> (r: Result<
    String,
    FlagError,
>)
    requires
        table_well_formed(decls_of(old(flags)@)),
    ensures
        final(flags)@.len() == old(flags)@.len(),
        match parse_until(decls_of(old(flags)@), old(args)@) {
            Ok((d, sub, rest)) => r matches Ok(s) && s@ == sub && decls_of(final(flags)@) == d
                && final(args)@ == rest,
            Err(e) => r matches Err(err) && err@ == e,
        },
{
    loop
        invariant
            flags@.len() == old(flags)@.len(),
            parse_until(decls_of(old(flags)@), old(args)@) == parse_until(decls_of(flags@), args@),
        decreases args@.len(),
    {
        let ghost d = decls_of(flags@);
        let ghost st = args@;
        match args.next() {
            None => {
                return Ok(String::new());
            },
            Some(arg) => {
                if is_double_dash(&arg) {
                    return Ok(arg);
                }
                match parse_arg(&arg, args, flags) {
                    Err(e) => {
                        return Err(e);
                    },
                    Ok(false) => {
                        return Ok(arg);
                    },
                    Ok(true) => {
                        proof {
                            lemma_token_consumes(d, arg@, st.drop_first());
                        }
                    },
                }
            },
        }
    }
}

/// Whether `c` is a whitespace character (Unicode `White_Space`).
pub open spec fn is_space(c: char) -> bool {
    let u = c as u32;
    (0x09 <= u <= 0x0d) || u == 0x20 || u == 0x85 || u == 0xa0 || u == 0x1680 || (0x2000 <= u
        <= 0x200a) || u == 0x2028 || u == 0x2029 || u == 0x202f || u == 0x205f || u == 0x3000
}

/// A well-formed alias: no whitespace, and either a dash and one character
/// (`-h`) or two dashes and a word (`--help`).
pub open spec fn alias_well_formed(a: Seq<char>) -> bool {
    &&& forall|k: int| 0 <= k < a.len() ==> !is_space(#[trigger] a[k])
    &&& a.len() >= 2
    &&& a[0] == '-'
    &&& a.len() > 2 ==> a[1] == '-' && a[2] != '-'
}

/// Every alias of every declaration is well formed.
pub open spec fn table_well_formed(decls: Seq<Decl>) -> bool {
    forall|i: int, j: int|
        0 <= i < decls.len() && 0 <= j < decls[i].1.len() ==> alias_well_formed(
            #[trigger] decls[i].1[j],
        )
}

fn char_is_space(c: char) -> (r: bool)
    ensures
        r == is_space(c),
{
    let u = c as u32;
    (0x09 <= u && u <= 0x0d) || u == 0x20 || u == 0x85 || u == 0xa0 || u == 0x1680 || (0x2000 <= u
        && u <= 0x200a) || u == 0x2028 || u == 0x2029 || u == 0x202f || u == 0x205f || u == 0x3000
}

fn alias_is_well_formed(a: &str) -> (r: bool)
    ensures
        r == alias_well_formed(a@),
{
    let cs = chars_of(a);
    let mut k: usize = 0;
    while k < cs.len()
        invariant
            k <= cs@.len(),
            cs@ == a@,
            forall|m: int| 0 <= m < k ==> !is_space(#[trigger] cs@[m]),
        decreases cs.len() - k,
    {
        if char_is_space(cs[k]) {
            assert(is_space(a@[k as int]));
            return false;
        }
        k = k + 1;
    }
    if cs.len() < 2 || cs[0] != '-' {
        return false;
    }
    cs.len() == 2 || (cs[1] == '-' && cs[2] != '-')
}

/// Whether every alias in `flags` is well formed. Parsing requires this.
pub fn check_flags(flags: &Vec<Flag>) -> (r: bool)
    ensures
        r == table_well_formed(decls_of(flags@)),
{
    let ghost d = decls_of(flags@);
    let mut i: usize = 0;
    while i < flags.len()
        invariant
            i <= flags@.len(),
            d == decls_of(flags@),
            forall|x: int, j: int|
                0 <= x < i && 0 <= j < d[x].1.len() ==> alias_well_formed(#[trigger] d[x].1[j]),
        decreases flags.len() - i,
    {
        let aliases = &flags[i].1;
        let mut j: usize = 0;
        while j < aliases.len()
            invariant
                i < flags@.len(),
                j <= aliases@.len(),
                *aliases == flags@[i as int].1,
                d == decls_of(flags@),
                forall|x: int, y: int|
                    0 <= x < i && 0 <= y < d[x].1.len() ==> alias_well_formed(#[trigger] d[x].1[y]),
                forall|y: int| 0 <= y < j ==> alias_well_formed(#[trigger] d[i as int].1[y]),
            decreases aliases.len() - j,
        {
            if !alias_is_well_formed(aliases[j]) {
                assert(d[i as int].1[j as int] == aliases@[j as int]@);
                return false;
            }
            j = j + 1;
        }
        i = i + 1;
    }
    true
}

} // verus!
