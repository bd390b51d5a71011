//! Laws of the parser, stated over its model and proved.

use vstd::prelude::*;

use crate::flags::{
    double_dash, eq_position, find_decl, flag_part, inline_value, parse_all, parse_cluster,
    parse_token, parse_until, short_name, apply_flag, is_tail, with_prefix, lemma_token_consumes,
    Decl, ErrorModel, FlagErrorType, FlagValue,
};

verus! {

/// The first `=` of an argument lies within it, and an argument without `=`
/// is all flag part.
pub proof fn lemma_eq_position(t: Seq<char>)
    ensures
        eq_position(t) <= t.len(),
        (forall|k: int| 0 <= k < t.len() ==> t[k] != '=') ==> eq_position(t) == t.len(),
    decreases t.len(),
{
    if t.len() > 0 && t[0] != '=' {
        lemma_eq_position(t.drop_first());
        if forall|k: int| 0 <= k < t.len() ==> t[k] != '=' {
            assert forall|k: int| 0 <= k < t.drop_first().len() implies t.drop_first()[k] != '=' by {
                assert(t.drop_first()[k] == t[k + 1]);
            }
        }
    }
}

/// No declaration from index `from` on is found for a name that none of
/// them has.
pub proof fn lemma_find_decl_absent(decls: Seq<Decl>, name: Seq<char>, from: int)
    requires
        forall|i: int| 0 <= i < decls.len() ==> !(#[trigger] decls[i].1).contains(name),
    ensures
        find_decl(decls, name, from) is None,
    decreases decls.len() - from,
{
    if 0 <= from < decls.len() {
        lemma_find_decl_absent(decls, name, from + 1);
    }
}

/// After `--` every argument is plain, whatever it looks like.
pub proof fn lemma_rest_is_plain(decls: Seq<Decl>, stream: Seq<Seq<char>>)
    ensures
        parse_all(decls, stream, true) == Ok::<(Seq<Decl>, Seq<Seq<char>>), ErrorModel>(
            (decls, stream),
        ),
    decreases stream.len(),
{
    if stream.len() > 0 {
        lemma_rest_is_plain(decls, stream.drop_first());
        assert(seq![stream[0]] + stream.drop_first() =~= stream);
    } else {
        assert(stream =~= Seq::<Seq<char>>::empty());
    }
}

/// Arguments that do not start with a dash are all plain: parsing returns
/// them unchanged and in order, and leaves every slot as it was.
pub proof fn lemma_plain_arguments(decls: Seq<Decl>, stream: Seq<Seq<char>>)
    requires
        forall|k: int|
            0 <= k < stream.len() ==> (#[trigger] stream[k]).len() == 0 || stream[k][0] != '-',
    ensures
        parse_all(decls, stream, false) == Ok::<(Seq<Decl>, Seq<Seq<char>>), ErrorModel>(
            (decls, stream),
        ),
    decreases stream.len(),
{
    if stream.len() > 0 {
        let t = stream[0];
        let s1 = stream.drop_first();
        assert(t.len() == 0 || t[0] != '-');
        assert(t != double_dash());
        lemma_eq_position(t);
        assert(parse_token(decls, t, s1) == Ok::<
            Option<(Seq<Decl>, Seq<Seq<char>>)>,
            ErrorModel,
        >(None));
        assert forall|k: int| 0 <= k < s1.len() implies (#[trigger] s1[k]).len() == 0 || s1[k][0]
            != '-' by {
            assert(s1[k] == stream[k + 1]);
        }
        lemma_plain_arguments(decls, s1);
        assert(seq![t] + s1 =~= stream);
    } else {
        assert(stream =~= Seq::<Seq<char>>::empty());
    }
}

/// `--` followed by `rest`: parsing returns `rest` unchanged, without the
/// `--`, and leaves every slot as it was.
pub proof fn lemma_double_dash_then_plain(decls: Seq<Decl>, rest: Seq<Seq<char>>)
    ensures
        parse_all(decls, seq![double_dash()] + rest, false) == Ok::<
            (Seq<Decl>, Seq<Seq<char>>),
            ErrorModel,
        >((decls, rest)),
{
    let stream = seq![double_dash()] + rest;
    assert(stream[0] == double_dash());
    assert(stream.drop_first() =~= rest);
    lemma_rest_is_plain(decls, rest);
}

/// A long flag that no declaration has as an alias makes both kinds of
/// parse fail with `Unknown`, naming the flag as written.
pub proof fn lemma_unknown_long_flag(decls: Seq<Decl>, t: Seq<char>, stream: Seq<Seq<char>>)
    requires
        t.len() > 2,
        t[0] == '-',
        t[1] == '-',
        forall|k: int| 0 <= k < t.len() ==> t[k] != '=',
        forall|i: int| 0 <= i < decls.len() ==> !(#[trigger] decls[i].1).contains(t),
    ensures
        parse_all(decls, seq![t] + stream, false) == Err::<(Seq<Decl>, Seq<Seq<char>>), ErrorModel>(
            (FlagErrorType::Unknown, t),
        ),
        parse_until(decls, seq![t] + stream) == Err::<
            (Seq<Decl>, Seq<char>, Seq<Seq<char>>),
            ErrorModel,
        >((FlagErrorType::Unknown, t)),
{
    let all = seq![t] + stream;
    assert(all[0] == t);
    assert(all.drop_first() =~= stream);
    lemma_eq_position(t);
    assert(flag_part(t) =~= t);
    lemma_find_decl_absent(decls, t, 0);
    assert(t != double_dash());
}

/// In a group of short flags, a flag that takes a value ends the group:
/// when more characters follow it, parsing fails with `CannotCombine`,
/// naming that flag, whatever the following characters are declared as.
pub proof fn lemma_value_flag_ends_group(
    decls: Seq<Decl>,
    c: char,
    more: Seq<char>,
    stream: Seq<Seq<char>>,
)
    requires
        c != '-',
        c != '=',
        more.len() > 0,
        forall|k: int| 0 <= k < more.len() ==> more[k] != '=',
        stream.len() > 0,
        find_decl(decls, short_name(c), 0) matches Some(i) && (decls[i].0 is Text
            || decls[i].0 is List || decls[i].0 is Rest),
    ensures
        parse_all(decls, seq![seq!['-', c] + more] + stream, false) == Err::<
            (Seq<Decl>, Seq<Seq<char>>),
            ErrorModel,
        >((FlagErrorType::CannotCombine, short_name(c))),
{
    let t = seq!['-', c] + more;
    let all = seq![t] + stream;
    assert(all[0] == t);
    assert(all.drop_first() =~= stream);
    assert forall|k: int| 0 <= k < t.len() implies t[k] != '=' by {
        if k >= 2 {
            assert(t[k] == more[k - 2]);
        }
    }
    lemma_eq_position(t);
    assert(flag_part(t) =~= t);
    assert(inline_value(t) is None);
    assert(t != double_dash());
    let cs = t.drop_first();
    assert(cs[0] == c);
    assert(cs.drop_first() =~= more);
    let i = find_decl(decls, short_name(c), 0)->0;
    let r = apply_flag(decls[i].0, short_name(c), None, stream);
    assert(r matches Ok((_, _, took)) && took);
    let (nv, rest, took) = r->Ok_0;
    assert(parse_cluster(decls.update(i, (nv, decls[i].1)), more, None, rest, Some(c)) == Err::<
        (Seq<Decl>, Seq<Seq<char>>),
        ErrorModel,
    >((FlagErrorType::CannotCombine, short_name(c))));
    assert(parse_cluster(decls, cs, None, stream, None) == Err::<
        (Seq<Decl>, Seq<Seq<char>>),
        ErrorModel,
    >((FlagErrorType::CannotCombine, short_name(c))));
}

/// Declarations are found by their aliases alone.
pub proof fn lemma_find_decl_by_aliases(d1: Seq<Decl>, d2: Seq<Decl>, name: Seq<char>, from: int)
    requires
        d1.len() == d2.len(),
        forall|j: int| 0 <= j < d1.len() ==> (#[trigger] d1[j]).1 == d2[j].1,
    ensures
        find_decl(d1, name, from) == find_decl(d2, name, from),
    decreases d1.len() - from,
{
    if 0 <= from < d1.len() {
        assert(d1[from].1 == d2[from].1);
        lemma_find_decl_by_aliases(d1, d2, name, from + 1);
    }
}

/// The long alias of a counting flag adds exactly one to its count.
pub proof fn lemma_long_count_adds_one(
    decls: Seq<Decl>,
    t: Seq<char>,
    stream: Seq<Seq<char>>,
    i: int,
    n: int,
)
    requires
        t.len() > 2,
        t[0] == '-',
        t[1] == '-',
        forall|k: int| 0 <= k < t.len() ==> t[k] != '=',
        find_decl(decls, t, 0) == Some(i),
        decls[i].0 == FlagValue::Count(n),
        n < usize::MAX,
    ensures
        parse_token(decls, t, stream) == Ok::<
            Option<(Seq<Decl>, Seq<Seq<char>>)>,
            ErrorModel,
        >(Some((decls.update(i, (FlagValue::Count(n + 1), decls[i].1)), stream))),
{
    lemma_eq_position(t);
    assert(flag_part(t) =~= t);
}

/// `k` repetitions of the character of a counting flag add `k` to its
/// count (while it stays within `usize`).
pub proof fn lemma_cluster_counts(
    decls: Seq<Decl>,
    c: char,
    k: nat,
    stream: Seq<Seq<char>>,
    i: int,
    n: int,
)
    requires
        find_decl(decls, short_name(c), 0) == Some(i),
        0 <= i < decls.len(),
        decls[i].0 == FlagValue::Count(n),
        n + k <= usize::MAX,
    ensures
        parse_cluster(decls, Seq::new(k, |_j: int| c), None, stream, None) == Ok::<
            (Seq<Decl>, Seq<Seq<char>>),
            ErrorModel,
        >((decls.update(i, (FlagValue::Count(n + k), decls[i].1)), stream)),
    decreases k,
{
    let cs = Seq::new(k, |_j: int| c);
    if k == 0 {
        assert(decls.update(i, (FlagValue::Count(n + k), decls[i].1)) =~= decls);
    } else {
        let next = decls.update(i, (FlagValue::Count(n + 1), decls[i].1));
        assert(cs[0] == c);
        assert(cs.drop_first() =~= Seq::new((k - 1) as nat, |_j: int| c));
        lemma_find_decl_by_aliases(next, decls, short_name(c), 0);
        lemma_cluster_counts(next, c, (k - 1) as nat, stream, i, n + 1);
        assert(next.update(i, (FlagValue::Count(n + 1 + (k - 1)), next[i].1)) =~= decls.update(
            i,
            (FlagValue::Count(n + k), decls[i].1),
        ));
    }
}

/// A group of short flags made of one flag's character written `k` times
/// adds `k` to that flag's count.
pub proof fn lemma_short_count_repeats(
    decls: Seq<Decl>,
    c: char,
    k: nat,
    stream: Seq<Seq<char>>,
    i: int,
    n: int,
)
    requires
        c != '-',
        c != '=',
        k >= 1,
        find_decl(decls, short_name(c), 0) == Some(i),
        0 <= i < decls.len(),
        decls[i].0 == FlagValue::Count(n),
        n + k <= usize::MAX,
    ensures
        parse_token(decls, seq!['-'] + Seq::new(k, |_j: int| c), stream) == Ok::<
            Option<(Seq<Decl>, Seq<Seq<char>>)>,
            ErrorModel,
        >(Some((decls.update(i, (FlagValue::Count(n + k), decls[i].1)), stream))),
{
    let t = seq!['-'] + Seq::new(k, |_j: int| c);
    assert forall|m: int| 0 <= m < t.len() implies t[m] != '=' by {
        if m > 0 {
            assert(t[m] == c);
        }
    }
    lemma_eq_position(t);
    assert(flag_part(t) =~= t);
    assert(t[1] == c);
    assert(t.drop_first() =~= Seq::new(k, |_j: int| c));
    lemma_cluster_counts(decls, c, k, stream, i, n);
}

/// Parsing up to the first plain argument, then parsing what remains, agrees
/// with parsing the whole input at once (for input without empty
/// arguments): the same error, or the same declarations, with the argument
/// found put back in front of the remaining plain arguments. When no plain
/// argument is found, the whole input was flags: both parses leave the same
/// declarations, and the full parse finds no plain argument.
pub proof fn lemma_until_then_all(decls: Seq<Decl>, stream: Seq<Seq<char>>)
    requires
        forall|k: int| 0 <= k < stream.len() ==> (#[trigger] stream[k]).len() > 0,
    ensures
        match parse_until(decls, stream) {
            Err(e) => parse_all(decls, stream, false) == Err::<
                (Seq<Decl>, Seq<Seq<char>>),
                ErrorModel,
            >(e),
            Ok((d, sub, rest)) => if sub.len() == 0 {
                rest.len() == 0 && parse_all(decls, stream, false) == Ok::<
                    (Seq<Decl>, Seq<Seq<char>>),
                    ErrorModel,
                >((d, Seq::empty()))
            } else if sub == double_dash() {
                parse_all(decls, stream, false) == parse_all(d, rest, true)
            } else {
                parse_all(decls, stream, false) == with_prefix(seq![sub], parse_all(d, rest, false))
            },
        },
    decreases stream.len(),
{
    if stream.len() > 0 {
        let t = stream[0];
        let s1 = stream.drop_first();
        assert(t.len() > 0);
        if t != double_dash() {
            if let Ok(Some((d2, s2))) = parse_token(decls, t, s1) {
                lemma_token_consumes(decls, t, s1);
                assert(is_tail(s2, s1));
                assert forall|k: int| 0 <= k < s2.len() implies (#[trigger] s2[k]).len() > 0 by {
                    assert(s2[k] == s1.skip(s1.len() - s2.len())[k]);
                    assert(s2[k] == stream[k + s1.len() - s2.len() + 1]);
                }
                lemma_until_then_all(d2, s2);
            }
        }
    }
}

} // verus!
