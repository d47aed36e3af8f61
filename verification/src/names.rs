//! Names of LinkedIn members: splitting a full name, and removing the titles
//! that members put before it.
use vstd::prelude::*;
use vstd::string::*;
use crate::text::{
    chars_of, join, join_chars, starts_with, starts_with_chars, string_from_chars, sub_chars,
    trim, trim_chars, views, words, words_chars,
};

verus! {

/// A member's name: the first word, the rest, and the whole.
pub struct FullName {
    pub first_name: String,
    pub last_name: String,
    pub full_name: String,
}

/// The words of a name after the first, joined by single spaces.
pub open spec fn rest_of_name(ws: Seq<Seq<char>>) -> Seq<char> {
    join(ws.skip(1), seq![' '])
}

fn rest_words(parts: &Vec<Vec<char>>) -> (r: Vec<char>)
    requires
        parts.len() >= 1,
    ensures
        r@ == rest_of_name(views(parts@)),
{
    let mut rest: Vec<Vec<char>> = Vec::new();
    let mut i: usize = 1;
    while i < parts.len()
        invariant
            1 <= i <= parts.len(),
            views(rest@) == views(parts@).subrange(1, i as int),
        decreases parts.len() - i,
    {
        let ghost before = views(rest@);
        let c = crate::text::copy_chars(parts[i].as_slice());
        assert(c@ == views(parts@)[i as int]);
        rest.push(c);
        assert(views(rest@) =~= before.push(c@));
        i = i + 1;
        assert(views(rest@) =~= views(parts@).subrange(1, i as int));
    }
    assert(views(parts@).subrange(1, parts.len() as int) =~= views(parts@).skip(1));
    let sp = vec![' '];
    assert(sp@ =~= seq![' ']);
    join_chars(rest.as_slice(), sp.as_slice())
}

impl FullName {
    /// Splits a full name at whitespace: the first word is the first name,
    /// the others, joined by single spaces, the last name.
    pub fn split_name(full_name: &str) -> (r: FullName)
        requires
            words(full_name@).len() >= 1,
        ensures
            r.first_name@ == words(full_name@)[0],
            r.last_name@ == rest_of_name(words(full_name@)),
            r.full_name@ == full_name@,
    {
        let v = chars_of(full_name);
        let parts = words_chars(v.as_slice());
        assert(parts@[0]@ == views(parts@)[0]);
        let first_name = string_from_chars(parts[0].as_slice());
        let rest = rest_words(&parts);
        let last_name = string_from_chars(rest.as_slice());
        FullName { first_name, last_name, full_name: String::from_str(full_name) }
    }
}

/// The name split into its first word and the rest; a name of one word or
/// none is kept whole, with an empty rest.
pub open spec fn split_name_spec(name: Seq<char>) -> (Seq<char>, Seq<char>) {
    let ws = words(name);
    if ws.len() > 1 {
        (ws[0], rest_of_name(ws))
    } else {
        (name, seq![])
    }
}

/// Splits a name into its first word and the rest, joined by single spaces;
/// a name of one word (or none) is the first name, with an empty last name.
pub fn split_name(name: String) -> (r: Option<(String, String)>)
    ensures
        r matches Some(p) && (p.0@, p.1@) == split_name_spec(name@),
{
    let v = chars_of(name.as_str());
    let parts = words_chars(v.as_slice());
    if parts.len() > 1 {
        assert(parts@[0]@ == views(parts@)[0]);
        let first_name = string_from_chars(parts[0].as_slice());
        let rest = rest_words(&parts);
        Some((first_name, string_from_chars(rest.as_slice())))
    } else {
        Some((name, String::new()))
    }
}

/// The titles and tags that `remove_prefixes` strips from the start of a
/// name, in the order in which they are tried.
pub open spec fn name_prefix(i: int) -> Seq<char> {
    if i == 0 { "Dr."@ }
    else if i == 1 { "Mr."@ }
    else if i == 2 { "Mrs."@ }
    else if i == 3 { "Ms."@ }
    else if i == 4 { "Prof."@ }
    else if i == 5 { "he/him/his"@ }
    else if i == 6 { "He/Him/His"@ }
    else if i == 7 { "Ph.D"@ }
    else if i == 8 { "bsn"@ }
    else if i == 9 { "ceo"@ }
    else if i == 10 { "certified"@ }
    else if i == 11 { "cpc"@ }
    else if i == 12 { "dr."@ }
    else if i == 13 { "dr"@ }
    else if i == 14 { "dr ."@ }
    else if i == 15 { "drs"@ }
    else if i == 16 { "drs ."@ }
    else if i == 17 { "drs "@ }
    else if i == 18 { "expert"@ }
    else if i == 19 { "freelance"@ }
    else if i == 20 { "lion"@ }
    else if i == 21 { "mba"@ }
    else if i == 22 { "md"@ }
    else if i == 23 { "md."@ }
    else if i == 24 { "msc"@ }
    else if i == 25 { "ninja"@ }
    else if i == 26 { "phd"@ }
    else { "Ph.D."@ }
}

pub open spec fn prefix_count() -> int {
    28
}

fn name_prefix_str(i: usize) -> (r: &'static str)
    requires
        i < 28,
    ensures
        r@ == name_prefix(i as int),
{
    if i == 0 { "Dr." }
    else if i == 1 { "Mr." }
    else if i == 2 { "Mrs." }
    else if i == 3 { "Ms." }
    else if i == 4 { "Prof." }
    else if i == 5 { "he/him/his" }
    else if i == 6 { "He/Him/His" }
    else if i == 7 { "Ph.D" }
    else if i == 8 { "bsn" }
    else if i == 9 { "ceo" }
    else if i == 10 { "certified" }
    else if i == 11 { "cpc" }
    else if i == 12 { "dr." }
    else if i == 13 { "dr" }
    else if i == 14 { "dr ." }
    else if i == 15 { "drs" }
    else if i == 16 { "drs ." }
    else if i == 17 { "drs " }
    else if i == 18 { "expert" }
    else if i == 19 { "freelance" }
    else if i == 20 { "lion" }
    else if i == 21 { "mba" }
    else if i == 22 { "md" }
    else if i == 23 { "md." }
    else if i == 24 { "msc" }
    else if i == 25 { "ninja" }
    else if i == 26 { "phd" }
    else { "Ph.D." }
}

/// The name without the first listed prefix that it starts with (the rest
/// trimmed), trying the prefixes from the `i`-th on.
pub open spec fn remove_prefix_from(name: Seq<char>, i: int) -> Seq<char>
    decreases prefix_count() - i,
{
    if i < 0 || i >= prefix_count() {
        name
    } else if starts_with(name, name_prefix(i)) {
        trim(name.skip(name_prefix(i).len() as int))
    } else {
        remove_prefix_from(name, i + 1)
    }
}

/// Removes from a name the first listed title that it starts with, and the
/// whitespace around what is left.
pub fn remove_prefixes(name: &str) -> (r: Option<String>)
    ensures
        r matches Some(s) && s@ == remove_prefix_from(name@, 0),
{
    let v = chars_of(name);
    let mut i: usize = 0;
    while i < 28
        invariant
            i <= 28,
            v@ == name@,
            remove_prefix_from(name@, 0) == remove_prefix_from(name@, i as int),
        decreases 28 - i,
    {
        let p = chars_of(name_prefix_str(i));
        if starts_with_chars(v.as_slice(), p.as_slice()) {
            let rest = sub_chars(v.as_slice(), p.len(), v.len());
            assert(rest@ =~= v@.skip(p@.len() as int));
            let t = trim_chars(rest.as_slice());
            return Some(string_from_chars(t.as_slice()));
        }
        i = i + 1;
    }
    Some(String::from_str(name))
}

/// A profile's displayed name as a first and last name: the titles removed,
/// then the first word split from the rest.
pub fn name_tuple_from_full_name(name: &str) -> (r: Option<(String, String)>)
    ensures
        r matches Some(p) && (p.0@, p.1@) == split_name_spec(remove_prefix_from(name@, 0)),
{
    let clean_full_name = remove_prefixes(name);
    match clean_full_name {
        Some(name) => split_name(name),
        None => None,
    }
}

proof fn lemma_join_first(ws: Seq<Seq<char>>, sep: Seq<char>)
    requires
        ws.len() >= 2,
    ensures
        join(ws, sep) == ws[0] + sep + join(ws.skip(1), sep),
    decreases ws.len(),
{
    if ws.len() == 2 {
        assert(ws.drop_last() =~= seq![ws[0]]);
        assert(join(ws.drop_last(), sep) == ws[0]);
        assert(ws.skip(1) =~= seq![ws[1]]);
        assert(join(ws.skip(1), sep) == ws[1]);
        assert(join(ws, sep) == join(ws.drop_last(), sep) + sep + ws.last());
        assert(join(ws, sep) =~= ws[0] + sep + join(ws.skip(1), sep));
    } else {
        let d = ws.drop_last();
        lemma_join_first(d, sep);
        assert(d.skip(1) =~= ws.skip(1).drop_last());
        assert(ws.skip(1).last() == ws.last());
        assert(join(ws, sep) == join(d, sep) + sep + ws.last());
        assert(join(ws.skip(1), sep) == join(ws.skip(1).drop_last(), sep) + sep + ws.skip(1).last());
        assert(join(ws, sep) =~= ws[0] + sep + join(ws.skip(1), sep));
    }
}

/// Splitting a name of several words loses nothing but the whitespace: the
/// first name, a space and the last name are the name's words joined by
/// single spaces. A name of one word stays whole.
pub proof fn law_split_name_keeps_words(name: Seq<char>)
    ensures
        words(name).len() > 1 ==> split_name_spec(name).0 + seq![' '] + split_name_spec(name).1 == join(
            words(name),
            seq![' '],
        ),
        words(name).len() <= 1 ==> split_name_spec(name) == (name, Seq::<char>::empty()),
{
    if words(name).len() > 1 {
        lemma_join_first(words(name), seq![' ']);
    }
}

proof fn lemma_removed_from(s: Seq<char>, i: int, j: int)
    requires
        0 <= j <= i < prefix_count(),
        starts_with(s, name_prefix(i)),
        forall|k: int| j <= k < i ==> !starts_with(s, #[trigger] name_prefix(k)),
    ensures
        remove_prefix_from(s, j) == trim(s.skip(name_prefix(i).len() as int)),
    decreases i - j,
{
    if j < i {
        lemma_removed_from(s, i, j + 1);
    }
}

proof fn lemma_prefix_chars(s: Seq<char>, p: Seq<char>)
    requires
        starts_with(s, p),
    ensures
        forall|k: int| 0 <= k < p.len() ==> s[k] == p[k],
{
    assert forall|k: int| 0 <= k < p.len() implies s[k] == p[k] by {
        assert(s.take(p.len() as int)[k] == s[k]);
    }
}

/// The title `t`, the `i`-th tried, found first at the start of a name.
proof fn lemma_title_then(t: Seq<char>, rest: Seq<char>, i: int)
    requires
        0 <= i < prefix_count(),
        name_prefix(i) == t,
        forall|k: int| 0 <= k < i ==> !starts_with(t + rest, #[trigger] name_prefix(k)),
    ensures
        remove_prefix_from(t + rest, 0) == trim(rest),
{
    let s = t + rest;
    assert(s.take(t.len() as int) =~= t);
    lemma_removed_from(s, i, 0);
    assert(s.skip(t.len() as int) =~= rest);
}

/// A name that starts with one of the titles `"Dr."`, `"Mr."`, `"Mrs."`,
/// `"Ms."`, `"Prof."`, `"he/him/his"`, `"He/Him/His"` or `"Ph.D"` loses it,
/// and what follows is trimmed: `"Mrs. Jane Doe"` becomes `"Jane Doe"`.
pub proof fn law_titles_are_removed(rest: Seq<char>)
    ensures
        remove_prefix_from(seq!['D', 'r', '.'] + rest, 0) == trim(rest),
        remove_prefix_from(seq!['M', 'r', '.'] + rest, 0) == trim(rest),
        remove_prefix_from(seq!['M', 'r', 's', '.'] + rest, 0) == trim(rest),
        remove_prefix_from(seq!['M', 's', '.'] + rest, 0) == trim(rest),
        remove_prefix_from(seq!['P', 'r', 'o', 'f', '.'] + rest, 0) == trim(rest),
        remove_prefix_from(seq!['h', 'e', '/', 'h', 'i', 'm', '/', 'h', 'i', 's'] + rest, 0) == trim(rest),
        remove_prefix_from(seq!['H', 'e', '/', 'H', 'i', 'm', '/', 'H', 'i', 's'] + rest, 0) == trim(rest),
        remove_prefix_from(seq!['P', 'h', '.', 'D'] + rest, 0) == trim(rest),
{
    reveal_strlit("Dr.");
    reveal_strlit("Mr.");
    reveal_strlit("Mrs.");
    reveal_strlit("Ms.");
    reveal_strlit("Prof.");
    reveal_strlit("he/him/his");
    reveal_strlit("He/Him/His");
    reveal_strlit("Ph.D");
    reveal_strlit("bsn");
    reveal_strlit("ceo");
    reveal_strlit("certified");
    reveal_strlit("cpc");
    reveal_strlit("dr.");
    reveal_strlit("dr");
    reveal_strlit("dr .");
    reveal_strlit("drs");
    reveal_strlit("drs .");
    reveal_strlit("drs ");
    reveal_strlit("expert");
    reveal_strlit("freelance");
    reveal_strlit("lion");
    reveal_strlit("mba");
    reveal_strlit("md");
    reveal_strlit("md.");
    reveal_strlit("msc");
    reveal_strlit("ninja");
    reveal_strlit("phd");
    reveal_strlit("Ph.D.");
    {
        let t = seq!['D', 'r', '.'];
        let s = t + rest;
        assert(name_prefix(0) == t);
        assert forall|k: int| 0 <= k < 0 implies !starts_with(s, #[trigger] name_prefix(k)) by {
            if starts_with(s, name_prefix(k)) {
                lemma_prefix_chars(s, name_prefix(k));
                assert(s[0] == t[0] && s[1] == t[1]);
                assert(s[2] == t[2]);
            }
        }
        lemma_title_then(t, rest, 0);
    }
    {
        let t = seq!['M', 'r', '.'];
        let s = t + rest;
        assert(name_prefix(1) == t);
        assert forall|k: int| 0 <= k < 1 implies !starts_with(s, #[trigger] name_prefix(k)) by {
            if starts_with(s, name_prefix(k)) {
                lemma_prefix_chars(s, name_prefix(k));
                assert(s[0] == t[0] && s[1] == t[1]);
                assert(s[2] == t[2]);
            }
        }
        lemma_title_then(t, rest, 1);
    }
    {
        let t = seq!['M', 'r', 's', '.'];
        let s = t + rest;
        assert(name_prefix(2) == t);
        assert forall|k: int| 0 <= k < 2 implies !starts_with(s, #[trigger] name_prefix(k)) by {
            if starts_with(s, name_prefix(k)) {
                lemma_prefix_chars(s, name_prefix(k));
                assert(s[0] == t[0] && s[1] == t[1]);
                assert(s[2] == t[2]);
            }
        }
        lemma_title_then(t, rest, 2);
    }
    {
        let t = seq!['M', 's', '.'];
        let s = t + rest;
        assert(name_prefix(3) == t);
        assert forall|k: int| 0 <= k < 3 implies !starts_with(s, #[trigger] name_prefix(k)) by {
            if starts_with(s, name_prefix(k)) {
                lemma_prefix_chars(s, name_prefix(k));
                assert(s[0] == t[0] && s[1] == t[1]);
                assert(s[2] == t[2]);
            }
        }
        lemma_title_then(t, rest, 3);
    }
    {
        let t = seq!['P', 'r', 'o', 'f', '.'];
        let s = t + rest;
        assert(name_prefix(4) == t);
        assert forall|k: int| 0 <= k < 4 implies !starts_with(s, #[trigger] name_prefix(k)) by {
            if starts_with(s, name_prefix(k)) {
                lemma_prefix_chars(s, name_prefix(k));
                assert(s[0] == t[0] && s[1] == t[1]);
                assert(s[2] == t[2]);
            }
        }
        lemma_title_then(t, rest, 4);
    }
    {
        let t = seq!['h', 'e', '/', 'h', 'i', 'm', '/', 'h', 'i', 's'];
        let s = t + rest;
        assert(name_prefix(5) == t);
        assert forall|k: int| 0 <= k < 5 implies !starts_with(s, #[trigger] name_prefix(k)) by {
            if starts_with(s, name_prefix(k)) {
                lemma_prefix_chars(s, name_prefix(k));
                assert(s[0] == t[0] && s[1] == t[1]);
                assert(s[2] == t[2]);
            }
        }
        lemma_title_then(t, rest, 5);
    }
    {
        let t = seq!['H', 'e', '/', 'H', 'i', 'm', '/', 'H', 'i', 's'];
        let s = t + rest;
        assert(name_prefix(6) == t);
        assert forall|k: int| 0 <= k < 6 implies !starts_with(s, #[trigger] name_prefix(k)) by {
            if starts_with(s, name_prefix(k)) {
                lemma_prefix_chars(s, name_prefix(k));
                assert(s[0] == t[0] && s[1] == t[1]);
                assert(s[2] == t[2]);
            }
        }
        lemma_title_then(t, rest, 6);
    }
    {
        let t = seq!['P', 'h', '.', 'D'];
        let s = t + rest;
        assert(name_prefix(7) == t);
        assert forall|k: int| 0 <= k < 7 implies !starts_with(s, #[trigger] name_prefix(k)) by {
            if starts_with(s, name_prefix(k)) {
                lemma_prefix_chars(s, name_prefix(k));
                assert(s[0] == t[0] && s[1] == t[1]);
                assert(s[2] == t[2]);
            }
        }
        lemma_title_then(t, rest, 7);
    }
}

/// A name that starts with one of `"bsn"`, `"ceo"`, `"certified"`, `"cpc"`
/// or `"dr."` loses it, and what follows is trimmed; so does one that starts
/// with `"dr"` when no `"."` follows it.
pub proof fn law_tag_words_are_removed(rest: Seq<char>)
    ensures
        remove_prefix_from(seq!['b', 's', 'n'] + rest, 0) == trim(rest),
        remove_prefix_from(seq!['c', 'e', 'o'] + rest, 0) == trim(rest),
        remove_prefix_from(seq!['c', 'e', 'r', 't', 'i', 'f', 'i', 'e', 'd'] + rest, 0) == trim(rest),
        remove_prefix_from(seq!['c', 'p', 'c'] + rest, 0) == trim(rest),
        remove_prefix_from(seq!['d', 'r', '.'] + rest, 0) == trim(rest),
        (rest.len() == 0 || rest[0] != '.') ==> remove_prefix_from(seq!['d', 'r'] + rest, 0) == trim(rest),
{
    reveal_strlit("Dr.");
    reveal_strlit("Mr.");
    reveal_strlit("Mrs.");
    reveal_strlit("Ms.");
    reveal_strlit("Prof.");
    reveal_strlit("he/him/his");
    reveal_strlit("He/Him/His");
    reveal_strlit("Ph.D");
    reveal_strlit("bsn");
    reveal_strlit("ceo");
    reveal_strlit("certified");
    reveal_strlit("cpc");
    reveal_strlit("dr.");
    reveal_strlit("dr");
    reveal_strlit("dr .");
    reveal_strlit("drs");
    reveal_strlit("drs .");
    reveal_strlit("drs ");
    reveal_strlit("expert");
    reveal_strlit("freelance");
    reveal_strlit("lion");
    reveal_strlit("mba");
    reveal_strlit("md");
    reveal_strlit("md.");
    reveal_strlit("msc");
    reveal_strlit("ninja");
    reveal_strlit("phd");
    reveal_strlit("Ph.D.");
    {
        let t = seq!['b', 's', 'n'];
        let s = t + rest;
        assert(name_prefix(8) == t);
        assert forall|k: int| 0 <= k < 8 implies !starts_with(s, #[trigger] name_prefix(k)) by {
            if starts_with(s, name_prefix(k)) {
                lemma_prefix_chars(s, name_prefix(k));
                assert(s[0] == t[0] && s[1] == t[1]);
                assert(s[2] == t[2]);
            }
        }
        lemma_title_then(t, rest, 8);
    }
    {
        let t = seq!['c', 'e', 'o'];
        let s = t + rest;
        assert(name_prefix(9) == t);
        assert forall|k: int| 0 <= k < 9 implies !starts_with(s, #[trigger] name_prefix(k)) by {
            if starts_with(s, name_prefix(k)) {
                lemma_prefix_chars(s, name_prefix(k));
                assert(s[0] == t[0] && s[1] == t[1]);
                assert(s[2] == t[2]);
            }
        }
        lemma_title_then(t, rest, 9);
    }
    {
        let t = seq!['c', 'e', 'r', 't', 'i', 'f', 'i', 'e', 'd'];
        let s = t + rest;
        assert(name_prefix(10) == t);
        assert forall|k: int| 0 <= k < 10 implies !starts_with(s, #[trigger] name_prefix(k)) by {
            if starts_with(s, name_prefix(k)) {
                lemma_prefix_chars(s, name_prefix(k));
                assert(s[0] == t[0] && s[1] == t[1]);
                assert(s[2] == t[2]);
            }
        }
        lemma_title_then(t, rest, 10);
    }
    {
        let t = seq!['c', 'p', 'c'];
        let s = t + rest;
        assert(name_prefix(11) == t);
        assert forall|k: int| 0 <= k < 11 implies !starts_with(s, #[trigger] name_prefix(k)) by {
            if starts_with(s, name_prefix(k)) {
                lemma_prefix_chars(s, name_prefix(k));
                assert(s[0] == t[0] && s[1] == t[1]);
                assert(s[2] == t[2]);
            }
        }
        lemma_title_then(t, rest, 11);
    }
    {
        let t = seq!['d', 'r', '.'];
        let s = t + rest;
        assert(name_prefix(12) == t);
        assert forall|k: int| 0 <= k < 12 implies !starts_with(s, #[trigger] name_prefix(k)) by {
            if starts_with(s, name_prefix(k)) {
                lemma_prefix_chars(s, name_prefix(k));
                assert(s[0] == t[0] && s[1] == t[1]);
                assert(s[2] == t[2]);
            }
        }
        lemma_title_then(t, rest, 12);
    }
    if rest.len() == 0 || rest[0] != '.' {
        {
            let t = seq!['d', 'r'];
            let s = t + rest;
            assert(name_prefix(13) == t);
            assert forall|k: int| 0 <= k < 13 implies !starts_with(s, #[trigger] name_prefix(k)) by {
                if starts_with(s, name_prefix(k)) {
                    lemma_prefix_chars(s, name_prefix(k));
                    assert(s[0] == t[0] && s[1] == t[1]);
                    if rest.len() > 0 {
                        assert(s[2] == rest[0]);
                    }
                }
            }
            lemma_title_then(t, rest, 13);
        }
    }
}

/// A name that starts with one of `"expert"`, `"freelance"`, `"lion"`,
/// `"mba"`, `"md"`, `"msc"`, `"ninja"` or `"phd"` loses it, and what follows
/// is trimmed.
pub proof fn law_trailing_tags_are_removed(rest: Seq<char>)
    ensures
        remove_prefix_from(seq!['e', 'x', 'p', 'e', 'r', 't'] + rest, 0) == trim(rest),
        remove_prefix_from(seq!['f', 'r', 'e', 'e', 'l', 'a', 'n', 'c', 'e'] + rest, 0) == trim(rest),
        remove_prefix_from(seq!['l', 'i', 'o', 'n'] + rest, 0) == trim(rest),
        remove_prefix_from(seq!['m', 'b', 'a'] + rest, 0) == trim(rest),
        remove_prefix_from(seq!['m', 'd'] + rest, 0) == trim(rest),
        remove_prefix_from(seq!['m', 's', 'c'] + rest, 0) == trim(rest),
        remove_prefix_from(seq!['n', 'i', 'n', 'j', 'a'] + rest, 0) == trim(rest),
        remove_prefix_from(seq!['p', 'h', 'd'] + rest, 0) == trim(rest),
{
    reveal_strlit("Dr.");
    reveal_strlit("Mr.");
    reveal_strlit("Mrs.");
    reveal_strlit("Ms.");
    reveal_strlit("Prof.");
    reveal_strlit("he/him/his");
    reveal_strlit("He/Him/His");
    reveal_strlit("Ph.D");
    reveal_strlit("bsn");
    reveal_strlit("ceo");
    reveal_strlit("certified");
    reveal_strlit("cpc");
    reveal_strlit("dr.");
    reveal_strlit("dr");
    reveal_strlit("dr .");
    reveal_strlit("drs");
    reveal_strlit("drs .");
    reveal_strlit("drs ");
    reveal_strlit("expert");
    reveal_strlit("freelance");
    reveal_strlit("lion");
    reveal_strlit("mba");
    reveal_strlit("md");
    reveal_strlit("md.");
    reveal_strlit("msc");
    reveal_strlit("ninja");
    reveal_strlit("phd");
    reveal_strlit("Ph.D.");
    {
        let t = seq!['e', 'x', 'p', 'e', 'r', 't'];
        let s = t + rest;
        assert(name_prefix(18) == t);
        assert forall|k: int| 0 <= k < 18 implies !starts_with(s, #[trigger] name_prefix(k)) by {
            if starts_with(s, name_prefix(k)) {
                lemma_prefix_chars(s, name_prefix(k));
                assert(s[0] == t[0] && s[1] == t[1]);
                assert(s[2] == t[2]);
            }
        }
        lemma_title_then(t, rest, 18);
    }
    {
        let t = seq!['f', 'r', 'e', 'e', 'l', 'a', 'n', 'c', 'e'];
        let s = t + rest;
        assert(name_prefix(19) == t);
        assert forall|k: int| 0 <= k < 19 implies !starts_with(s, #[trigger] name_prefix(k)) by {
            if starts_with(s, name_prefix(k)) {
                lemma_prefix_chars(s, name_prefix(k));
                assert(s[0] == t[0] && s[1] == t[1]);
                assert(s[2] == t[2]);
            }
        }
        lemma_title_then(t, rest, 19);
    }
    {
        let t = seq!['l', 'i', 'o', 'n'];
        let s = t + rest;
        assert(name_prefix(20) == t);
        assert forall|k: int| 0 <= k < 20 implies !starts_with(s, #[trigger] name_prefix(k)) by {
            if starts_with(s, name_prefix(k)) {
                lemma_prefix_chars(s, name_prefix(k));
                assert(s[0] == t[0] && s[1] == t[1]);
                assert(s[2] == t[2]);
            }
        }
        lemma_title_then(t, rest, 20);
    }
    {
        let t = seq!['m', 'b', 'a'];
        let s = t + rest;
        assert(name_prefix(21) == t);
        assert forall|k: int| 0 <= k < 21 implies !starts_with(s, #[trigger] name_prefix(k)) by {
            if starts_with(s, name_prefix(k)) {
                lemma_prefix_chars(s, name_prefix(k));
                assert(s[0] == t[0] && s[1] == t[1]);
                assert(s[2] == t[2]);
            }
        }
        lemma_title_then(t, rest, 21);
    }
    {
        let t = seq!['m', 'd'];
        let s = t + rest;
        assert(name_prefix(22) == t);
        assert forall|k: int| 0 <= k < 22 implies !starts_with(s, #[trigger] name_prefix(k)) by {
            if starts_with(s, name_prefix(k)) {
                lemma_prefix_chars(s, name_prefix(k));
                assert(s[0] == t[0] && s[1] == t[1]);
                if rest.len() > 0 {
                    assert(s[2] == rest[0]);
                }
            }
        }
        lemma_title_then(t, rest, 22);
    }
    {
        let t = seq!['m', 's', 'c'];
        let s = t + rest;
        assert(name_prefix(24) == t);
        assert forall|k: int| 0 <= k < 24 implies !starts_with(s, #[trigger] name_prefix(k)) by {
            if starts_with(s, name_prefix(k)) {
                lemma_prefix_chars(s, name_prefix(k));
                assert(s[0] == t[0] && s[1] == t[1]);
                assert(s[2] == t[2]);
            }
        }
        lemma_title_then(t, rest, 24);
    }
    {
        let t = seq!['n', 'i', 'n', 'j', 'a'];
        let s = t + rest;
        assert(name_prefix(25) == t);
        assert forall|k: int| 0 <= k < 25 implies !starts_with(s, #[trigger] name_prefix(k)) by {
            if starts_with(s, name_prefix(k)) {
                lemma_prefix_chars(s, name_prefix(k));
                assert(s[0] == t[0] && s[1] == t[1]);
                assert(s[2] == t[2]);
            }
        }
        lemma_title_then(t, rest, 25);
    }
    {
        let t = seq!['p', 'h', 'd'];
        let s = t + rest;
        assert(name_prefix(26) == t);
        assert forall|k: int| 0 <= k < 26 implies !starts_with(s, #[trigger] name_prefix(k)) by {
            if starts_with(s, name_prefix(k)) {
                lemma_prefix_chars(s, name_prefix(k));
                assert(s[0] == t[0] && s[1] == t[1]);
                assert(s[2] == t[2]);
            }
        }
        lemma_title_then(t, rest, 26);
    }
}

} // verus!
