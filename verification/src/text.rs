//! Character-level string operations with their meaning stated over `Seq<char>`.
//!
//! The spec functions here say what std's `str` methods of the same name
//! compute (`trim`, `find`, `split`, `split_whitespace`, `replace`, `join`,
//! `starts_with`, `trim_end_matches`); the executable functions compute them on
//! slices of `char` and are proved to agree.
use vstd::prelude::*;

verus! {

/// The characters for which `char::is_whitespace` holds (Unicode `White_Space`).
pub open spec fn is_ws(c: char) -> bool {
    ||| ('\u{9}' <= c && c <= '\u{d}')
    ||| c == ' '
    ||| c == '\u{85}'
    ||| c == '\u{a0}'
    ||| c == '\u{1680}'
    ||| ('\u{2000}' <= c && c <= '\u{200a}')
    ||| c == '\u{2028}'
    ||| c == '\u{2029}'
    ||| c == '\u{202f}'
    ||| c == '\u{205f}'
    ||| c == '\u{3000}'
}

/// Leading whitespace removed.
pub open spec fn trim_start(s: Seq<char>) -> Seq<char>
    decreases s.len(),
{
    if s.len() > 0 && is_ws(s[0]) {
        trim_start(s.drop_first())
    } else {
        s
    }
}

/// Trailing whitespace removed.
pub open spec fn trim_end(s: Seq<char>) -> Seq<char>
    decreases s.len(),
{
    if s.len() > 0 && is_ws(s.last()) {
        trim_end(s.drop_last())
    } else {
        s
    }
}

/// `str::trim`: leading and trailing whitespace removed.
pub open spec fn trim(s: Seq<char>) -> Seq<char> {
    trim_end(trim_start(s))
}

/// Trailing occurrences of `c` removed (`str::trim_end_matches` with a `char`).
pub open spec fn strip_trailing(s: Seq<char>, c: char) -> Seq<char>
    decreases s.len(),
{
    if s.len() > 0 && s.last() == c {
        strip_trailing(s.drop_last(), c)
    } else {
        s
    }
}

/// `p` occurs in `s` at index `i`.
pub open spec fn match_at(s: Seq<char>, p: Seq<char>, i: int) -> bool {
    0 <= i && i + p.len() <= s.len() && s.subrange(i, i + p.len()) == p
}

/// The first index at or after `i` where `p` occurs in `s`.
pub open spec fn find_from(s: Seq<char>, p: Seq<char>, i: int) -> Option<int>
    decreases s.len() + 1 - i,
{
    if i < 0 || i > s.len() || i + p.len() > s.len() {
        None
    } else if match_at(s, p, i) {
        Some(i)
    } else {
        find_from(s, p, i + 1)
    }
}

/// `str::find`: the first index where `p` occurs in `s`.
pub open spec fn find(s: Seq<char>, p: Seq<char>) -> Option<int> {
    find_from(s, p, 0)
}

/// `str::contains`.
pub open spec fn contains(s: Seq<char>, p: Seq<char>) -> bool {
    find(s, p) is Some
}

/// `str::starts_with`.
pub open spec fn starts_with(s: Seq<char>, p: Seq<char>) -> bool {
    p.len() <= s.len() && s.take(p.len() as int) == p
}

/// The pieces of `s` split at the occurrences of `p`, scanning from index `i`
/// with the current piece starting at `start`.
pub open spec fn split_from(s: Seq<char>, p: Seq<char>, start: int, i: int) -> Seq<Seq<char>>
    decreases s.len() + 1 - i,
{
    if p.len() == 0 || i < 0 || i > s.len() || i + p.len() > s.len() {
        seq![s.subrange(start, s.len() as int)]
    } else if match_at(s, p, i) {
        seq![s.subrange(start, i)] + split_from(s, p, i + p.len(), i + p.len())
    } else {
        split_from(s, p, start, i + 1)
    }
}

/// The contents of a list of character vectors.
pub open spec fn views(v: Seq<Vec<char>>) -> Seq<Seq<char>> {
    Seq::new(v.len(), |i: int| v[i]@)
}

/// `str::split` with a non-empty pattern: the pieces between the
/// non-overlapping occurrences of `p`, from left to right.
pub open spec fn split(s: Seq<char>, p: Seq<char>) -> Seq<Seq<char>> {
    split_from(s, p, 0, 0)
}

/// The words of `s` from index `i` on, `cur` being the word read so far.
pub open spec fn words_from(s: Seq<char>, i: int, cur: Seq<char>) -> Seq<Seq<char>>
    decreases s.len() - i,
{
    if i < 0 || i >= s.len() {
        if cur.len() > 0 {
            seq![cur]
        } else {
            seq![]
        }
    } else if is_ws(s[i]) {
        (if cur.len() > 0 {
            seq![cur]
        } else {
            seq![]
        }) + words_from(s, i + 1, seq![])
    } else {
        words_from(s, i + 1, cur.push(s[i]))
    }
}

/// `str::split_whitespace`: the maximal runs of non-whitespace characters.
pub open spec fn words(s: Seq<char>) -> Seq<Seq<char>> {
    words_from(s, 0, seq![])
}

/// `join` of a list of strings with a separator.
pub open spec fn join(parts: Seq<Seq<char>>, sep: Seq<char>) -> Seq<char>
    decreases parts.len(),
{
    if parts.len() == 0 {
        seq![]
    } else if parts.len() == 1 {
        parts[0]
    } else {
        join(parts.drop_last(), sep) + sep + parts.last()
    }
}

/// `str::replace` with a non-empty pattern.
pub open spec fn replace(s: Seq<char>, from: Seq<char>, to: Seq<char>) -> Seq<char> {
    join(split(s, from), to)
}

pub fn is_whitespace(c: char) -> (r: bool)
    ensures
        r == is_ws(c),
{
    ('\u{9}' <= c && c <= '\u{d}') || c == ' ' || c == '\u{85}' || c == '\u{a0}' || c == '\u{1680}'
        || ('\u{2000}' <= c && c <= '\u{200a}') || c == '\u{2028}' || c == '\u{2029}' || c
        == '\u{202f}' || c == '\u{205f}' || c == '\u{3000}'
}

/// Builds a `String` holding exactly the given characters, through std's
/// `FromIterator<&char> for String`, which appends each character in order.
#[verifier::external_body]
pub(crate) fn string_from_chars(v: &[char]) -> (s: String)
    ensures
        s@ == v@,
{
    v.iter().collect()
}

/// The characters of a string slice, in order.
pub fn chars_of(s: &str) -> (v: Vec<char>)
    ensures
        v@ == s@,
{
    let mut v: Vec<char> = Vec::new();
    for c in it: s.chars()
        invariant
            v@ == it.seq().take(it.index() as int),
    {
        v.push(c);
    }
    v
}

/// Copy of a slice of characters.
pub fn copy_chars(s: &[char]) -> (v: Vec<char>)
    ensures
        v@ == s@,
{
    let mut v: Vec<char> = Vec::new();
    let mut i: usize = 0;
    while i < s.len()
        invariant
            i <= s.len(),
            v@ == s@.take(i as int),
        decreases s.len() - i,
    {
        v.push(s[i]);
        i = i + 1;
        assert(v@ =~= s@.take(i as int));
    }
    assert(v@ =~= s@);
    v
}

/// The characters `s[from..to]`.
pub fn sub_chars(s: &[char], from: usize, to: usize) -> (v: Vec<char>)
    requires
        from <= to <= s.len(),
    ensures
        v@ == s@.subrange(from as int, to as int),
{
    let mut v: Vec<char> = Vec::new();
    let mut i: usize = from;
    while i < to
        invariant
            from <= i <= to <= s.len(),
            v@ == s@.subrange(from as int, i as int),
        decreases to - i,
    {
        v.push(s[i]);
        i = i + 1;
        assert(v@ =~= s@.subrange(from as int, i as int));
    }
    v
}

/// Equality of two character sequences.
pub fn chars_eq(a: &[char], b: &[char]) -> (r: bool)
    ensures
        r == (a@ == b@),
{
    if a.len() != b.len() {
        return false;
    }
    let mut i: usize = 0;
    while i < a.len()
        invariant
            i <= a.len(),
            a.len() == b.len(),
            forall|j: int| 0 <= j < i ==> a@[j] == b@[j],
        decreases a.len() - i,
    {
        if a[i] != b[i] {
            return false;
        }
        i = i + 1;
    }
    assert(a@ =~= b@);
    true
}

/// Equality of two string slices.
pub fn str_eq(a: &str, b: &str) -> (r: bool)
    ensures
        r == (a@ == b@),
{
    let va = chars_of(a);
    let vb = chars_of(b);
    chars_eq(va.as_slice(), vb.as_slice())
}

pub proof fn lemma_trim_start(s: Seq<char>, k: int)
    requires
        0 <= k <= s.len(),
        forall|j: int| 0 <= j < k ==> is_ws(#[trigger] s[j]),
        k == s.len() || !is_ws(s[k]),
    ensures
        trim_start(s) == s.skip(k),
    decreases k,
{
    if k == 0 {
        assert(s.skip(0) =~= s);
    } else {
        assert forall|j: int| 0 <= j < k - 1 implies is_ws(#[trigger] s.drop_first()[j]) by {
            assert(s.drop_first()[j] == s[j + 1]);
        }
        if k < s.len() {
            assert(s.drop_first()[k - 1] == s[k]);
        }
        lemma_trim_start(s.drop_first(), k - 1);
        assert(s.drop_first().skip(k - 1) =~= s.skip(k));
    }
}

pub proof fn lemma_trim_end(s: Seq<char>, k: int)
    requires
        0 <= k <= s.len(),
        forall|j: int| k <= j < s.len() ==> is_ws(#[trigger] s[j]),
        k == 0 || !is_ws(s[k - 1]),
    ensures
        trim_end(s) == s.take(k),
    decreases s.len() - k,
{
    if k == s.len() {
        assert(s.take(k) =~= s);
    } else {
        assert forall|j: int| k <= j < s.len() - 1 implies is_ws(#[trigger] s.drop_last()[j]) by {
            assert(s.drop_last()[j] == s[j]);
        }
        if k > 0 {
            assert(s.drop_last()[k - 1] == s[k - 1]);
        }
        lemma_trim_end(s.drop_last(), k);
        assert(s.drop_last().take(k) =~= s.take(k));
    }
}

/// `str::trim` on characters.
pub fn trim_chars(s: &[char]) -> (v: Vec<char>)
    ensures
        v@ == trim(s@),
{
    let mut a: usize = 0;
    while a < s.len() && is_whitespace(s[a])
        invariant
            a <= s.len(),
            forall|j: int| 0 <= j < a ==> is_ws(#[trigger] s@[j]),
        decreases s.len() - a,
    {
        a = a + 1;
    }
    let mut b: usize = s.len();
    while b > a && is_whitespace(s[b - 1])
        invariant
            a <= b <= s.len(),
            forall|j: int| b <= j < s.len() ==> is_ws(#[trigger] s@[j]),
        decreases b,
    {
        b = b - 1;
    }
    proof {
        lemma_trim_start(s@, a as int);
        let t = s@.skip(a as int);
        assert forall|j: int| (b - a) <= j < t.len() implies is_ws(#[trigger] t[j]) by {
            assert(t[j] == s@[j + a]);
        }
        if b > a {
            assert(t[b - a - 1] == s@[b - 1]);
        }
        lemma_trim_end(t, b - a);
        assert(t.take(b - a) =~= s@.subrange(a as int, b as int));
    }
    sub_chars(s, a, b)
}

/// `str::trim` on a string slice.
pub fn trim_str(s: &str) -> (r: String)
    ensures
        r@ == trim(s@),
{
    let v = chars_of(s);
    let t = trim_chars(v.as_slice());
    string_from_chars(t.as_slice())
}

pub proof fn lemma_strip_trailing(s: Seq<char>, c: char, k: int)
    requires
        0 <= k <= s.len(),
        forall|j: int| k <= j < s.len() ==> #[trigger] s[j] == c,
        k == 0 || s[k - 1] != c,
    ensures
        strip_trailing(s, c) == s.take(k),
    decreases s.len() - k,
{
    if k == s.len() {
        assert(s.take(k) =~= s);
    } else {
        assert forall|j: int| k <= j < s.len() - 1 implies #[trigger] s.drop_last()[j] == c by {
            assert(s.drop_last()[j] == s[j]);
        }
        if k > 0 {
            assert(s.drop_last()[k - 1] == s[k - 1]);
        }
        lemma_strip_trailing(s.drop_last(), c, k);
        assert(s.drop_last().take(k) =~= s.take(k));
    }
}

/// `str::trim_end_matches(c)` on characters.
pub fn strip_trailing_chars(s: &[char], c: char) -> (v: Vec<char>)
    ensures
        v@ == strip_trailing(s@, c),
{
    let mut b: usize = s.len();
    while b > 0 && s[b - 1] == c
        invariant
            b <= s.len(),
            forall|j: int| b <= j < s.len() ==> #[trigger] s@[j] == c,
        decreases b,
    {
        b = b - 1;
    }
    proof {
        lemma_strip_trailing(s@, c, b as int);
        assert(s@.take(b as int) =~= s@.subrange(0, b as int));
    }
    sub_chars(s, 0, b)
}

/// Whether `p` occurs in `s` at index `i`.
pub fn match_at_exec(s: &[char], p: &[char], i: usize) -> (r: bool)
    ensures
        r == match_at(s@, p@, i as int),
{
    if i > s.len() || p.len() > s.len() - i {
        return false;
    }
    let mut j: usize = 0;
    while j < p.len()
        invariant
            i + p.len() <= s.len(),
            j <= p.len(),
            forall|k: int| 0 <= k < j ==> s@[i + k] == p@[k],
        decreases p.len() - j,
    {
        if s[i + j] != p[j] {
            assert(s@.subrange(i as int, i + p.len())[j as int] == s@[i + j]);
            return false;
        }
        j = j + 1;
    }
    assert(s@.subrange(i as int, i + p.len()) =~= p@);
    true
}

/// What `find_from` returns: the first match at or after `i`, or `None`
/// when there is none.
pub proof fn lemma_find_from(s: Seq<char>, p: Seq<char>, i: int)
    requires
        0 <= i,
    ensures
        match find_from(s, p, i) {
            Some(j) => i <= j && match_at(s, p, j) && forall|k: int|
                i <= k < j ==> !#[trigger] match_at(s, p, k),
            None => forall|k: int| i <= k ==> !#[trigger] match_at(s, p, k),
        },
    decreases s.len() + 1 - i,
{
    if i > s.len() || i + p.len() > s.len() {
    } else if match_at(s, p, i) {
    } else {
        lemma_find_from(s, p, i + 1);
    }
}

/// `str::find` on characters.
pub fn find_chars(s: &[char], p: &[char]) -> (r: Option<usize>)
    ensures
        match r {
            Some(i) => find(s@, p@) == Some(i as int) && match_at(s@, p@, i as int),
            None => find(s@, p@) is None,
        },
{
    if p.len() == 0 {
        assert(s@.subrange(0, 0) =~= p@);
        return Some(0);
    }
    let mut i: usize = 0;
    while i <= s.len() && p.len() <= s.len() - i
        invariant
            p.len() > 0,
            find(s@, p@) == find_from(s@, p@, i as int),
        decreases s.len() + 1 - i,
    {
        if match_at_exec(s, p, i) {
            return Some(i);
        }
        i = i + 1;
    }
    proof {
        lemma_find_from(s@, p@, i as int);
    }
    None
}

/// `str::contains` on characters.
pub fn contains_chars(s: &[char], p: &[char]) -> (r: bool)
    ensures
        r == contains(s@, p@),
{
    find_chars(s, p).is_some()
}

/// `str::starts_with` on characters.
pub fn starts_with_chars(s: &[char], p: &[char]) -> (r: bool)
    ensures
        r == starts_with(s@, p@),
{
    let r = match_at_exec(s, p, 0);
    proof {
        if p@.len() <= s@.len() {
            assert(s@.subrange(0, p@.len() as int) =~= s@.take(p@.len() as int));
        }
    }
    r
}

/// `str::split` on characters with a non-empty pattern.
pub fn split_chars(s: &[char], p: &[char]) -> (parts: Vec<Vec<char>>)
    requires
        p.len() > 0,
    ensures
        views(parts@) == split(s@, p@),
{
    let mut parts: Vec<Vec<char>> = Vec::new();
    let mut start: usize = 0;
    let mut i: usize = 0;
    while i <= s.len() && p.len() <= s.len() - i
        invariant
            p.len() > 0,
            start <= i <= s.len(),
            views(parts@) + split_from(s@, p@, start as int, i as int) == split(s@, p@),
        decreases s.len() + 1 - i,
    {
        if match_at_exec(s, p, i) {
            let piece = sub_chars(s, start, i);
            let ghost old_parts = views(parts@);
            let ghost old_start = start;
            let ghost old_i = i;
            parts.push(piece);
            assert(views(parts@) =~= old_parts.push(s@.subrange(start as int, i as int)));
            i = i + p.len();
            start = i;
            assert(old_parts + (seq![s@.subrange(old_start as int, old_i as int)]
                + split_from(s@, p@, start as int, i as int)) =~= views(parts@)
                + split_from(s@, p@, start as int, i as int));
        } else {
            i = i + 1;
        }
    }
    let piece = sub_chars(s, start, s.len());
    let ghost old_parts = views(parts@);
    parts.push(piece);
    assert(views(parts@) =~= old_parts + seq![s@.subrange(start as int, s@.len() as int)]);
    parts
}

/// `str::split_whitespace` on characters.
pub fn words_chars(s: &[char]) -> (parts: Vec<Vec<char>>)
    ensures
        views(parts@) == words(s@),
{
    let mut parts: Vec<Vec<char>> = Vec::new();
    let mut cur: Vec<char> = Vec::new();
    let mut i: usize = 0;
    while i < s.len()
        invariant
            i <= s.len(),
            views(parts@) + words_from(s@, i as int, cur@) == words(s@),
        decreases s.len() - i,
    {
        let ghost old_parts = views(parts@);
        let ghost old_cur = cur@;
        if is_whitespace(s[i]) {
            if cur.len() > 0 {
                parts.push(cur);
                assert(views(parts@) =~= old_parts.push(old_cur));
                assert(old_parts + (seq![old_cur] + words_from(s@, i + 1, seq![]))
                    =~= views(parts@) + words_from(s@, i + 1, seq![]));
            } else {
                assert(old_parts + (Seq::<Seq<char>>::empty() + words_from(s@, i + 1, seq![]))
                    =~= views(parts@) + words_from(s@, i + 1, seq![]));
            }
            cur = Vec::new();
            assert(cur@ =~= Seq::<char>::empty());
        } else {
            cur.push(s[i]);
        }
        i = i + 1;
    }
    if cur.len() > 0 {
        let ghost old_parts = views(parts@);
        let ghost old_cur = cur@;
        parts.push(cur);
        assert(views(parts@) =~= old_parts + seq![old_cur]);
    } else {
        assert(views(parts@) + Seq::<Seq<char>>::empty() =~= views(parts@));
    }
    parts
}

/// `join` of character sequences with a separator.
pub fn join_chars(parts: &[Vec<char>], sep: &[char]) -> (r: Vec<char>)
    ensures
        r@ == join(views(parts@), sep@),
{
    let ghost pv = views(parts@);
    let mut r: Vec<char> = Vec::new();
    let mut i: usize = 0;
    while i < parts.len()
        invariant
            i <= parts.len(),
            pv == views(parts@),
            pv.len() == parts.len(),
            r@ == join(pv.take(i as int), sep@),
        decreases parts.len() - i,
    {
        let ghost before = r@;
        if i > 0 {
            let mut k: usize = 0;
            while k < sep.len()
                invariant
                    k <= sep.len(),
                    r@ == before + sep@.take(k as int),
                decreases sep.len() - k,
            {
                r.push(sep[k]);
                k = k + 1;
                assert(r@ =~= before + sep@.take(k as int));
            }
        }
        let ghost mid = r@;
        let piece = &parts[i];
        assert(piece@ == pv[i as int]);
        let mut k: usize = 0;
        while k < piece.len()
            invariant
                k <= piece.len(),
                r@ == mid + piece@.take(k as int),
            decreases piece.len() - k,
        {
            r.push(piece[k]);
            k = k + 1;
            assert(r@ =~= mid + piece@.take(k as int));
        }
        proof {
            assert(pv.take(i + 1).drop_last() =~= pv.take(i as int));
            assert(pv.take(i + 1).last() == pv[i as int]);
            if i == 0 {
                assert(before =~= Seq::<char>::empty());
                assert(r@ =~= pv[0]);
            } else {
                assert(sep@.take(sep@.len() as int) =~= sep@);
                assert(piece@.take(piece@.len() as int) =~= piece@);
                assert(r@ =~= before + sep@ + pv[i as int]);
            }
        }
        i = i + 1;
    }
    assert(pv.take(parts.len() as int) =~= pv);
    r
}

/// `str::replace` on characters with a non-empty pattern.
pub fn replace_chars(s: &[char], from: &[char], to: &[char]) -> (r: Vec<char>)
    requires
        from.len() > 0,
    ensures
        r@ == replace(s@, from@, to@),
{
    let parts = split_chars(s, from);
    join_chars(parts.as_slice(), to)
}


/// What std's `str::to_lowercase` returns for a text: Unicode's lowercase
/// mapping, with a final capital sigma written as `ς` as Unicode's
/// context rule asks.
pub uninterp spec fn lowercase(s: Seq<char>) -> Seq<char>;

/// std's `str::to_lowercase`; the result is named by `lowercase`.
#[verifier::external_body]
pub(crate) fn to_lowercase(s: &str) -> (r: String)
    ensures
        r@ == lowercase(s@),
{
    s.to_lowercase()
}


/// The first piece of `split_from`: the text from `start` up to the first
/// occurrence of `p` at or after `i`, or up to the end.
pub proof fn lemma_split_first(s: Seq<char>, p: Seq<char>, start: int, i: int)
    requires
        p.len() > 0,
        0 <= start <= i <= s.len(),
    ensures
        split_from(s, p, start, i).len() >= 1,
        split_from(s, p, start, i)[0] == s.subrange(
            start,
            match find_from(s, p, i) {
                Some(j) => j,
                None => s.len() as int,
            },
        ),
        match find_from(s, p, i) {
            Some(j) => split_from(s, p, start, i) == seq![s.subrange(start, j)] + split_from(
                s,
                p,
                j + p.len(),
                j + p.len(),
            ),
            None => split_from(s, p, start, i) == seq![s.subrange(start, s.len() as int)],
        },
    decreases s.len() + 1 - i,
{
    if i + p.len() > s.len() {
    } else if match_at(s, p, i) {
    } else {
        lemma_split_first(s, p, start, i + 1);
    }
}

/// What std's `char::is_numeric` returns: whether the character's Unicode
/// general category is `Nd`, `Nl` or `No`.
pub uninterp spec fn numeric(c: char) -> bool;

/// std's `char::is_numeric`; the result is named by `numeric`, and the ASCII
/// digits are numeric, as its documentation says.
#[verifier::external_body]
pub(crate) fn char_is_numeric(c: char) -> (r: bool)
    ensures
        r == numeric(c),
        '0' <= c <= '9' ==> r,
{
    c.is_numeric()
}

/// The text without its whitespace.
pub open spec fn nonblank(s: Seq<char>) -> Seq<char> {
    s.filter(|c: char| !is_ws(c))
}

proof fn lemma_flatten_prepend(w: Seq<char>, rest: Seq<Seq<char>>)
    ensures
        (seq![w] + rest).flatten() == w + rest.flatten(),
{
    let all = seq![w] + rest;
    assert(all.first() == w);
    assert(all.drop_first() =~= rest);
}

proof fn lemma_words_from(s: Seq<char>, i: int, cur: Seq<char>)
    requires
        0 <= i <= s.len(),
        forall|k: int| 0 <= k < cur.len() ==> !is_ws(#[trigger] cur[k]),
    ensures
        forall|j: int| 0 <= j < words_from(s, i, cur).len() ==> (#[trigger] words_from(s, i, cur)[j]).len() > 0,
        forall|j: int, k: int|
            0 <= j < words_from(s, i, cur).len() && 0 <= k < words_from(s, i, cur)[j].len() ==> !is_ws(
                #[trigger] words_from(s, i, cur)[j][k],
            ),
        words_from(s, i, cur).flatten() == cur + nonblank(s.skip(i)),
    decreases s.len() - i,
{
    let ws = words_from(s, i, cur);
    let p = |c: char| !is_ws(c);
    if i >= s.len() {
        assert(s.skip(i) =~= Seq::<char>::empty());
        assert(nonblank(s.skip(i)) =~= Seq::<char>::empty());
        if cur.len() > 0 {
            assert(ws == seq![cur]);
            lemma_flatten_prepend(cur, Seq::<Seq<char>>::empty());
            assert(seq![cur] + Seq::<Seq<char>>::empty() =~= seq![cur]);
            assert forall|j: int, k: int| 0 <= j < ws.len() && 0 <= k < ws[j].len() implies !is_ws(
                #[trigger] ws[j][k],
            ) by {
                assert(ws[j] == cur);
            }
        } else {
            assert(ws == Seq::<Seq<char>>::empty());
            assert(cur =~= Seq::<char>::empty());
        }
        assert(cur + Seq::<char>::empty() =~= cur);
    } else {
        assert(s.skip(i) =~= seq![s[i]] + s.skip(i + 1));
        s.skip(i + 1).lemma_filter_prepend(s[i], p);
        if is_ws(s[i]) {
            let rest = words_from(s, i + 1, seq![]);
            lemma_words_from(s, i + 1, seq![]);
            assert(Seq::<char>::empty() + nonblank(s.skip(i + 1)) =~= nonblank(s.skip(i + 1)));
            assert(Seq::<char>::empty() + s.skip(i + 1).filter(p) =~= s.skip(i + 1).filter(p));
            if cur.len() > 0 {
                assert(ws == seq![cur] + rest);
                lemma_flatten_prepend(cur, rest);
                assert forall|j: int| 0 <= j < ws.len() implies (#[trigger] ws[j]).len() > 0 by {
                    if j > 0 {
                        assert(ws[j] == rest[j - 1]);
                    }
                }
                assert forall|j: int, k: int| 0 <= j < ws.len() && 0 <= k < ws[j].len() implies !is_ws(
                    #[trigger] ws[j][k],
                ) by {
                    if j > 0 {
                        assert(ws[j] == rest[j - 1]);
                    }
                }
            } else {
                assert(ws =~= rest);
                assert(cur =~= Seq::<char>::empty());
            }
        } else {
            assert forall|k: int| 0 <= k < cur.push(s[i]).len() implies !is_ws(#[trigger] cur.push(s[i])[k]) by {
                if k < cur.len() {
                    assert(cur.push(s[i])[k] == cur[k]);
                }
            }
            lemma_words_from(s, i + 1, cur.push(s[i]));
            assert(ws == words_from(s, i + 1, cur.push(s[i])));
            assert(cur.push(s[i]) + nonblank(s.skip(i + 1)) =~= cur + (seq![s[i]] + s.skip(i + 1).filter(p)));
        }
    }
}

/// The words of a text (what `split_whitespace` gives) are its maximal
/// runs of non-whitespace characters: each is non-empty and holds no
/// whitespace, and read one after another they are the text without its
/// whitespace.
pub proof fn law_words_are_the_nonblank_runs(s: Seq<char>)
    ensures
        forall|j: int| 0 <= j < words(s).len() ==> (#[trigger] words(s)[j]).len() > 0,
        forall|j: int, k: int|
            0 <= j < words(s).len() && 0 <= k < words(s)[j].len() ==> !is_ws(#[trigger] words(s)[j][k]),
        words(s).flatten() == nonblank(s),
{
    lemma_words_from(s, 0, seq![]);
    assert(s.skip(0) =~= s);
    assert(Seq::<char>::empty() + nonblank(s) =~= nonblank(s));
}

proof fn lemma_words_shift(p: Seq<char>, y: Seq<char>, j: int, cur: Seq<char>)
    requires
        0 <= j <= y.len(),
    ensures
        words_from(p + y, p.len() + j, cur) == words_from(y, j, cur),
    decreases y.len() - j,
{
    let s = p + y;
    if j < y.len() {
        assert(s[p.len() + j] == y[j]);
        if is_ws(y[j]) {
            lemma_words_shift(p, y, j + 1, seq![]);
        } else {
            lemma_words_shift(p, y, j + 1, cur.push(y[j]));
        }
    }
}

proof fn lemma_words_prefix(x: Seq<char>, rest: Seq<char>, i: int, cur: Seq<char>)
    requires
        0 <= i <= x.len(),
        rest.len() > 0,
        is_ws(rest[0]),
    ensures
        words_from(x + rest, i, cur) == words_from(x, i, cur) + words_from(x + rest, x.len() + 1int, seq![]),
    decreases x.len() - i,
{
    let s = x + rest;
    let tail = words_from(s, x.len() + 1int, seq![]);
    if i < x.len() {
        assert(s[i] == x[i]);
        if is_ws(x[i]) {
            lemma_words_prefix(x, rest, i + 1, seq![]);
            let c: Seq<Seq<char>> = if cur.len() > 0 {
                seq![cur]
            } else {
                seq![]
            };
            assert(c + (words_from(x, i + 1, seq![]) + tail) =~= (c + words_from(x, i + 1, seq![])) + tail);
        } else {
            lemma_words_prefix(x, rest, i + 1, cur.push(x[i]));
        }
    } else {
        assert(s[i] == rest[0]);
    }
}

proof fn lemma_words_solid(s: Seq<char>, i: int, cur: Seq<char>)
    requires
        0 <= i <= s.len(),
        forall|k: int| i <= k < s.len() ==> !is_ws(#[trigger] s[k]),
        cur.len() + s.len() - i > 0,
    ensures
        words_from(s, i, cur) == seq![cur + s.skip(i)],
    decreases s.len() - i,
{
    if i < s.len() {
        lemma_words_solid(s, i + 1, cur.push(s[i]));
        assert(cur.push(s[i]) + s.skip(i + 1) =~= cur + s.skip(i));
    } else {
        assert(cur + s.skip(i) =~= cur);
    }
}

/// Words do not run across a space: the words of `x`, a space, then `y` are
/// the words of `x` followed by the words of `y`.
pub proof fn law_words_split_at_a_space(x: Seq<char>, y: Seq<char>)
    ensures
        words(x + seq![' '] + y) == words(x) + words(y),
{
    let rest = seq![' '] + y;
    assert(x + seq![' '] + y =~= x + rest);
    lemma_words_prefix(x, rest, 0, seq![]);
    assert(x + rest =~= (x + seq![' ']) + y);
    lemma_words_shift(x + seq![' '], y, 0, seq![]);
}

/// A text without whitespace is one word.
pub proof fn law_solid_text_is_one_word(s: Seq<char>)
    requires
        s.len() > 0,
        forall|k: int| 0 <= k < s.len() ==> !is_ws(#[trigger] s[k]),
    ensures
        words(s) == seq![s],
{
    lemma_words_solid(s, 0, seq![]);
    assert(Seq::<char>::empty() + s.skip(0) =~= s);
}

} // verus!
