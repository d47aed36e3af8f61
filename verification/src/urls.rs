//! The parts of LinkedIn URLs and link targets that the crawler reads: the
//! member's nickname, a company's number, a profile's entity URN.
use vstd::prelude::*;
use vstd::string::*;
use crate::error::CustomError;
use crate::misc::opt_view;
use crate::text::{
    char_is_numeric, chars_of, contains, contains_chars, find, find_chars, find_from, lemma_find_from, lemma_split_first,
    match_at, numeric, replace, replace_chars, split, split_chars, split_from, starts_with,
    starts_with_chars, string_from_chars, strip_trailing, strip_trailing_chars, sub_chars, views,
};

verus! {

/// The last non-empty piece among the first `n` pieces.
pub open spec fn last_nonempty(ps: Seq<Seq<char>>, n: int) -> Option<Seq<char>>
    decreases n,
{
    if n <= 0 || n > ps.len() {
        None
    } else if ps[n - 1].len() > 0 {
        Some(ps[n - 1])
    } else {
        last_nonempty(ps, n - 1)
    }
}

pub open spec fn slash() -> Seq<char> {
    seq!['/']
}

/// The member's nickname in a profile URL: its last non-empty path piece.
pub open spec fn nick_spec(url: Seq<char>) -> Option<Seq<char>> {
    let ps = split(url, slash());
    last_nonempty(ps, ps.len() as int)
}

/// The nickname of a profile URL: the last non-empty piece between slashes.
pub fn get_linkedin_nick(url: Option<String>) -> (r: Option<String>)
    ensures
        opt_view(r) == match url {
            Some(u) => nick_spec(u@),
            None => None,
        },
{
    match url {
        Some(u) => {
            let v = chars_of(u.as_str());
            let sl = vec!['/'];
            assert(sl@ =~= slash());
            let parts = split_chars(v.as_slice(), sl.as_slice());
            let ghost ps = views(parts@);
            let mut n: usize = parts.len();
            while n > 0
                invariant
                    n <= parts.len(),
                    ps == views(parts@),
                    last_nonempty(ps, ps.len() as int) == last_nonempty(ps, n as int),
                    last_nonempty(ps, ps.len() as int) == match url {
                        Some(x) => nick_spec(x@),
                        None => None,
                    },
                decreases n,
            {
                assert(parts@[n - 1]@ == ps[n - 1]);
                if parts[n - 1].len() > 0 {
                    return Some(string_from_chars(parts[n - 1].as_slice()));
                }
                n = n - 1;
            }
            None
        },
        None => None,
    }
}

/// The last path piece of a URL whose trailing slashes are removed.
pub open spec fn last_piece_spec(url: Seq<char>) -> Seq<char> {
    split(strip_trailing(url, '/'), slash()).last()
}

fn trailing_pieces(url: &str) -> (parts: Vec<Vec<char>>)
    ensures
        views(parts@) == split(strip_trailing(url@, '/'), slash()),
        parts.len() >= 1,
{
    let v = chars_of(url);
    let t = strip_trailing_chars(v.as_slice(), '/');
    let sl = vec!['/'];
    assert(sl@ =~= slash());
    let parts = split_chars(t.as_slice(), sl.as_slice());
    proof {
        lemma_split_first(t@, slash(), 0, 0);
    }
    parts
}

/// The last path piece of a URL, trailing slashes ignored.
pub fn extract_nick(url: Option<String>) -> (r: Option<String>)
    ensures
        opt_view(r) == match url {
            Some(u) => Some(last_piece_spec(u@)),
            None => None,
        },
{
    match url {
        Some(url) => {
            let parts = trailing_pieces(url.as_str());
            let last = &parts[parts.len() - 1];
            assert(last@ == views(parts@).last());
            Some(string_from_chars(last.as_slice()))
        },
        None => None,
    }
}

/// Every character of the piece is numeric (so the empty piece is).
pub open spec fn all_numeric(p: Seq<char>) -> bool {
    forall|j: int| 0 <= j < p.len() ==> numeric(#[trigger] p[j])
}

/// The last piece among the first `n` whose characters are all numeric.
pub open spec fn last_numeric(ps: Seq<Seq<char>>, n: int) -> Option<Seq<char>>
    decreases n,
{
    if n <= 0 || n > ps.len() {
        None
    } else if all_numeric(ps[n - 1]) {
        Some(ps[n - 1])
    } else {
        last_numeric(ps, n - 1)
    }
}

pub open spec fn number_spec(url: Seq<char>) -> Option<Seq<char>> {
    let ps = split(strip_trailing(url, '/'), slash());
    last_numeric(ps, ps.len() as int)
}

fn is_all_numeric(p: &[char]) -> (r: bool)
    ensures
        r == all_numeric(p@),
{
    let mut j: usize = 0;
    while j < p.len()
        invariant
            j <= p.len(),
            forall|k: int| 0 <= k < j ==> numeric(#[trigger] p@[k]),
        decreases p.len() - j,
    {
        if !char_is_numeric(p[j]) {
            return false;
        }
        j = j + 1;
    }
    true
}

/// The last path piece of a URL made of numeric characters only (a
/// company's or school's number), trailing slashes ignored.
pub fn extract_number(url: Option<String>) -> (r: Option<String>)
    ensures
        opt_view(r) == match url {
            Some(u) => number_spec(u@),
            None => None,
        },
{
    match url {
        Some(u) => {
            let parts = trailing_pieces(u.as_str());
            let ghost ps = views(parts@);
            let mut n: usize = parts.len();
            while n > 0
                invariant
                    n <= parts.len(),
                    ps == views(parts@),
                    last_numeric(ps, ps.len() as int) == last_numeric(ps, n as int),
                    last_numeric(ps, ps.len() as int) == match url {
                        Some(x) => number_spec(x@),
                        None => None,
                    },
                decreases n,
            {
                assert(parts@[n - 1]@ == ps[n - 1]);
                if is_all_numeric(parts[n - 1].as_slice()) {
                    return Some(string_from_chars(parts[n - 1].as_slice()));
                }
                n = n - 1;
            }
            None
        },
        None => None,
    }
}

/// The first piece of `split(s, p)`.
pub open spec fn first_piece(s: Seq<char>, p: Seq<char>) -> Seq<char> {
    split(s, p)[0]
}

/// The first piece of the text split at `p`, a non-empty pattern.
fn first_piece_chars(s: &[char], p: &[char]) -> (r: Vec<char>)
    requires
        p.len() > 0,
    ensures
        r@ == first_piece(s@, p@),
{
    proof {
        lemma_split_first(s@, p@, 0, 0);
    }
    match find_chars(s, p) {
        Some(j) => sub_chars(s, 0, j),
        None => sub_chars(s, 0, s.len()),
    }
}

/// The first piece, after a `?profileUrn=` marker, that starts with
/// `urn%3Ali%3A`, up to its first `&`.
pub open spec fn urn_from_pieces(ps: Seq<Seq<char>>, i: int) -> Option<Seq<char>>
    decreases ps.len() - i,
{
    if i < 0 || i >= ps.len() {
        None
    } else if starts_with(ps[i], "urn%3Ali%3A"@) {
        Some(first_piece(ps[i], "&"@))
    } else {
        urn_from_pieces(ps, i + 1)
    }
}

pub open spec fn urn_from_href_spec(href: Seq<char>) -> Option<Seq<char>> {
    urn_from_pieces(split(href, "?profileUrn="@), 0)
}

/// The profile URN that a link carries in its `profileUrn` query parameter.
pub fn extract_urn_from_href(href: &str) -> (r: Option<String>)
    ensures
        opt_view(r) == urn_from_href_spec(href@),
{
    let v = chars_of(href);
    let marker = chars_of("?profileUrn=");
    let prefix = chars_of("urn%3Ali%3A");
    let amp = chars_of("&");
    proof {
        reveal_strlit("?profileUrn=");
        reveal_strlit("&");
    }
    let parts = split_chars(v.as_slice(), marker.as_slice());
    let ghost ps = views(parts@);
    let mut i: usize = 0;
    while i < parts.len()
        invariant
            i <= parts.len(),
            ps == views(parts@),
            ps == split(href@, "?profileUrn="@),
            prefix@ == "urn%3Ali%3A"@,
            amp@ == "&"@,
            amp@.len() > 0,
            urn_from_pieces(ps, 0) == urn_from_pieces(ps, i as int),
        decreases parts.len() - i,
    {
        assert(parts@[i as int]@ == ps[i as int]);
        if starts_with_chars(parts[i].as_slice(), prefix.as_slice()) {
            let first = first_piece_chars(parts[i].as_slice(), amp.as_slice());
            return Some(string_from_chars(first.as_slice()));
        }
        i = i + 1;
    }
    None
}

/// A profile URN without the `urn:li:fsd_profile:` and
/// `urn:li:fs_normalized_profile:` prefixes (URL-encoded).
pub open spec fn strip_urn_prefixes_spec(urn: Seq<char>) -> Seq<char> {
    replace(
        replace(urn, "urn%3Ali%3Afsd_profile%3A"@, seq![]),
        "urn%3Ali%3Afs_normalized_profile%3A"@,
        seq![],
    )
}

/// Removes the URL-encoded `urn:li:fsd_profile:` and
/// `urn:li:fs_normalized_profile:` prefixes from a profile URN.
pub fn strip_urn_prefixes(urn: &str) -> (r: String)
    ensures
        r@ == strip_urn_prefixes_spec(urn@),
{
    let v = chars_of(urn);
    let a = chars_of("urn%3Ali%3Afsd_profile%3A");
    let b = chars_of("urn%3Ali%3Afs_normalized_profile%3A");
    proof {
        reveal_strlit("urn%3Ali%3Afsd_profile%3A");
        reveal_strlit("urn%3Ali%3Afs_normalized_profile%3A");
    }
    let empty: Vec<char> = Vec::new();
    let once = replace_chars(v.as_slice(), a.as_slice(), empty.as_slice());
    let twice = replace_chars(once.as_slice(), b.as_slice(), empty.as_slice());
    assert(empty@ =~= Seq::<char>::empty());
    string_from_chars(twice.as_slice())
}

/// The marker after which a profile's own URN is written in the page data.
pub open spec fn elements_marker() -> Seq<char> {
    "\"*elements\":[\"urn:li:fsd_profile:"@
}

/// The text between the first `"*elements":["urn:li:fsd_profile:` and the
/// next double quote.
pub open spec fn urn_from_element_spec(html: Seq<char>) -> Option<Seq<char>> {
    match find(html, elements_marker()) {
        None => None,
        Some(s) => {
            let start = s + elements_marker().len();
            match find(html.skip(start), seq!['"']) {
                None => None,
                Some(e) => Some(html.subrange(start, start + e)),
            }
        },
    }
}

/// The profile URN written in the page data of an element.
pub fn extract_urn_from_element_html(html: &str) -> (r: Option<String>)
    ensures
        opt_view(r) == urn_from_element_spec(html@),
{
    let v = chars_of(html);
    let marker = chars_of("\"*elements\":[\"urn:li:fsd_profile:");
    match find_chars(v.as_slice(), marker.as_slice()) {
        None => None,
        Some(s) => {
            assert(match_at(v@, marker@, s as int));
            assert(s + marker@.len() <= v@.len());
            assert(marker@.len() == marker.len() && v@.len() == v.len());
            let start = s + marker.len();
            let rest = sub_chars(v.as_slice(), start, v.len());
            assert(rest@ =~= v@.skip(start as int));
            let quote = vec!['"'];
            assert(quote@ =~= seq!['"']);
            match find_chars(rest.as_slice(), quote.as_slice()) {
                None => None,
                Some(e) => {
                    assert(match_at(rest@, quote@, e as int));
                    let urn = sub_chars(v.as_slice(), start, start + e);
                    Some(string_from_chars(urn.as_slice()))
                },
            }
        },
    }
}

/// The marker of a Recruiter profile link.
pub open spec fn talent_marker() -> Seq<char> {
    "/talent/profile/"@
}

/// The piece of a Recruiter profile link after `/talent/profile/` and before
/// the query string; `None` when the link has no such marker.
pub open spec fn part_from_url_spec(url: Seq<char>) -> Option<Seq<char>> {
    let parts = split(url, talent_marker());
    if parts.len() > 1 {
        Some(first_piece(parts[1], seq!['?']))
    } else {
        None
    }
}

/// The member id of a Recruiter profile link: what follows
/// `/talent/profile/`, up to the query string.
pub fn extract_part_from_url(url: &str) -> (r: Option<&str>)
    ensures
        match r {
            Some(s) => part_from_url_spec(url@) == Some(s@),
            None => part_from_url_spec(url@) is None,
        },
{
    let v = chars_of(url);
    let marker = chars_of("/talent/profile/");
    proof {
        reveal_strlit("/talent/profile/");
    }
    let q = vec!['?'];
    assert(q@ =~= seq!['?']);
    proof {
        lemma_split_first(v@, marker@, 0, 0);
    }
    match find_chars(v.as_slice(), marker.as_slice()) {
        None => None,
        Some(i) => {
            assert(match_at(v@, marker@, i as int));
            assert(i + marker@.len() <= v@.len());
            assert(marker@.len() == marker.len() && v@.len() == v.len());
            let a = i + marker.len();
            // the second piece runs from `a` to the next marker or the end
            let rest = sub_chars(v.as_slice(), a, v.len());
            assert(rest@ =~= v@.skip(a as int));
            proof {
                lemma_find_from(v@, marker@, 0);
                lemma_split_first(v@, marker@, a as int, a as int);
            }
            let end = match find_chars(rest.as_slice(), marker.as_slice()) {
                Some(j) => a + j,
                None => v.len(),
            };
            proof {
                lemma_find_shift(v@, marker@, a as int);
            }
            let seg = sub_chars(v.as_slice(), a, end);
            let piece = first_piece_chars(seg.as_slice(), q.as_slice());
            proof {
                lemma_split_first(seg@, seq!['?'], 0, 0);
                lemma_find_from(seg@, seq!['?'], 0);
            }
            let b = a + piece.len();
            proof {
                assert(piece@ =~= v@.subrange(a as int, b as int));
            }
            Some(url.substring_char(a, b))
        },
    }
}

/// Finding in a suffix finds in the whole text, shifted.
proof fn lemma_find_shift(s: Seq<char>, p: Seq<char>, a: int)
    requires
        0 <= a <= s.len(),
    ensures
        match find(s.skip(a), p) {
            Some(j) => find_from(s, p, a) == Some(a + j),
            None => find_from(s, p, a) is None,
        },
{
    lemma_find_from(s.skip(a), p, 0);
    lemma_find_from(s, p, a);
    assert forall|k: int| 0 <= k implies #[trigger] match_at(s.skip(a), p, k) == match_at(s, p, a + k) by {
        if 0 <= k && k + p.len() <= s.len() - a {
            assert(s.skip(a).subrange(k, k + p.len()) =~= s.subrange(a + k, a + k + p.len()));
        }
    }
    match find(s.skip(a), p) {
        Some(j) => {
            assert(match_at(s, p, a + j));
            assert forall|k: int| a <= k < a + j implies !#[trigger] match_at(s, p, k) by {
                assert(!match_at(s.skip(a), p, k - a));
            }
        },
        None => {
            assert forall|k: int| a <= k implies !#[trigger] match_at(s, p, k) by {
                assert(!match_at(s.skip(a), p, k - a));
            }
        },
    }
    match find_from(s, p, a) {
        Some(j) => {
            assert(match_at(s.skip(a), p, j - a));
        },
        None => {},
    }
}


/// The URN that a profile link carries after `marker`, up to the next `&`;
/// empty when the marker does not occur.
pub open spec fn urn_after(h: Seq<char>, marker: Seq<char>) -> Option<Seq<char>> {
    let ps = split(h, marker);
    if ps.len() > 1 {
        Some(first_piece(ps[1], "&"@))
    } else {
        None
    }
}

fn urn_after_exec(h: &[char], marker: &str) -> (r: Option<Vec<char>>)
    requires
        marker@.len() > 0,
    ensures
        match r {
            Some(v) => urn_after(h@, marker@) == Some(v@),
            None => urn_after(h@, marker@) is None,
        },
{
    let m = chars_of(marker);
    let parts = split_chars(h, m.as_slice());
    if parts.len() > 1 {
        let amp = chars_of("&");
        proof {
            reveal_strlit("&");
        }
        assert(parts@[1]@ == views(parts@)[1]);
        Some(first_piece_chars(parts[1].as_slice(), amp.as_slice()))
    } else {
        None
    }
}

/// The profile URN of a message page link: after
/// `?profileUrn=urn%3Ali%3Afsd_profile%3A`, or, when that gives nothing,
/// after `?profileUrn=urn%3Ali%3Afs_normalized_profile%3A`; empty when the
/// link carries no `profileUrn`.
pub open spec fn urn_of_link(h: Seq<char>) -> Seq<char> {
    if !contains(h, "profileUrn="@) {
        seq![]
    } else {
        match urn_after(h, "?profileUrn=urn%3Ali%3Afsd_profile%3A"@) {
            None => seq![],
            Some(u) => if u.len() > 0 {
                u
            } else {
                match urn_after(h, "?profileUrn=urn%3Ali%3Afs_normalized_profile%3A"@) {
                    Some(u2) => u2,
                    None => u,
                }
            },
        }
    }
}

proof fn lemma_markers_nonempty()
    ensures
        "?profileUrn=urn%3Ali%3Afsd_profile%3A"@.len() > 0,
        "?profileUrn=urn%3Ali%3Afs_normalized_profile%3A"@.len() > 0,
        "&profileUrn=urn%3Ali%3Afsd_profile%3A"@.len() > 0,
        "&profileUrn=urn%3Ali%3Afs_normalized_profile%3A"@.len() > 0,
        "profileUrn=urn%3Ali%3Afsd_profile%3A"@.len() > 0,
{
    reveal_strlit("?profileUrn=urn%3Ali%3Afsd_profile%3A");
    reveal_strlit("?profileUrn=urn%3Ali%3Afs_normalized_profile%3A");
    reveal_strlit("&profileUrn=urn%3Ali%3Afsd_profile%3A");
    reveal_strlit("&profileUrn=urn%3Ali%3Afs_normalized_profile%3A");
    reveal_strlit("profileUrn=urn%3Ali%3Afsd_profile%3A");
}

fn urn_of_link_exec(h: &str) -> (r: Vec<char>)
    ensures
        r@ == urn_of_link(h@),
{
    proof {
        lemma_markers_nonempty();
    }
    let v = chars_of(h);
    let key = chars_of("profileUrn=");
    if !contains_chars(v.as_slice(), key.as_slice()) {
        return Vec::new();
    }
    match urn_after_exec(v.as_slice(), "?profileUrn=urn%3Ali%3Afsd_profile%3A") {
        None => Vec::new(),
        Some(u) => if u.len() > 0 {
            u
        } else {
            match urn_after_exec(v.as_slice(), "?profileUrn=urn%3Ali%3Afs_normalized_profile%3A") {
                Some(u2) => u2,
                None => u,
            }
        },
    }
}

/// The first link, in page order, that carries a profile URN; an error when
/// a link without a target comes first; `None` when no link carries one.
pub open spec fn urn_from_links_spec(hrefs: Seq<Option<Seq<char>>>, i: int) -> Result<Option<Seq<char>>, Seq<char>>
    decreases hrefs.len() - i,
{
    if i < 0 || i >= hrefs.len() {
        Ok(None)
    } else {
        match hrefs[i] {
            None => Err("let href = link.value().attr(href)"@),
            Some(h) => if urn_of_link(h).len() > 0 {
                Ok(Some(urn_of_link(h)))
            } else {
                urn_from_links_spec(hrefs, i + 1)
            },
        }
    }
}

pub open spec fn opt_views(s: Seq<Option<String>>) -> Seq<Option<Seq<char>>> {
    Seq::new(s.len(), |i: int| opt_view(s[i]))
}

/// The profile URN of a profile page, read from the targets of its links in
/// page order (the message flow's reading).
pub fn urn_from_profile_links(hrefs: &Vec<Option<String>>) -> (r: Result<Option<String>, CustomError>)
    ensures
        match urn_from_links_spec(opt_views(hrefs@), 0) {
            Ok(u) => r matches Ok(x) && opt_view(x) == u,
            Err(m) => r matches Err(CustomError::ButtonNotFound(e)) && e@ == m,
        },
{
    let ghost hv = opt_views(hrefs@);
    let mut i: usize = 0;
    while i < hrefs.len()
        invariant
            i <= hrefs.len(),
            hv == opt_views(hrefs@),
            urn_from_links_spec(hv, 0) == urn_from_links_spec(hv, i as int),
        decreases hrefs.len() - i,
    {
        assert(hv[i as int] == opt_view(hrefs@[i as int]));
        match &hrefs[i] {
            None => {
                return Err(CustomError::ButtonNotFound(String::from_str("let href = link.value().attr(href)")));
            },
            Some(h) => {
                let u = urn_of_link_exec(h.as_str());
                if u.len() > 0 {
                    return Ok(Some(string_from_chars(u.as_slice())));
                }
            },
        }
        i = i + 1;
    }
    Ok(None)
}

/// The profile URN of an InMail page link: as for messages, and also after
/// `&profileUrn=` markers when the `?profileUrn=` ones do not occur.
pub open spec fn urn_of_inmail_link(h: Seq<char>) -> Seq<char> {
    if !contains(h, "profileUrn="@) {
        seq![]
    } else {
        match urn_after(h, "?profileUrn=urn%3Ali%3Afsd_profile%3A"@) {
            Some(u) => if u.len() > 0 {
                u
            } else {
                match urn_after(h, "?profileUrn=urn%3Ali%3Afs_normalized_profile%3A"@) {
                    Some(u2) => u2,
                    None => u,
                }
            },
            None => match urn_after(h, "&profileUrn=urn%3Ali%3Afsd_profile%3A"@) {
                Some(u) => if u.len() > 0 {
                    u
                } else {
                    match urn_after(h, "&profileUrn=urn%3Ali%3Afs_normalized_profile%3A"@) {
                        Some(u2) => u2,
                        None => u,
                    }
                },
                None => seq![],
            },
        }
    }
}

fn urn_of_inmail_link_exec(h: &str) -> (r: Vec<char>)
    ensures
        r@ == urn_of_inmail_link(h@),
{
    proof {
        lemma_markers_nonempty();
    }
    let v = chars_of(h);
    let key = chars_of("profileUrn=");
    if !contains_chars(v.as_slice(), key.as_slice()) {
        return Vec::new();
    }
    match urn_after_exec(v.as_slice(), "?profileUrn=urn%3Ali%3Afsd_profile%3A") {
        Some(u) => if u.len() > 0 {
            u
        } else {
            match urn_after_exec(v.as_slice(), "?profileUrn=urn%3Ali%3Afs_normalized_profile%3A") {
                Some(u2) => u2,
                None => u,
            }
        },
        None => match urn_after_exec(v.as_slice(), "&profileUrn=urn%3Ali%3Afsd_profile%3A") {
            Some(u) => if u.len() > 0 {
                u
            } else {
                match urn_after_exec(v.as_slice(), "&profileUrn=urn%3Ali%3Afs_normalized_profile%3A") {
                    Some(u2) => u2,
                    None => u,
                }
            },
            None => Vec::new(),
        },
    }
}

/// The first link, in page order, that carries a profile URN in the InMail
/// flow's reading (a link without a target reads as empty).
pub open spec fn urn_from_inmail_links_spec(hrefs: Seq<Option<Seq<char>>>, i: int) -> Option<Seq<char>>
    decreases hrefs.len() - i,
{
    if i < 0 || i >= hrefs.len() {
        None
    } else {
        let h = match hrefs[i] {
            Some(h) => h,
            None => seq![],
        };
        if urn_of_inmail_link(h).len() > 0 {
            Some(urn_of_inmail_link(h))
        } else {
            urn_from_inmail_links_spec(hrefs, i + 1)
        }
    }
}

/// The profile URN of a profile page in the InMail flow's reading.
pub fn urn_from_inmail_links(hrefs: &Vec<Option<String>>) -> (r: Option<String>)
    ensures
        opt_view(r) == urn_from_inmail_links_spec(opt_views(hrefs@), 0),
{
    let ghost hv = opt_views(hrefs@);
    let mut i: usize = 0;
    while i < hrefs.len()
        invariant
            i <= hrefs.len(),
            hv == opt_views(hrefs@),
            urn_from_inmail_links_spec(hv, 0) == urn_from_inmail_links_spec(hv, i as int),
        decreases hrefs.len() - i,
    {
        assert(hv[i as int] == opt_view(hrefs@[i as int]));
        let u = match &hrefs[i] {
            Some(h) => urn_of_inmail_link_exec(h.as_str()),
            None => {
                proof {
                    reveal_strlit("");
                }
                let e = urn_of_inmail_link_exec("");
                proof {
                    assert(""@ =~= Seq::<char>::empty());
                }
                e
            },
        };
        if u.len() > 0 {
            return Some(string_from_chars(u.as_slice()));
        }
        i = i + 1;
    }
    None
}

/// The URN in the target of the profile's side-bar link: after
/// `profileUrn=urn%3Ali%3Afsd_profile%3A`, up to the next `&`.
pub open spec fn sidebar_urn_spec(href: Option<Seq<char>>) -> Option<Seq<char>> {
    match href {
        None => None,
        Some(h) => urn_after(h, "profileUrn=urn%3Ali%3Afsd_profile%3A"@),
    }
}

/// The URN that the profile's side-bar link carries, or the error that the
/// message flow reports when it carries none.
pub fn entity_urn_from_sidebar_href(href: Option<String>) -> (r: Result<String, CustomError>)
    ensures
        match sidebar_urn_spec(opt_view(href)) {
            Some(u) => r matches Ok(x) && x@ == u,
            None => r matches Err(CustomError::ButtonNotFound(m)) && m@
                == "find_entity_urn_sidebar result not found"@,
        },
{
    proof {
        lemma_markers_nonempty();
    }
    match href {
        Some(link) => {
            let v = chars_of(link.as_str());
            match urn_after_exec(v.as_slice(), "profileUrn=urn%3Ali%3Afsd_profile%3A") {
                Some(u) => Ok(string_from_chars(u.as_slice())),
                None => Err(CustomError::ButtonNotFound(String::from_str("find_entity_urn_sidebar result not found"))),
            }
        },
        None => Err(CustomError::ButtonNotFound(String::from_str("find_entity_urn_sidebar result not found"))),
    }
}

/// The public profile URL of a Recruiter profile link.
pub open spec fn talent_profile_url_spec(href: Seq<char>) -> Seq<char> {
    "https://www.linkedin.com/in/"@ + part_from_url_spec(href).unwrap()
}

/// The public profile URL that a Recruiter search result links to.
pub fn talent_profile_url(href: &str) -> (r: String)
    requires
        part_from_url_spec(href@) is Some,
    ensures
        r@ == talent_profile_url_spec(href@),
{
    let part = extract_part_from_url(href).unwrap();
    String::from_str("https://www.linkedin.com/in/").concat(part)
}

/// The profile URLs of the Recruiter search results' links, in order.
pub fn talent_profile_urls(hrefs: &Vec<String>) -> (r: Vec<String>)
    requires
        forall|i: int| 0 <= i < hrefs@.len() ==> part_from_url_spec((#[trigger] hrefs@[i])@) is Some,
    ensures
        r@.len() == hrefs@.len(),
        forall|i: int| 0 <= i < hrefs@.len() ==> (#[trigger] r@[i])@ == talent_profile_url_spec(hrefs@[i]@),
{
    let mut out: Vec<String> = Vec::new();
    let mut i: usize = 0;
    while i < hrefs.len()
        invariant
            i <= hrefs.len(),
            out@.len() == i,
            forall|k: int| 0 <= k < hrefs@.len() ==> part_from_url_spec((#[trigger] hrefs@[k])@) is Some,
            forall|k: int| 0 <= k < i ==> (#[trigger] out@[k])@ == talent_profile_url_spec(hrefs@[k]@),
        decreases hrefs.len() - i,
    {
        let u = talent_profile_url(hrefs[i].as_str());
        out.push(u);
        i = i + 1;
    }
    out
}

/// What `percent_decode_str(s).decode_utf8_lossy()` gives: the `%XX`
/// escapes decoded, invalid UTF-8 replaced by U+FFFD.
pub uninterp spec fn percent_decoded(s: Seq<char>) -> Seq<char>;

/// percent-encoding: `percent_decode_str(s).decode_utf8_lossy()`; a text
/// without `%` decodes to itself, as the crate documents decoding of the
/// `%XX` escapes only.
#[verifier::external_body]
fn percent_decode_lossy(s: &str) -> (r: String)
    ensures
        r@ == percent_decoded(s@),
        !s@.contains('%') ==> r@ == s@,
{
    percent_encoding::percent_decode_str(s).decode_utf8_lossy().into_owned()
}

/// The selector of the message box whose link points to the current
/// profile page: the page's path, percent-decoded.
pub open spec fn conversation_selector_spec(current_url: Seq<char>) -> Seq<char> {
    "div.relative.display-flex.flex-column.flex-grow-1:has(a[href='"@ + percent_decoded(
        replace(current_url, "https://www.linkedin.com"@, seq![]),
    ) + "'])"@
}

/// The selector of the message box that belongs to the profile at
/// `current_url`.
pub fn conversation_selector(current_url: &str) -> (r: String)
    ensures
        r@ == conversation_selector_spec(current_url@),
{
    let v = chars_of(current_url);
    let host = chars_of("https://www.linkedin.com");
    proof {
        reveal_strlit("https://www.linkedin.com");
    }
    let empty: Vec<char> = Vec::new();
    assert(empty@ =~= Seq::<char>::empty());
    let path = replace_chars(v.as_slice(), host.as_slice(), empty.as_slice());
    let path_s = string_from_chars(path.as_slice());
    let decoded = percent_decode_lossy(path_s.as_str());
    String::from_str("div.relative.display-flex.flex-column.flex-grow-1:has(a[href='").concat(
        decoded.as_str(),
    ).concat("'])")
}

/// A messaging page of a new thread, where there is no one to reply yet.
pub fn is_new_thread(current_url: &str) -> (r: bool)
    ensures
        r == contains(current_url@, "messaging/thread/new/"@),
{
    let v = chars_of(current_url);
    let k = chars_of("messaging/thread/new/");
    contains_chars(v.as_slice(), k.as_slice())
}

} // verus!
