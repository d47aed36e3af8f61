//! Reading HTML pages through scraper.
//!
//! Each query parses a page, runs one CSS selector over it and hands back,
//! for every element that the selector matches in document order, one plain
//! value read from that element: its text nodes, an attribute, or its HTML.
//! Which elements match is scraper's business and is named, not stated; the
//! library's logic takes those plain values and is verified for every one of
//! them. Where the logic looks into an element of the page (a child of the
//! first element that a selector matches, or one of the elements that a
//! selector matches), the query names the element by its place, and the
//! element is matched where it stands in the page; elsewhere an element that
//! the logic looks into further is carried as its own HTML, which the next
//! query parses again.
//!
//! scraper is built with its `deterministic` feature: an element keeps its
//! attributes in the order of the source, so the HTML that scraper writes
//! for a page is a function of the page alone.
use vstd::prelude::*;
use scraper::{Html, Selector};
use crate::misc::opt_view;
use crate::text::{chars_of, join, join_chars, string_from_chars, views};

verus! {

/// The text nodes under each element that `selector` matches in the page
/// `html` (parsed as a document), in document order; `None` when the
/// selector does not parse.
pub uninterp spec fn page_texts(html: Seq<char>, selector: Seq<char>) -> Option<Seq<Seq<Seq<char>>>>;

/// The value of attribute `attr` of each element that `selector` matches in
/// the page `html` (parsed as a document); `None` when the selector does not
/// parse.
pub uninterp spec fn page_attrs(html: Seq<char>, selector: Seq<char>, attr: Seq<char>) -> Option<Seq<Option<Seq<char>>>>;

/// The HTML of each element that `selector` matches in the page `html`
/// (parsed as a document), the element's own tags included; `None` when the
/// selector does not parse.
pub uninterp spec fn page_outer_html(html: Seq<char>, selector: Seq<char>) -> Option<Seq<Seq<char>>>;

/// The HTML inside each element that `selector` matches in the page `html`
/// (parsed as a document); `None` when the selector does not parse.
pub uninterp spec fn page_inner_html(html: Seq<char>, selector: Seq<char>) -> Option<Seq<Seq<char>>>;

/// The value of attribute `attr` of each element that `selector` matches in
/// `html` parsed as a fragment; `None` when the selector does not parse.
pub uninterp spec fn fragment_attrs(html: Seq<char>, selector: Seq<char>, attr: Seq<char>) -> Option<Seq<Option<Seq<char>>>>;

/// The text nodes under each element that `selector` matches inside the
/// `k`-th element (from 0) that `scope` matches in the page `html`, matched
/// where it stands in the page. `None` when a selector does not parse or
/// `scope` has fewer matches.
pub uninterp spec fn match_texts(html: Seq<char>, scope: Seq<char>, k: int, selector: Seq<char>) -> Option<Seq<Seq<Seq<char>>>>;

/// The value of attribute `attr` of each element that `selector` matches
/// inside the `k`-th element that `scope` matches in the page `html`,
/// matched where it stands in the page; `None` as for `match_texts`.
pub uninterp spec fn match_attrs(html: Seq<char>, scope: Seq<char>, k: int, selector: Seq<char>, attr: Seq<char>) -> Option<Seq<Option<Seq<char>>>>;

/// The `Debug` text of the error that scraper's `Selector::parse` gives for
/// `selector`; `None` when the selector parses.
pub uninterp spec fn selector_parse_error(selector: Seq<char>) -> Option<Seq<char>>;

/// The HTML that scraper writes for the page `html` once parsed as a
/// document.
pub uninterp spec fn page_serialized(html: Seq<char>) -> Seq<char>;

/// For each element child of the first element that `list` matches in the
/// page `html` (parsed as a document), in order: its tag name and the HTML
/// inside it. `None` when `list` does not parse or matches nothing.
pub uninterp spec fn page_children(html: Seq<char>, list: Seq<char>) -> Option<Seq<(Seq<char>, Seq<char>)>>;

/// The text nodes under each element that `selector` matches inside the
/// element child `k` of the first element that `list` matches in the page
/// `html`, the element being matched where it stands in the page. `None`
/// when a selector does not parse, `list` matches nothing, or that element
/// has no child `k`.
pub uninterp spec fn child_texts(html: Seq<char>, list: Seq<char>, k: int, selector: Seq<char>) -> Option<Seq<Seq<Seq<char>>>>;

/// The value of attribute `attr` of each element that `selector` matches
/// inside the element child `k` of the first element that `list` matches in
/// the page `html`, matched where it stands in the page; `None` as for
/// `child_texts`.
pub uninterp spec fn child_attrs(html: Seq<char>, list: Seq<char>, k: int, selector: Seq<char>, attr: Seq<char>) -> Option<Seq<Option<Seq<char>>>>;

/// The text nodes under each element that `inner` matches inside the first
/// element that `outer` matches inside the element child `k` of the first
/// element that `list` matches in the page `html`, all matched where they
/// stand in the page. `None` as for `child_texts`, and when `outer` matches
/// nothing there.
pub uninterp spec fn child_nested_texts(html: Seq<char>, list: Seq<char>, k: int, outer: Seq<char>, inner: Seq<char>) -> Option<Seq<Seq<Seq<char>>>>;

/// scraper: `Selector::parse(selector)`, its error written with
/// `format!("{:?}", ..)`. The contract names the result
/// `selector_parse_error(selector@)`.
#[verifier::external_body]
pub(crate) fn selector_error(selector: &str) -> (r: Option<String>)
    ensures
        opt_view(r) == selector_parse_error(selector@),
{
    Selector::parse(selector).err().map(|e| format!("{:?}", e))
}

/// scraper: `Html::parse_document(html).html()`. The contract names the
/// result `page_serialized(html@)`.
#[verifier::external_body]
pub(crate) fn serialize_page(html: &str) -> (r: String)
    ensures
        r@ == page_serialized(html@),
{
    Html::parse_document(html).html()
}

/// scraper: `Selector::parse(selector)`, `Html::parse_document(html)`, then
/// for each element of `select` the pieces of `ElementRef::text`. The
/// contract names the result `page_texts(html@, selector@)`.
#[verifier::external_body]
pub(crate) fn select_texts(html: &str, selector: &str) -> (r: Option<Vec<Vec<String>>>)
    ensures
        r.deep_view() == page_texts(html@, selector@),
        r is Some <==> selector_parse_error(selector@) is None,
{
    let selector = Selector::parse(selector).ok()?;
    let page = Html::parse_document(html);
    Some(page.select(&selector).map(|e| e.text().map(String::from).collect()).collect())
}

/// scraper: `Selector::parse(selector)`, `Html::parse_document(html)`, then
/// for each element of `select` its `attr(attr)`. The contract names the
/// result `page_attrs(html@, selector@, attr@)`.
#[verifier::external_body]
pub(crate) fn select_attrs(html: &str, selector: &str, attr: &str) -> (r: Option<Vec<Option<String>>>)
    ensures
        r.deep_view() == page_attrs(html@, selector@, attr@),
        r is Some <==> selector_parse_error(selector@) is None,
{
    let selector = Selector::parse(selector).ok()?;
    let page = Html::parse_document(html);
    Some(page.select(&selector).map(|e| e.value().attr(attr).map(String::from)).collect())
}

/// scraper: `Selector::parse(selector)`, `Html::parse_document(html)`, then
/// for each element of `select` its `ElementRef::html`. The contract names
/// the result `page_outer_html(html@, selector@)`, and says that a query of
/// an attribute with the same selector on the same page visits the same
/// elements: one value for each.
#[verifier::external_body]
pub(crate) fn select_outer_html(html: &str, selector: &str) -> (r: Option<Vec<String>>)
    ensures
        r.deep_view() == page_outer_html(html@, selector@),
        r is Some <==> selector_parse_error(selector@) is None,
        r matches Some(v) ==> forall|attr: Seq<char>|
            #[trigger] page_attrs(html@, selector@, attr) matches Some(a) && a.len() == v@.len(),
{
    let selector = Selector::parse(selector).ok()?;
    let page = Html::parse_document(html);
    Some(page.select(&selector).map(|e| e.html()).collect())
}

/// scraper: `Selector::parse(selector)`, `Html::parse_document(html)`, then
/// for each element of `select` its `ElementRef::inner_html`. The contract
/// names the result `page_inner_html(html@, selector@)`.
#[verifier::external_body]
pub(crate) fn select_inner_html(html: &str, selector: &str) -> (r: Option<Vec<String>>)
    ensures
        r.deep_view() == page_inner_html(html@, selector@),
        r is Some <==> selector_parse_error(selector@) is None,
{
    let selector = Selector::parse(selector).ok()?;
    let page = Html::parse_document(html);
    Some(page.select(&selector).map(|e| e.inner_html()).collect())
}

/// scraper: `Selector::parse(selector)`, `Html::parse_fragment(html)`, then
/// for each element of `select` its `attr(attr)`. The contract names the
/// result `fragment_attrs(html@, selector@, attr@)`.
#[verifier::external_body]
pub(crate) fn select_fragment_attrs(html: &str, selector: &str, attr: &str) -> (r: Option<Vec<Option<String>>>)
    ensures
        r.deep_view() == fragment_attrs(html@, selector@, attr@),
        r is Some <==> selector_parse_error(selector@) is None,
{
    let selector = Selector::parse(selector).ok()?;
    let page = Html::parse_fragment(html);
    Some(page.select(&selector).map(|e| e.value().attr(attr).map(String::from)).collect())
}

/// scraper: `Html::parse_document(html)`, the first element of
/// `select(list)`, and for each of its `child_elements` the tag name
/// (`value().name()`) and `inner_html`. The contract names the result
/// `page_children(html@, list@)`.
#[verifier::external_body]
pub(crate) fn select_children(html: &str, list: &str) -> (r: Option<Vec<(String, String)>>)
    ensures
        r.deep_view() == page_children(html@, list@),
{
    let list = Selector::parse(list).ok()?;
    let page = Html::parse_document(html);
    let u = page.select(&list).next()?;
    Some(u.child_elements().map(|e| (e.value().name().to_string(), e.inner_html())).collect())
}

/// scraper: `Html::parse_document(html)`, the element child `k` of the first
/// element of `select(list)`, then for each element of its own
/// `ElementRef::select(selector)` the pieces of `text`. The contract names
/// the result `child_texts(html@, list@, k, selector@)`.
#[verifier::external_body]
pub(crate) fn select_child_texts(html: &str, list: &str, k: usize, selector: &str) -> (r: Option<Vec<Vec<String>>>)
    ensures
        r.deep_view() == child_texts(html@, list@, k as int, selector@),
{
    let list = Selector::parse(list).ok()?;
    let selector = Selector::parse(selector).ok()?;
    let page = Html::parse_document(html);
    let item = page.select(&list).next()?.child_elements().nth(k)?;
    Some(item.select(&selector).map(|e| e.text().map(String::from).collect()).collect())
}

/// scraper: `Html::parse_document(html)`, the element child `k` of the first
/// element of `select(list)`, then for each element of its own
/// `ElementRef::select(selector)` its `attr(attr)`. The contract names the
/// result `child_attrs(html@, list@, k, selector@, attr@)`.
#[verifier::external_body]
pub(crate) fn select_child_attrs(html: &str, list: &str, k: usize, selector: &str, attr: &str) -> (r: Option<Vec<Option<String>>>)
    ensures
        r.deep_view() == child_attrs(html@, list@, k as int, selector@, attr@),
{
    let list = Selector::parse(list).ok()?;
    let selector = Selector::parse(selector).ok()?;
    let page = Html::parse_document(html);
    let item = page.select(&list).next()?.child_elements().nth(k)?;
    Some(item.select(&selector).map(|e| e.value().attr(attr).map(String::from)).collect())
}

/// scraper: `Html::parse_document(html)`, the element child `k` of the first
/// element of `select(list)`, the first element of its `select(outer)`, then
/// for each element of that one's `select(inner)` the pieces of `text`. The
/// contract names the result `child_nested_texts(html@, list@, k, outer@,
/// inner@)`.
#[verifier::external_body]
pub(crate) fn select_child_nested_texts(html: &str, list: &str, k: usize, outer: &str, inner: &str) -> (r: Option<Vec<Vec<String>>>)
    ensures
        r.deep_view() == child_nested_texts(html@, list@, k as int, outer@, inner@),
{
    let list = Selector::parse(list).ok()?;
    let outer = Selector::parse(outer).ok()?;
    let inner = Selector::parse(inner).ok()?;
    let page = Html::parse_document(html);
    let item = page.select(&list).next()?.child_elements().nth(k)?;
    let block = item.select(&outer).next()?;
    Some(block.select(&inner).map(|e| e.text().map(String::from).collect()).collect())
}

/// scraper: `Html::parse_document(html)`, the element `nth(k)` of
/// `select(scope)`, then for each element of its own
/// `ElementRef::select(selector)` the pieces of `text`. The contract names
/// the result `match_texts(html@, scope@, k, selector@)`.
#[verifier::external_body]
pub(crate) fn select_match_texts(html: &str, scope: &str, k: usize, selector: &str) -> (r: Option<Vec<Vec<String>>>)
    ensures
        r.deep_view() == match_texts(html@, scope@, k as int, selector@),
{
    let scope = Selector::parse(scope).ok()?;
    let selector = Selector::parse(selector).ok()?;
    let page = Html::parse_document(html);
    let item = page.select(&scope).nth(k)?;
    Some(item.select(&selector).map(|e| e.text().map(String::from).collect()).collect())
}

/// scraper: `Html::parse_document(html)`, the element `nth(k)` of
/// `select(scope)`, then for each element of its own
/// `ElementRef::select(selector)` its `attr(attr)`. The contract names the
/// result `match_attrs(html@, scope@, k, selector@, attr@)`.
#[verifier::external_body]
pub(crate) fn select_match_attrs(html: &str, scope: &str, k: usize, selector: &str, attr: &str) -> (r: Option<Vec<Option<String>>>)
    ensures
        r.deep_view() == match_attrs(html@, scope@, k as int, selector@, attr@),
{
    let scope = Selector::parse(scope).ok()?;
    let selector = Selector::parse(selector).ok()?;
    let page = Html::parse_document(html);
    let item = page.select(&scope).nth(k)?;
    Some(item.select(&selector).map(|e| e.value().attr(attr).map(String::from)).collect())
}

/// The views of a list of strings.
pub open spec fn string_views(v: Seq<String>) -> Seq<Seq<char>> {
    Seq::new(v.len(), |i: int| v[i]@)
}

/// The text of the first match, its pieces joined by `sep`; `None` when the
/// selector did not parse or matched nothing.
pub open spec fn first_joined(ms: Option<Seq<Seq<Seq<char>>>>, sep: Seq<char>) -> Option<Seq<char>> {
    match ms {
        Some(m) => if m.len() > 0 {
            Some(join(m[0], sep))
        } else {
            None
        },
        None => None,
    }
}

/// The text of the last match, its pieces joined by `sep`, or the empty text
/// when nothing matched; `None` when the selector did not parse.
pub open spec fn last_joined(ms: Option<Seq<Seq<Seq<char>>>>, sep: Seq<char>) -> Option<Seq<char>> {
    match ms {
        Some(m) => if m.len() > 0 {
            Some(join(m.last(), sep))
        } else {
            Some(Seq::empty())
        },
        None => None,
    }
}

/// The text of the second match, its pieces joined by `sep`.
pub open spec fn second_joined(ms: Option<Seq<Seq<Seq<char>>>>, sep: Seq<char>) -> Option<Seq<char>> {
    match ms {
        Some(m) => if m.len() > 1 {
            Some(join(m[1], sep))
        } else {
            None
        },
        None => None,
    }
}

/// The matches of a query, none when the selector did not parse.
pub open spec fn matches_or_none<T>(ms: Option<Seq<T>>) -> Seq<T> {
    match ms {
        Some(m) => m,
        None => seq![],
    }
}

/// The first text node of the first match, when it has one.
pub open spec fn first_node_text(ms: Option<Seq<Seq<Seq<char>>>>) -> Option<Seq<char>> {
    match ms {
        Some(m) => if m.len() > 0 && m[0].len() > 0 {
            Some(m[0][0])
        } else {
            None
        },
        None => None,
    }
}

/// The attribute of the first match; `None` when nothing matched or the first
/// match lacks it.
pub open spec fn first_attr(ms: Option<Seq<Option<Seq<char>>>>) -> Option<Seq<char>> {
    match ms {
        Some(m) => if m.len() > 0 {
            m[0]
        } else {
            None
        },
        None => None,
    }
}

/// The first element of a list of HTML pieces.
pub open spec fn first_html(ms: Option<Seq<Seq<char>>>) -> Option<Seq<char>> {
    match ms {
        Some(m) => if m.len() > 0 {
            Some(m[0])
        } else {
            None
        },
        None => None,
    }
}

/// The strings joined with `sep` between them.
pub fn join_strings(parts: &Vec<String>, sep: &str) -> (r: String)
    ensures
        r@ == join(string_views(parts@), sep@),
{
    let mut cs: Vec<Vec<char>> = Vec::new();
    let mut i: usize = 0;
    while i < parts.len()
        invariant
            i <= parts.len(),
            cs@.len() == i,
            forall|k: int| 0 <= k < i ==> (#[trigger] cs@[k])@ == parts@[k]@,
        decreases parts.len() - i,
    {
        cs.push(chars_of(parts[i].as_str()));
        i = i + 1;
    }
    let sep_chars = chars_of(sep);
    let joined = join_chars(cs.as_slice(), sep_chars.as_slice());
    assert(views(cs@) =~= string_views(parts@));
    string_from_chars(joined.as_slice())
}

proof fn lemma_texts_view(m: Seq<Vec<String>>, i: int)
    requires
        0 <= i < m.len(),
    ensures
        m[i].deep_view() == string_views(m[i]@),
{
    assert(m[i].deep_view() =~= string_views(m[i]@));
}

/// The text of the first match of a query, its pieces joined by `sep`.
pub fn first_joined_text(ms: &Option<Vec<Vec<String>>>, sep: &str) -> (r: Option<String>)
    ensures
        opt_view(r) == first_joined(ms.deep_view(), sep@),
{
    match ms {
        Some(m) => {
            if m.len() > 0 {
                proof {
                    lemma_texts_view(m@, 0);
                }
                Some(join_strings(&m[0], sep))
            } else {
                None
            }
        },
        None => None,
    }
}

/// The text of the last match of a query, its pieces joined by `sep`, or the
/// empty text when nothing matched.
pub fn last_joined_text(ms: &Option<Vec<Vec<String>>>, sep: &str) -> (r: Option<String>)
    ensures
        opt_view(r) == last_joined(ms.deep_view(), sep@),
{
    match ms {
        Some(m) => {
            if m.len() > 0 {
                let last = m.len() - 1;
                proof {
                    lemma_texts_view(m@, last as int);
                }
                Some(join_strings(&m[last], sep))
            } else {
                Some(String::new())
            }
        },
        None => None,
    }
}

/// The text of the second match of a query, its pieces joined by `sep`.
pub fn second_joined_text(ms: &Option<Vec<Vec<String>>>, sep: &str) -> (r: Option<String>)
    ensures
        opt_view(r) == second_joined(ms.deep_view(), sep@),
{
    match ms {
        Some(m) => {
            if m.len() > 1 {
                proof {
                    lemma_texts_view(m@, 1);
                }
                Some(join_strings(&m[1], sep))
            } else {
                None
            }
        },
        None => None,
    }
}

/// The first text node of the first match of a query.
pub fn first_text_piece(ms: &Option<Vec<Vec<String>>>) -> (r: Option<String>)
    ensures
        opt_view(r) == first_node_text(ms.deep_view()),
{
    match ms {
        Some(m) => {
            if m.len() > 0 && m[0].len() > 0 {
                Some(m[0][0].clone())
            } else {
                None
            }
        },
        None => None,
    }
}

/// The attribute of the first match of a query.
pub fn first_attr_value(ms: &Option<Vec<Option<String>>>) -> (r: Option<String>)
    ensures
        opt_view(r) == first_attr(ms.deep_view()),
{
    match ms {
        Some(m) => {
            if m.len() > 0 {
                match &m[0] {
                    Some(a) => Some(a.clone()),
                    None => None,
                }
            } else {
                None
            }
        },
        None => None,
    }
}

/// The first HTML piece of a query.
pub fn first_html_piece(ms: &Option<Vec<String>>) -> (r: Option<String>)
    ensures
        opt_view(r) == first_html(ms.deep_view()),
{
    match ms {
        Some(m) => {
            if m.len() > 0 {
                Some(m[0].clone())
            } else {
                None
            }
        },
        None => None,
    }
}

} // verus!
