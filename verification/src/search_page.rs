//! Reading LinkedIn's people search: the profile links of a results page
//! and the number of result pages.
use vstd::prelude::*;
use crate::decisions::{pages_from_label, parse_i32_spec};
use crate::dom::{first_attr, first_attr_value, matches_or_none, page_attrs, select_attrs, string_views};
use crate::messages_page::present_ids;
use crate::projects_page::{decimal, decimal_text};
use crate::text::{chars_of, string_from_chars, words, words_chars};
use vstd::string::*;

verus! {

/// The profile links of a results page, in order.
pub open spec fn result_links(html: Seq<char>) -> Seq<Seq<char>> {
    present_ids(
        matches_or_none(page_attrs(html, "span.entity-result__title-text > a.app-aware-link"@, "href"@)),
    )
}

/// The targets that are present, in order, appended to `out`.
fn push_present(values: &Vec<Option<String>>, out: &mut Vec<String>)
    ensures
        string_views(final(out)@) == string_views(old(out)@) + present_ids(values.deep_view()),
{
    let ghost vv = values.deep_view();
    let ghost start = string_views(out@);
    let mut i: usize = 0;
    while i < values.len()
        invariant
            vv == values.deep_view(),
            vv.len() == values.len(),
            i <= values.len(),
            string_views(out@) == start + present_ids(vv.take(i as int)),
        decreases values.len() - i,
    {
        proof {
            assert(vv.take(i + 1).drop_last() =~= vv.take(i as int));
            assert(vv.take(i + 1).last() == vv[i as int]);
        }
        let ghost before = string_views(out@);
        match &values[i] {
            Some(v) => {
                out.push(v.clone());
                assert(string_views(out@) =~= before.push(vv[i as int]->0));
            },
            None => {},
        }
        i = i + 1;
    }
    assert(vv.take(values.len() as int) =~= vv);
}

/// Appends the profile links of a people search results page to
/// `url_list`, in order.
pub fn scrap(html: &str, url_list: &mut Vec<String>)
    ensures
        string_views(final(url_list)@) == string_views(old(url_list)@) + result_links(html@),
{
    let hrefs = match select_attrs(html, "span.entity-result__title-text > a.app-aware-link", "href") {
        Some(v) => v,
        None => Vec::new(),
    };
    assert(hrefs.deep_view() =~= matches_or_none(
        page_attrs(html@, "span.entity-result__title-text > a.app-aware-link"@, "href"@),
    ));
    push_present(&hrefs, url_list);
}

/// The label of the last page button of the results' pagination.
pub open spec fn last_page_label(html: Seq<char>) -> Option<Seq<char>> {
    first_attr(
        page_attrs(html, "li.artdeco-pagination__indicator--number:last-child button"@, "aria-label"@),
    )
}

/// The pagination shows its last page button with a label whose last word
/// is a number.
pub open spec fn page_count_readable(html: Seq<char>) -> bool {
    last_page_label(html) matches Some(label) && words(label).len() > 0 && parse_i32_spec(
        words(label).last(),
    ) is Some
}

/// The number of result pages: the last word of the last page button's
/// label.
pub open spec fn page_count_spec(html: Seq<char>) -> i32 {
    parse_i32_spec(words(last_page_label(html)->0).last())->0
}

/// Reads the number of result pages from the pagination, which shows it.
pub fn count_pages(html: String) -> (r: i32)
    requires
        page_count_readable(html@),
    ensures
        r == page_count_spec(html@),
{
    let label = first_attr_value(
        &select_attrs(html.as_str(), "li.artdeco-pagination__indicator--number:last-child button", "aria-label"),
    );
    match label {
        Some(l) => pages_from_label(l.as_str()),
        None => 0,
    }
}

/// Reads the number of result pages; `None` when the pagination does not
/// show it.
pub fn read_page_count(html: String) -> (r: Option<i32>)
    ensures
        page_count_readable(html@) ==> r == Some(page_count_spec(html@)),
        !page_count_readable(html@) ==> r is None,
{
    let label = first_attr_value(
        &select_attrs(html.as_str(), "li.artdeco-pagination__indicator--number:last-child button", "aria-label"),
    );
    let readable = match &label {
        Some(l) => {
            let v = chars_of(l.as_str());
            let ws = words_chars(v.as_slice());
            if ws.len() > 0 {
                let last = &ws[ws.len() - 1];
                assert(last@ == crate::text::views(ws@).last());
                crate::decisions::parse_i32_chars(last.as_slice()).is_some()
            } else {
                false
            }
        },
        None => false,
    };
    if readable {
        Some(count_pages(html))
    } else {
        None
    }
}

/// The selector of the pagination button of page `page`.
pub fn page_button_selector(page: usize) -> (r: String)
    ensures
        r@ == "button[aria-label='Page "@ + decimal(page as nat) + "']"@,
{
    let digits = decimal_text(page);
    let mut s = String::from_str("button[aria-label='Page ");
    let d = string_from_chars(digits.as_slice());
    s.append(d.as_str());
    s.append("']");
    s
}

} // verus!
