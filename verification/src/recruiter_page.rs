//! Reading Recruiter's people search and a member's connections page.
use vstd::prelude::*;
use vstd::string::*;
use crate::dom::{
    matches_or_none, page_attrs, page_inner_html, page_outer_html, select_attrs,
    select_inner_html, select_outer_html, selector_parse_error, string_views,
};
use crate::error::CustomError;
use crate::messages_page::present_ids;
use crate::names::{rest_of_name, FullName};
use crate::text::{chars_of, trim, trim_str, words, words_chars};
use crate::urls::{part_from_url_spec, talent_profile_url_spec, talent_profile_urls};

verus! {

/// The profile links of a Recruiter results page, in order.
pub open spec fn recruiter_links(html: Seq<char>) -> Seq<Seq<char>> {
    present_ids(matches_or_none(page_attrs(html, "a[data-test-link-to-profile-link='true']"@, "href"@)))
}

/// Every profile link of the results page names a member after
/// `/talent/profile/`.
pub open spec fn recruiter_links_readable(html: Seq<char>) -> bool {
    forall|i: int|
        0 <= i < recruiter_links(html).len() ==> part_from_url_spec(#[trigger] recruiter_links(html)[i]) is Some
}

/// The present targets, in order.
fn present(values: &Vec<Option<String>>) -> (r: Vec<String>)
    ensures
        string_views(r@) == present_ids(values.deep_view()),
{
    let ghost vv = values.deep_view();
    let mut out: Vec<String> = Vec::new();
    let mut i: usize = 0;
    while i < values.len()
        invariant
            vv == values.deep_view(),
            vv.len() == values.len(),
            i <= values.len(),
            string_views(out@) == present_ids(vv.take(i as int)),
        decreases values.len() - i,
    {
        proof {
            assert(vv.take(i + 1).drop_last() =~= vv.take(i as int));
            assert(vv.take(i + 1).last() == vv[i as int]);
        }
        let ghost before = string_views(out@);
        match &values[i] {
            Some(v) => {
                out.push(v.clone());
                assert(string_views(out@) =~= before.push(vv[i as int]->0));
            },
            None => {},
        }
        i = i + 1;
    }
    assert(vv.take(values.len() as int) =~= vv);
    out
}

/// The profile links of the Recruiter results page.
fn links_of(html: &str) -> (r: Vec<String>)
    ensures
        string_views(r@) == recruiter_links(html@),
{
    let hrefs = match select_attrs(html, "a[data-test-link-to-profile-link='true']", "href") {
        Some(v) => v,
        None => Vec::new(),
    };
    assert(hrefs.deep_view() =~= matches_or_none(
        page_attrs(html@, "a[data-test-link-to-profile-link='true']"@, "href"@),
    ));
    present(&hrefs)
}

/// `after` is `before` followed by the public profile URL of each result
/// link of the page, in order.
pub open spec fn results_appended(before: Seq<String>, after: Seq<String>, html: Seq<char>) -> bool {
    &&& after.len() == before.len() + recruiter_links(html).len()
    &&& forall|k: int| 0 <= k < before.len() ==> #[trigger] after[k] == before[k]
    &&& forall|k: int|
        0 <= k < recruiter_links(html).len() ==> (#[trigger] after[before.len() + k])@
            == talent_profile_url_spec(recruiter_links(html)[k])
}

/// Appends the public profile URL of each Recruiter search result to
/// `url_list`, in order; an error, with the list unchanged, when the link
/// selector does not parse. Every result link names its member.
pub fn scrap(html: &str, url_list: &mut Vec<String>) -> (r: Result<(), CustomError>)
    requires
        recruiter_links_readable(html@),
    ensures
        selector_parse_error("a[data-test-link-to-profile-link='true']"@) is Some ==> (r matches Err(
            CustomError::ButtonNotFound(e),
        ) && e@ == "a_selector is error/Scrap Recruiter Search"@ && final(url_list)@ == old(url_list)@),
        selector_parse_error("a[data-test-link-to-profile-link='true']"@) is None ==> (r is Ok
            && results_appended(old(url_list)@, final(url_list)@, html@)),
{
    let found = select_attrs(html, "a[data-test-link-to-profile-link='true']", "href");
    if found.is_none() {
        return Err(CustomError::ButtonNotFound(String::from_str("a_selector is error/Scrap Recruiter Search")));
    }
    let links = links_of(html);
    let ghost lv = recruiter_links(html@);
    assert forall|i: int| 0 <= i < links@.len() implies part_from_url_spec((#[trigger] links@[i])@) is Some by {
        assert(links@[i]@ == lv[i]);
    }
    let urls = talent_profile_urls(&links);
    let ghost start = url_list@;
    let mut i: usize = 0;
    while i < urls.len()
        invariant
            i <= urls.len(),
            urls@.len() == lv.len(),
            string_views(links@) == lv,
            forall|k: int| 0 <= k < urls@.len() ==> (#[trigger] urls@[k])@ == talent_profile_url_spec(links@[k]@),
            url_list@.len() == start.len() + i,
            forall|k: int| 0 <= k < start.len() ==> #[trigger] url_list@[k] == start[k],
            forall|k: int| 0 <= k < i ==> (#[trigger] url_list@[start.len() + k])@ == talent_profile_url_spec(lv[k]),
        decreases urls.len() - i,
    {
        assert(links@[i as int]@ == lv[i as int]);
        url_list.push(urls[i].clone());
        i = i + 1;
    }
    Ok(())
}

/// Appends the public profile URL of each Recruiter search result to
/// `url_list`; `None`, with the list unchanged, when a result link does not
/// name its member.
pub fn read_recruiter_results(html: &str, url_list: &mut Vec<String>) -> (r: Option<Result<(), CustomError>>)
    ensures
        !recruiter_links_readable(html@) ==> (r is None && final(url_list)@ == old(url_list)@),
        recruiter_links_readable(html@) && selector_parse_error("a[data-test-link-to-profile-link='true']"@)
            is Some ==> (r matches Some(Err(CustomError::ButtonNotFound(e))) && e@
            == "a_selector is error/Scrap Recruiter Search"@ && final(url_list)@ == old(url_list)@),
        recruiter_links_readable(html@) && selector_parse_error("a[data-test-link-to-profile-link='true']"@)
            is None ==> (r matches Some(Ok(_)) && results_appended(old(url_list)@, final(url_list)@, html@)),
{
    let links = links_of(html);
    let ghost lv = recruiter_links(html@);
    let mut i: usize = 0;
    while i < links.len()
        invariant
            string_views(links@) == lv,
            lv == recruiter_links(html@),
            i <= links.len(),
            forall|k: int| 0 <= k < i ==> part_from_url_spec(#[trigger] lv[k]) is Some,
        decreases links.len() - i,
    {
        assert(links@[i as int]@ == lv[i as int]);
        if crate::urls::extract_part_from_url(links[i].as_str()).is_none() {
            return None;
        }
        i = i + 1;
    }
    Some(scrap(html, url_list))
}

/// A connection of the member: the name split into first and last name,
/// and the profile URL.
pub struct Connection {
    pub first_name: String,
    pub last_name: String,
    pub full_name: String,
    pub profile_url: String,
}

/// The cards of a connections page.
pub open spec fn connection_cards(html: Seq<char>) -> Seq<Seq<char>> {
    matches_or_none(page_outer_html(html, "li.mn-connection-card"@))
}

/// The names shown on a card, as HTML.
pub open spec fn card_names(card: Seq<char>) -> Seq<Seq<char>> {
    matches_or_none(page_inner_html(card, "span.mn-connection-card__name"@))
}

/// The targets of a card's profile links.
pub open spec fn card_links(card: Seq<char>) -> Seq<Option<Seq<char>>> {
    matches_or_none(page_attrs(card, "a.mn-connection-card__link"@, "href"@))
}

/// A card shows a name of at least one word and a profile link with a
/// target.
pub open spec fn card_readable(card: Seq<char>) -> bool {
    &&& card_names(card).len() > 0
    &&& words(trim(card_names(card)[0])).len() > 0
    &&& card_links(card).len() > 0
    &&& card_links(card)[0] is Some
}

/// The connection read from a card: its trimmed name split at whitespace,
/// and the profile link on `https://www.linkedin.com`.
pub open spec fn connection_of(c: Connection, card: Seq<char>) -> bool {
    let name = trim(card_names(card)[0]);
    &&& c.first_name@ == words(name)[0]
    &&& c.last_name@ == rest_of_name(words(name))
    &&& c.full_name@ == name
    &&& c.profile_url@ == "https://www.linkedin.com"@ + card_links(card)[0]->0
}

/// Reads a connection card as `connection_of` says; `None` when the card
/// is not readable.
fn read_card(card: &str) -> (r: Option<Connection>)
    ensures
        card_readable(card@) ==> (r matches Some(c) && connection_of(c, card@)),
        !card_readable(card@) ==> r is None,
{
    let names = match select_inner_html(card, "span.mn-connection-card__name") {
        Some(v) => v,
        None => Vec::new(),
    };
    assert(string_views(names@) =~= card_names(card@));
    if names.len() == 0 {
        return None;
    }
    let name = trim_str(names[0].as_str());
    assert(names@[0]@ == card_names(card@)[0]);
    let nc = chars_of(name.as_str());
    let ws = words_chars(nc.as_slice());
    assert(crate::text::views(ws@).len() == ws@.len());
    if ws.len() == 0 {
        return None;
    }
    let links = match select_attrs(card, "a.mn-connection-card__link", "href") {
        Some(v) => v,
        None => Vec::new(),
    };
    assert(links.deep_view() =~= card_links(card@));
    if links.len() == 0 {
        return None;
    }
    let href = match &links[0] {
        Some(h) => h,
        None => {
            return None;
        },
    };
    let full_name = FullName::split_name(name.as_str());
    let profile_url = String::from_str("https://www.linkedin.com").concat(href.as_str());
    Some(
        Connection {
            first_name: full_name.first_name,
            last_name: full_name.last_name,
            full_name: full_name.full_name,
            profile_url,
        },
    )
}

/// Reads the connection cards from the `i`-th on; `None` at the first that
/// is not readable.
fn scan_cards(cards: &Vec<String>) -> (r: Option<Vec<Connection>>)
    ensures
        (forall|k: int| 0 <= k < cards@.len() ==> #[trigger] card_readable(cards@[k]@)) ==> (r matches Some(v)
            && v@.len() == cards@.len() && forall|k: int|
            0 <= k < v@.len() ==> #[trigger] connection_of(v@[k], cards@[k]@)),
        !(forall|k: int| 0 <= k < cards@.len() ==> #[trigger] card_readable(cards@[k]@)) ==> r is None,
{
    let mut out: Vec<Connection> = Vec::new();
    let mut i: usize = 0;
    while i < cards.len()
        invariant
            i <= cards.len(),
            out@.len() == i,
            forall|k: int| 0 <= k < i ==> #[trigger] card_readable(cards@[k]@),
            forall|k: int| 0 <= k < i ==> #[trigger] connection_of(out@[k], cards@[k]@),
        decreases cards.len() - i,
    {
        match read_card(cards[i].as_str()) {
            Some(c) => out.push(c),
            None => {
                return None;
            },
        }
        i = i + 1;
    }
    Some(out)
}

/// Every card of the connections page is readable.
pub open spec fn cards_readable(html: Seq<char>) -> bool {
    forall|k: int| 0 <= k < connection_cards(html).len() ==> #[trigger] card_readable(connection_cards(html)[k])
}

/// The cards of the connections page.
fn cards_of(html: &str) -> (r: Vec<String>)
    ensures
        string_views(r@) == connection_cards(html@),
{
    let cards = match select_outer_html(html, "li.mn-connection-card") {
        Some(v) => v,
        None => Vec::new(),
    };
    assert(string_views(cards@) =~= connection_cards(html@));
    cards
}

/// Reads the connections of a connections page, in order. Every card shows
/// a name and a profile link.
pub fn scrap_each_connection(html: &str) -> (r: Vec<Connection>)
    requires
        cards_readable(html@),
    ensures
        r@.len() == connection_cards(html@).len(),
        forall|k: int| 0 <= k < r@.len() ==> #[trigger] connection_of(r@[k], connection_cards(html@)[k]),
{
    let cards = cards_of(html);
    let ghost cv = connection_cards(html@);
    assert forall|k: int| 0 <= k < cards@.len() implies #[trigger] card_readable(cards@[k]@) by {
        assert(cards@[k]@ == cv[k]);
    }
    match scan_cards(&cards) {
        Some(v) => {
            assert forall|k: int| 0 <= k < v@.len() implies #[trigger] connection_of(v@[k], cv[k]) by {
                assert(cards@[k]@ == cv[k]);
            }
            v
        },
        None => Vec::new(),
    }
}

/// Reads the connections of a connections page; `None` when a card lacks
/// its name or profile link.
pub fn read_connections(html: &str) -> (r: Option<Vec<Connection>>)
    ensures
        cards_readable(html@) ==> (r matches Some(v) && v@.len() == connection_cards(html@).len()
            && forall|k: int| 0 <= k < v@.len() ==> #[trigger] connection_of(v@[k], connection_cards(html@)[k])),
        !cards_readable(html@) ==> r is None,
{
    let cards = cards_of(html);
    let ghost cv = connection_cards(html@);
    if scan_cards(&cards).is_none() {
        assert(!cards_readable(html@)) by {
            if cards_readable(html@) {
                assert forall|k: int| 0 <= k < cards@.len() implies #[trigger] card_readable(cards@[k]@) by {
                    assert(cards@[k]@ == cv[k]);
                }
            }
        }
        return None;
    }
    assert(cards_readable(html@)) by {
        assert forall|k: int| 0 <= k < cv.len() implies #[trigger] card_readable(cv[k]) by {
            assert(cards@[k]@ == cv[k]);
            assert(card_readable(cards@[k]@));
        }
    }
    Some(scrap_each_connection(html))
}

/// The connections read from the page; a page with none is an error.
pub fn connections_found(connections: Vec<Connection>) -> (r: Result<Vec<Connection>, CustomError>)
    ensures
        connections@.len() > 0 ==> (r matches Ok(v) && v@ == connections@),
        connections@.len() == 0 ==> (r matches Err(CustomError::ButtonNotFound(m)) && m@
            == "Connections vec is zero, double check"@),
{
    if connections.len() == 0 {
        Err(CustomError::ButtonNotFound(String::from_str("Connections vec is zero, double check")))
    } else {
        Ok(connections)
    }
}

} // verus!
