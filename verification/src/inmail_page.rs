//! The member's URN on a profile page as the InMail flow reads it.
use vstd::prelude::*;
use crate::dom::{matches_or_none, page_attrs, page_serialized, select_attrs, serialize_page};
use crate::messages_page::{datalet_guid_urn_spec, print_elements_with_datalet_in_id};
use crate::misc::opt_view;
use crate::urls::{opt_views, urn_from_inmail_links, urn_from_inmail_links_spec};

verus! {

/// The member's URN in the InMail flow's reading: from the first link that
/// carries one, else from the page data of the page as scraper writes it
/// again; `None` when neither gives one.
pub open spec fn inmail_entity_urn_spec(html: Seq<char>) -> Option<Seq<char>> {
    match urn_from_inmail_links_spec(matches_or_none(page_attrs(html, "a"@, "href"@)), 0) {
        Some(u) => Some(u),
        None => datalet_guid_urn_spec(page_serialized(html)),
    }
}

/// Reads the member's URN from a profile page in the InMail flow.
pub fn find_entity_urn(html: &str) -> (r: Option<String>)
    ensures
        opt_view(r) == inmail_entity_urn_spec(html@),
{
    let hrefs = match select_attrs(html, "a", "href") {
        Some(v) => v,
        None => Vec::new(),
    };
    assert(hrefs.deep_view() =~= opt_views(hrefs@));
    assert(opt_views(hrefs@) =~= matches_or_none(page_attrs(html@, "a"@, "href"@)));
    match urn_from_inmail_links(&hrefs) {
        Some(u) => Some(u),
        None => {
            let page = serialize_page(html);
            print_elements_with_datalet_in_id(page.as_str())
        },
    }
}

} // verus!
