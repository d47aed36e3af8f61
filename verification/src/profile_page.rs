//! The fields of a LinkedIn profile page: name, title, location, about,
//! picture, member id, and the profile's entity URN.
use vstd::prelude::*;
use vstd::string::*;
use crate::dom::{
    first_attr, first_attr_value, first_html, first_html_piece, first_joined, first_joined_text,
    fragment_attrs, last_joined, last_joined_text, page_attrs, page_outer_html, page_texts,
    select_attrs, select_fragment_attrs, select_outer_html, select_texts, string_views,
};
use crate::experience_page::{trim_opt, trimmed};
use crate::misc::opt_view;
use crate::names::{name_tuple_from_full_name, remove_prefix_from, split_name_spec};
use crate::text::{chars_of, contains, contains_chars};
use crate::urls::{
    extract_urn_from_element_html, extract_urn_from_href, strip_urn_prefixes,
    strip_urn_prefixes_spec, urn_from_element_spec, urn_from_href_spec,
};

verus! {

/// The profile's location: the text of the last location span, its text
/// nodes joined by spaces, trimmed (empty when there is none).
pub open spec fn location_spec(html: Seq<char>) -> Option<Seq<char>> {
    trimmed(
        last_joined(
            page_texts(html, "span[class='text-body-small inline t-black--light break-words']"@),
            seq![' '],
        ),
    )
}

/// Reads the profile's location.
pub fn get_location(html: &str) -> (r: Option<String>)
    ensures
        opt_view(r) == location_spec(html@),
{
    proof {
        reveal_strlit(" ");
        assert(" "@ =~= seq![' ']);
    }
    trim_opt(
        last_joined_text(
            &select_texts(html, "span[class='text-body-small inline t-black--light break-words']"),
            " ",
        ),
    )
}

/// The profile's headline: the text of the last headline block, its text
/// nodes joined by spaces, trimmed (empty when there is none).
pub open spec fn title_spec(html: Seq<char>) -> Option<Seq<char>> {
    trimmed(last_joined(page_texts(html, "div[class='text-body-medium break-words']"@), seq![' ']))
}

/// Reads the profile's headline.
pub fn get_title(html: &str) -> (r: Option<String>)
    ensures
        opt_view(r) == title_spec(html@),
{
    proof {
        reveal_strlit(" ");
        assert(" "@ =~= seq![' ']);
    }
    trim_opt(last_joined_text(&select_texts(html, "div[class='text-body-medium break-words']"), " "))
}

/// The name shown on the profile: the text of the last name heading, its
/// text nodes joined by spaces (empty when there is none).
pub open spec fn full_name_spec(html: Seq<char>) -> Option<Seq<char>> {
    last_joined(
        page_texts(html, "h1[class='text-heading-xlarge inline t-24 v-align-middle break-words']"@),
        seq![' '],
    )
}

/// Reads the name shown on the profile.
pub fn scrap_full_name(html: &str) -> (r: Option<String>)
    ensures
        opt_view(r) == full_name_spec(html@),
{
    proof {
        reveal_strlit(" ");
        assert(" "@ =~= seq![' ']);
    }
    last_joined_text(
        &select_texts(html, "h1[class='text-heading-xlarge inline t-24 v-align-middle break-words']"),
        " ",
    )
}

/// The first and last name of the profile: the shown name without a
/// leading title, split after its first word.
pub open spec fn name_tuple_spec(html: Seq<char>) -> Option<(Seq<char>, Seq<char>)> {
    match full_name_spec(html) {
        Some(n) => Some(split_name_spec(remove_prefix_from(n, 0))),
        None => None,
    }
}

/// Reads the first and last name of the profile.
pub fn get_name_tuple(html: &str) -> (r: Option<(String, String)>)
    ensures
        match r {
            Some(p) => name_tuple_spec(html@) == Some((p.0@, p.1@)),
            None => name_tuple_spec(html@) is None,
        },
{
    match scrap_full_name(html) {
        Some(name) => name_tuple_from_full_name(name.as_str()),
        None => None,
    }
}

/// The profile's about text: in the first about block, the text of its
/// first visible span.
pub open spec fn about_spec(html: Seq<char>) -> Option<Seq<char>> {
    match first_html(page_outer_html(html, "div[class='display-flex ph5 pv3']"@)) {
        Some(block) => first_joined(page_texts(block, "span[aria-hidden=true]"@), seq![]),
        None => None,
    }
}

/// Reads the profile's about text.
pub fn get_about(html: &str) -> (r: Option<String>)
    ensures
        opt_view(r) == about_spec(html@),
{
    proof {
        reveal_strlit("");
        assert(""@ =~= Seq::<char>::empty());
    }
    match first_html_piece(&select_outer_html(html, "div[class='display-flex ph5 pv3']")) {
        Some(block) => first_joined_text(&select_texts(block.as_str(), "span[aria-hidden=true]"), ""),
        None => None,
    }
}

/// The profile picture: the source of the first image in the photo button.
pub open spec fn picture_spec(html: Seq<char>) -> Option<Seq<char>> {
    first_attr(
        fragment_attrs(html, "div.pv-top-card__non-self-photo-wrapper button img"@, "src"@),
    )
}

/// Reads the profile picture's address.
pub fn get_profile_picture(html: &str) -> (r: Option<String>)
    ensures
        opt_view(r) == picture_spec(html@),
{
    first_attr_value(
        &select_fragment_attrs(html, "div.pv-top-card__non-self-photo-wrapper button img", "src"),
    )
}

/// The member id of the profile's card.
pub open spec fn main_id_spec(html: Seq<char>) -> Option<Seq<char>> {
    first_attr(page_attrs(html, "section.artdeco-card[data-member-id]"@, "data-member-id"@))
}

/// Reads the member id of the profile's card.
pub fn get_linkedin_main_id(html: &str) -> (r: Option<String>)
    ensures
        opt_view(r) == main_id_spec(html@),
{
    first_attr_value(&select_attrs(html, "section.artdeco-card[data-member-id]", "data-member-id"))
}

/// Among the elements with an id, from the `i`-th on, the first whose id
/// holds `datalet` and whose HTML holds the profile API's path and a URN.
pub open spec fn urn_from_datalets(ids: Seq<Option<Seq<char>>>, htmls: Seq<Seq<char>>, i: int) -> Option<Seq<char>>
    decreases ids.len() - i,
{
    if i < 0 || i >= ids.len() || i >= htmls.len() {
        None
    } else if ids[i] matches Some(id) && contains(id, "datalet"@) && contains(
        htmls[i],
        "/voyager/api/identity/dash/profile"@,
    ) && urn_from_element_spec(htmls[i]) is Some {
        urn_from_element_spec(htmls[i])
    } else {
        urn_from_datalets(ids, htmls, i + 1)
    }
}

/// The URN in the page data of the elements with an id: the two queries
/// run the same selector over the same page and are read side by side.
pub open spec fn datalet_urn_spec(html: Seq<char>) -> Option<Seq<char>> {
    match (page_attrs(html, "[id]"@, "id"@), page_outer_html(html, "[id]"@)) {
        (Some(ids), Some(htmls)) => urn_from_datalets(ids, htmls, 0),
        _ => None,
    }
}

/// The URN in the page data of the elements with an id, from the ids and
/// HTML of those elements.
pub fn urn_from_datalet_elements(ids: &Vec<Option<String>>, htmls: &Vec<String>) -> (r: Option<String>)
    ensures
        opt_view(r) == urn_from_datalets(ids.deep_view(), htmls.deep_view(), 0),
{
    let ghost iv = ids.deep_view();
    let ghost hv = htmls.deep_view();
    let datalet = chars_of("datalet");
    let api = chars_of("/voyager/api/identity/dash/profile");
    let mut i: usize = 0;
    while i < ids.len() && i < htmls.len()
        invariant
            iv == ids.deep_view(),
            hv == htmls.deep_view(),
            iv.len() == ids.len(),
            hv.len() == htmls.len(),
            datalet@ == "datalet"@,
            api@ == "/voyager/api/identity/dash/profile"@,
            urn_from_datalets(iv, hv, 0) == urn_from_datalets(iv, hv, i as int),
        decreases ids.len() - i,
    {
        assert(htmls@[i as int]@ == hv[i as int]);
        let id_ok = match &ids[i] {
            Some(id) => {
                let ic = chars_of(id.as_str());
                contains_chars(ic.as_slice(), datalet.as_slice())
            },
            None => false,
        };
        if id_ok {
            let hc = chars_of(htmls[i].as_str());
            if contains_chars(hc.as_slice(), api.as_slice()) {
                let found = extract_urn_from_element_html(htmls[i].as_str());
                if found.is_some() {
                    return found;
                }
            }
        }
        i = i + 1;
    }
    None
}

/// Reads the profile's URN from the page data of the elements with an id.
pub fn get_entity_urn_from_id_attribute(html: &str) -> (r: Option<String>)
    ensures
        opt_view(r) == datalet_urn_spec(html@),
{
    let ids = select_attrs(html, "[id]", "id");
    let htmls = select_outer_html(html, "[id]");
    match (ids, htmls) {
        (Some(i), Some(h)) => urn_from_datalet_elements(&i, &h),
        _ => None,
    }
}

/// The URN of the first link, from the `i`-th on, whose address carries
/// one, its URN prefixes removed.
pub open spec fn urn_from_hrefs(hrefs: Seq<Option<Seq<char>>>, i: int) -> Option<Seq<char>>
    decreases hrefs.len() - i,
{
    if i < 0 || i >= hrefs.len() {
        None
    } else if hrefs[i] is Some && urn_from_href_spec(hrefs[i]->0) is Some {
        Some(strip_urn_prefixes_spec(urn_from_href_spec(hrefs[i]->0)->0))
    } else {
        urn_from_hrefs(hrefs, i + 1)
    }
}

/// The profile's entity URN: the one that the first link carrying a
/// `profileUrn` gives, else the one in the page data.
pub open spec fn entity_urn_spec(html: Seq<char>) -> Option<Seq<char>> {
    match page_attrs(html, "a"@, "href"@) {
        Some(hrefs) if urn_from_hrefs(hrefs, 0) is Some => urn_from_hrefs(hrefs, 0),
        _ => datalet_urn_spec(html),
    }
}

/// The URN of the first link whose address carries one.
pub fn urn_from_links(hrefs: &Vec<Option<String>>) -> (r: Option<String>)
    ensures
        opt_view(r) == urn_from_hrefs(hrefs.deep_view(), 0),
{
    let ghost hv = hrefs.deep_view();
    let mut i: usize = 0;
    while i < hrefs.len()
        invariant
            hv == hrefs.deep_view(),
            hv.len() == hrefs.len(),
            urn_from_hrefs(hv, 0) == urn_from_hrefs(hv, i as int),
        decreases hrefs.len() - i,
    {
        if let Some(href) = &hrefs[i] {
            if let Some(urn) = extract_urn_from_href(href.as_str()) {
                return Some(strip_urn_prefixes(urn.as_str()));
            }
        }
        i = i + 1;
    }
    None
}

/// Reads the profile's entity URN from its page.
pub fn find_entity_urn(html: &str) -> (r: Option<String>)
    ensures
        opt_view(r) == entity_urn_spec(html@),
{
    let hrefs = select_attrs(html, "a", "href");
    let from_links = match &hrefs {
        Some(h) => urn_from_links(h),
        None => None,
    };
    if from_links.is_some() {
        return from_links;
    }
    get_entity_urn_from_id_attribute(html)
}

} // verus!
