//! The education section of a LinkedIn profile as the profile page shows
//! it: the section is found among the page's cards, and each entry's id is
//! read from its school's link.
use vstd::prelude::*;
use vstd::string::*;
use crate::dom::{
    first_attr, first_attr_value, fragment_attrs, matches_or_none, page_outer_html, page_texts,
    select_fragment_attrs, select_outer_html, select_texts, string_views,
};
use crate::education_page::{education_entry, read_education_entry};
use crate::misc::opt_view;
use crate::profile::Education;
use crate::text::{chars_of, contains, contains_chars, replace, replace_chars, string_from_chars};

verus! {

/// The id of an entry's school in its link: the link without the company
/// pages' prefix and without slashes; none for a link to search results or
/// without a link.
pub open spec fn school_id_spec(li: Seq<char>) -> Option<Seq<char>> {
    match first_attr(
        fragment_attrs(li, "a.optional-action-target-wrapper.display-flex[href]"@, "href"@),
    ) {
        Some(u) => if contains(u, "search/results"@) {
            None
        } else {
            Some(replace(replace(u, "https://www.linkedin.com/company/"@, seq![]), seq!['/'], seq![]))
        },
        None => None,
    }
}

/// Reads the id of an entry's school from its link.
pub fn extract_id(li: &str) -> (r: Option<String>)
    ensures
        opt_view(r) == school_id_spec(li@),
{
    let url = first_attr_value(
        &select_fragment_attrs(li, "a.optional-action-target-wrapper.display-flex[href]", "href"),
    );
    let url_link = match url {
        Some(u) => u,
        None => {
            return None;
        },
    };
    let uc = chars_of(url_link.as_str());
    let search = chars_of("search/results");
    if contains_chars(uc.as_slice(), search.as_slice()) {
        None
    } else {
        let prefix = chars_of("https://www.linkedin.com/company/");
        proof {
            reveal_strlit("https://www.linkedin.com/company/");
        }
        let empty: Vec<char> = Vec::new();
        let slash = vec!['/'];
        let a = replace_chars(uc.as_slice(), prefix.as_slice(), empty.as_slice());
        let b = replace_chars(a.as_slice(), slash.as_slice(), empty.as_slice());
        assert(empty@ =~= seq![]);
        assert(slash@ =~= seq!['/']);
        Some(string_from_chars(b.as_slice()))
    }
}

/// The sections of the profile, from the `i`-th on: the first that holds the
/// education anchor.
pub open spec fn education_section_from(sections: Seq<Seq<char>>, i: int) -> Option<Seq<char>>
    decreases sections.len() - i,
{
    if i < 0 || i >= sections.len() {
        None
    } else if page_texts(sections[i], "div#education.pv-profile-card__anchor"@) matches Some(m)
        && m.len() > 0 {
        Some(sections[i])
    } else {
        education_section_from(sections, i + 1)
    }
}

/// The HTML of the profile's education section.
pub open spec fn education_section_spec(html: Seq<char>) -> Option<Seq<char>> {
    education_section_from(
        matches_or_none(page_outer_html(html, "section.artdeco-card.pv-profile-card.break-words"@)),
        0,
    )
}

/// Finds the profile's education section: the first card section that
/// holds the education anchor.
pub fn find_education(html: &str) -> (r: Option<String>)
    ensures
        opt_view(r) == education_section_spec(html@),
{
    let sections = match select_outer_html(html, "section.artdeco-card.pv-profile-card.break-words") {
        Some(v) => v,
        None => Vec::new(),
    };
    let ghost sv = matches_or_none(
        page_outer_html(html@, "section.artdeco-card.pv-profile-card.break-words"@),
    );
    assert(string_views(sections@) =~= sv);
    let mut i: usize = 0;
    while i < sections.len()
        invariant
            string_views(sections@) == sv,
            sv == matches_or_none(
                page_outer_html(html@, "section.artdeco-card.pv-profile-card.break-words"@),
            ),
            sv.len() == sections.len(),
            education_section_from(sv, 0) == education_section_from(sv, i as int),
        decreases sections.len() - i,
    {
        assert(sections@[i as int]@ == sv[i as int]);
        let anchor = select_texts(sections[i].as_str(), "div#education.pv-profile-card__anchor");
        let found = match &anchor {
            Some(m) => m.len() > 0,
            None => false,
        };
        if found {
            let section = sections[i].clone();
            assert(section@ == sv[i as int]);
            return Some(section);
        }
        i = i + 1;
    }
    None
}

/// The entries of the profile's education section.
pub open spec fn section_items(html: Seq<char>) -> Seq<Seq<char>> {
    match education_section_spec(html) {
        Some(section) => matches_or_none(page_outer_html(section, "li.artdeco-list__item"@)),
        None => seq![],
    }
}

/// Reads every entry of the profile's education section, each with the id
/// of its school's link and with the dates of its period; nothing without
/// an education section.
pub fn parse_education(html: &str) -> (r: Vec<Education>)
    ensures
        r@.len() == section_items(html@).len(),
        forall|k: int|
            0 <= k < r@.len() ==> #[trigger] education_entry(
                r@[k],
                section_items(html@)[k],
                school_id_spec(section_items(html@)[k]),
                true,
            ),
{
    let section = match find_education(html) {
        Some(s) => s,
        None => {
            return Vec::new();
        },
    };
    let items = match select_outer_html(section.as_str(), "li.artdeco-list__item") {
        Some(v) => v,
        None => Vec::new(),
    };
    let ghost iv = section_items(html@);
    assert(string_views(items@) =~= iv);
    let mut educations: Vec<Education> = Vec::new();
    let mut i: usize = 0;
    while i < items.len()
        invariant
            string_views(items@) == iv,
            iv.len() == items.len(),
            iv == section_items(html@),
            i <= items.len(),
            educations@.len() == i,
            forall|k: int|
                0 <= k < i ==> #[trigger] education_entry(educations@[k], iv[k], school_id_spec(iv[k]), true),
        decreases items.len() - i,
    {
        let li = items[i].as_str();
        assert(li@ == iv[i as int]);
        let id = extract_id(li);
        let e = read_education_entry(li, id, true);
        educations.push(e);
        i = i + 1;
    }
    educations
}

} // verus!
