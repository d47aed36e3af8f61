//! Education entries read from the education page of a LinkedIn profile.
use vstd::prelude::*;
use vstd::string::*;
use crate::dom::{
    first_attr_value, first_joined, first_joined_text, matches_or_none, page_attrs,
    page_outer_html, page_texts, select_attrs, select_outer_html, select_texts, string_views,
};
use crate::experience_page::{logo_of, period_bounds, period_bounds_of, trim_opt, trimmed};
use crate::misc::{comma_delimiter, opt_view, split_around_comma, split_around_spec};
use crate::profile::Education;

verus! {

/// The school of an entry, trimmed.
pub open spec fn school_of(li: Seq<char>) -> Option<Seq<char>> {
    trimmed(
        first_joined(
            page_texts(li, "div[class='display-flex flex-wrap align-items-center full-height']"@),
            seq![],
        ),
    )
}

/// The degree caption of an entry: degree and field of study.
pub open spec fn degree_caption(li: Seq<char>) -> Option<Seq<char>> {
    first_joined(page_texts(li, "span.t-14.t-normal > span:nth-of-type(1)"@), seq![])
}

/// A caption's parts around the first `", "`.
pub open spec fn around_comma(o: Option<Seq<char>>) -> (Option<Seq<char>>, Option<Seq<char>>) {
    match o {
        Some(n) => split_around_spec(n, comma_delimiter()),
        None => (None, None),
    }
}

/// The period caption of an education entry.
pub open spec fn education_period(li: Seq<char>) -> Option<Seq<char>> {
    first_joined(page_texts(li, "span.t-14.t-normal.t-black--light > span:nth-of-type(1)"@), seq![])
}

/// The education entry read from the HTML `li` of an entry, with the given
/// id; its dates are read when `dated`, else left out.
pub open spec fn education_entry(e: Education, li: Seq<char>, id: Option<Seq<char>>, dated: bool) -> bool {
    &&& opt_view(e.id) == id
    &&& opt_view(e.schoolName) == school_of(li)
    &&& opt_view(e.logoUrl) == logo_of(li)
    &&& opt_view(e.degreeName) == around_comma(degree_caption(li)).0
    &&& opt_view(e.fieldOfStudy) == around_comma(degree_caption(li)).1
    &&& opt_view(e.periodText) == education_period(li)
    &&& (e.startDate, e.endDate) == if dated {
        period_bounds(education_period(li))
    } else {
        (None, None)
    }
    &&& opt_view(e.description) == Some(Seq::<char>::empty())
}

/// Reads an education entry from its HTML, with the given id.
pub fn read_education_entry(li: &str, id: Option<String>, dated: bool) -> (r: Education)
    ensures
        education_entry(r, li@, opt_view(id), dated),
{
    proof {
        reveal_strlit("");
        assert(""@ =~= Seq::<char>::empty());
    }
    let school_name = trim_opt(
        first_joined_text(
            &select_texts(li, "div[class='display-flex flex-wrap align-items-center full-height']"),
            "",
        ),
    );
    let logo_url = first_attr_value(&select_attrs(li, "img", "src"));
    let degree = first_joined_text(&select_texts(li, "span.t-14.t-normal > span:nth-of-type(1)"), "");
    let (degree_name, field_of_study) = match &degree {
        Some(name) => split_around_comma(name.as_str()),
        None => (None, None),
    };
    let period_text = first_joined_text(
        &select_texts(li, "span.t-14.t-normal.t-black--light > span:nth-of-type(1)"),
        "",
    );
    let (start_date, end_date) = if dated {
        period_bounds_of(&period_text)
    } else {
        (None, None)
    };
    Education {
        id,
        schoolName: school_name,
        logoUrl: logo_url,
        degreeName: degree_name,
        fieldOfStudy: field_of_study,
        periodText: period_text,
        startDate: start_date,
        endDate: end_date,
        description: Some(String::new()),
    }
}

/// The entries of the education page: their ids and their HTML, read by two
/// queries of the same selector side by side.
pub open spec fn education_list(html: Seq<char>) -> (Seq<Option<Seq<char>>>, Seq<Seq<char>>) {
    (
        matches_or_none(page_attrs(html, "li.pvs-list__paged-list-item"@, "id"@)),
        matches_or_none(page_outer_html(html, "li.pvs-list__paged-list-item"@)),
    )
}

/// The number of entries that both queries give.
pub open spec fn paired_len(l: (Seq<Option<Seq<char>>>, Seq<Seq<char>>)) -> int {
    if l.0.len() < l.1.len() {
        l.0.len() as int
    } else {
        l.1.len() as int
    }
}

/// Reads every entry of the education page, one per list item, in order,
/// each with its own id, without dates.
pub fn parse_education(html: &str) -> (r: Vec<Education>)
    ensures
        r@.len() == paired_len(education_list(html@)),
        r@.len() == education_list(html@).1.len(),
        forall|k: int|
            0 <= k < r@.len() ==> #[trigger] education_entry(
                r@[k],
                education_list(html@).1[k],
                education_list(html@).0[k],
                false,
            ),
{
    let ids = match select_attrs(html, "li.pvs-list__paged-list-item", "id") {
        Some(v) => v,
        None => Vec::new(),
    };
    let items = match select_outer_html(html, "li.pvs-list__paged-list-item") {
        Some(v) => v,
        None => Vec::new(),
    };
    let ghost l = education_list(html@);
    assert(ids.deep_view() =~= l.0);
    assert(string_views(items@) =~= l.1);
    assert(l.0.len() == l.1.len()) by {
        if page_outer_html(html@, "li.pvs-list__paged-list-item"@) is Some {
            assert(page_attrs(html@, "li.pvs-list__paged-list-item"@, "id"@) is Some);
        }
    }
    let mut educations: Vec<Education> = Vec::new();
    let mut i: usize = 0;
    while i < ids.len() && i < items.len()
        invariant
            l == education_list(html@),
            ids.deep_view() == l.0,
            string_views(items@) == l.1,
            l.0.len() == ids.len(),
            l.1.len() == items.len(),
            educations@.len() == i,
            i <= ids.len(),
            i <= items.len(),
            forall|k: int| 0 <= k < i ==> #[trigger] education_entry(educations@[k], l.1[k], l.0[k], false),
        decreases items.len() - i,
    {
        let id = match &ids[i] {
            Some(s) => Some(s.clone()),
            None => None,
        };
        assert(opt_view(id) == l.0[i as int]);
        assert(items@[i as int]@ == l.1[i as int]);
        let e = read_education_entry(items[i].as_str(), id, false);
        educations.push(e);
        i = i + 1;
    }
    educations
}

/// An education entry read without dates has none, an empty description
/// and the item's id, and its degree caption split at the first `", "`
/// gives its degree and field of study.
pub proof fn law_undated_education_entry(e: Education, li: Seq<char>, id: Option<Seq<char>>)
    requires
        education_entry(e, li, id, false),
    ensures
        e.startDate is None,
        e.endDate is None,
        opt_view(e.description) == Some(Seq::<char>::empty()),
        opt_view(e.id) == id,
        (opt_view(e.degreeName), opt_view(e.fieldOfStudy)) == match degree_caption(li) {
            Some(c) => split_around_spec(c, comma_delimiter()),
            None => (None, None),
        },
{
}

} // verus!
