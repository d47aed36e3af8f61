//! The profile record assembled from a member's profile page: every field
//! that the page shows, with the search that the profile came from. The
//! experience is read from its own page and added afterwards.
use vstd::prelude::*;
use crate::education_page::education_entry;
use crate::education_section::{parse_education, school_id_spec, section_items};
use crate::misc::opt_view;
use crate::profile::{experience_record, Experience, Profile};
use crate::profile_page::{
    about_spec, entity_urn_spec, find_entity_urn, get_about, get_linkedin_main_id, get_location,
    get_name_tuple, get_profile_picture, get_title, location_spec, main_id_spec, name_tuple_spec,
    picture_spec, title_spec,
};
use crate::urls::{get_linkedin_nick, nick_spec};

verus! {

/// The first (`first`) or last name that the page shows.
pub open spec fn name_part(html: Seq<char>, first: bool) -> Option<Seq<char>> {
    match name_tuple_spec(html) {
        Some(p) => Some(if first { p.0 } else { p.1 }),
        None => None,
    }
}

/// `p` is the profile record of the page `html` found at `linkedin_url`,
/// for the search's `job`, `sourcer` and `search_url`, under the id
/// `url_id`: every field the page shows, the connection level 5, and
/// company, experience and origin empty.
pub open spec fn page_record(
    p: Profile,
    html: Seq<char>,
    linkedin_url: String,
    job: Option<String>,
    sourcer: Option<String>,
    search_url: Option<String>,
    url_id: String,
) -> bool {
    &&& p.AI
    &&& opt_view(p.linkedin) == Some(linkedin_url@)
    &&& opt_view(p.first) == name_part(html, true)
    &&& opt_view(p.last) == name_part(html, false)
    &&& p.email is None
    &&& p.job == job
    &&& p.sourcer == sourcer
    &&& opt_view(p.title) == title_spec(html)
    &&& opt_view(p.linkedin_unique) == nick_spec(linkedin_url@)
    &&& opt_view(p.linkedin_unique_number) == main_id_spec(html)
    &&& p.connectionLevel == Some(5i32)
    &&& p.company is None
    &&& p.company_unique is None
    &&& opt_view(p.about) == about_spec(html)
    &&& opt_view(p.profilePicture) == picture_spec(html)
    &&& p.education@.len() == section_items(html).len()
    &&& forall|k: int|
        0 <= k < p.education@.len() ==> #[trigger] education_entry(
            p.education@[k],
            section_items(html)[k],
            school_id_spec(section_items(html)[k]),
            true,
        )
    &&& p.experience@.len() == 0
    &&& p.viewedIn is None
    &&& opt_view(p.location) == location_spec(html)
    &&& opt_view(p.entityUrn) == entity_urn_spec(html)
    &&& p.extension_version is None
    &&& p.timestamp is None
    &&& p.search_url == search_url
    &&& p.profile_url_id == url_id
}

/// The profile record of the page `html` found at `linkedin_url`, for the
/// search's `job`, `sourcer` and `search_url`, under the id `url_id` of the
/// address in its batch. The connection level is recorded as 5; company,
/// experience and the record's origin are left empty.
pub fn profile_from_page(
    html: &str,
    linkedin_url: String,
    job: Option<String>,
    sourcer: Option<String>,
    search_url: Option<String>,
    url_id: String,
) -> (r: Profile)
    ensures
        page_record(r, html@, linkedin_url, job, sourcer, search_url, url_id),
{
    let names = get_name_tuple(html);
    let (first, last) = match names {
        Some(p) => (Some(p.0), Some(p.1)),
        None => (None, None),
    };
    let nick = get_linkedin_nick(Some(linkedin_url.clone()));
    Profile {
        AI: true,
        linkedin: Some(linkedin_url),
        first,
        last,
        email: None,
        job,
        sourcer,
        title: get_title(html),
        linkedin_unique: nick,
        linkedin_unique_number: get_linkedin_main_id(html),
        connectionLevel: Some(5),
        company: None,
        company_unique: None,
        about: get_about(html),
        profilePicture: get_profile_picture(html),
        education: parse_education(html),
        experience: Vec::new(),
        viewedIn: None,
        location: get_location(html),
        entityUrn: find_entity_urn(html),
        extension_version: None,
        timestamp: None,
        search_url,
        profile_url_id: url_id,
    }
}

/// The record sent for a scraped profile, the page's record with the
/// experience read from its own page, is marked as analysed, has the
/// connection level 5, no email, the request's job, sourcer and search
/// address and the id of its address; its company is the first entry's
/// and every field the page shows stays.
pub proof fn law_scraped_record_keeps_the_request(
    p: Profile,
    html: Seq<char>,
    linkedin_url: String,
    job: Option<String>,
    sourcer: Option<String>,
    search_url: Option<String>,
    url_id: String,
    experience: Vec<Experience>,
)
    requires
        page_record(p, html, linkedin_url, job, sourcer, search_url, url_id),
    ensures
        ({
            let r = experience_record(p, experience);
            &&& r.AI
            &&& r.connectionLevel == Some(5i32)
            &&& r.email is None
            &&& r.job == job
            &&& r.sourcer == sourcer
            &&& r.search_url == search_url
            &&& r.profile_url_id == url_id
            &&& r.experience == experience
            &&& experience@.len() > 0 ==> r.company == experience@[0].companyName
                && r.company_unique == experience@[0].companyId
            &&& r.linkedin == p.linkedin && r.first == p.first && r.last == p.last
                && r.title == p.title && r.education == p.education && r.location == p.location
                && r.entityUrn == p.entityUrn && r.about == p.about
        }),
{
}

} // verus!
