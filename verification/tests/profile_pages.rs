use web_crawler::education_page::parse_education;
use web_crawler::education_section::{extract_id, find_education, parse_education as parse_section};
use web_crawler::experience_page::{
    company_id_from_url, parse_each_experience, parse_each_experience_type_one, parse_listed_experience,
    parse_each_experience_type_two, parse_experience, parse_partial,
};
use web_crawler::profile::Experience;
use web_crawler::profile_page::{
    find_entity_urn, get_about, get_entity_urn_from_id_attribute, get_linkedin_main_id,
    get_location, get_name_tuple, get_profile_picture, get_title, scrap_full_name,
};

const SINGLE: &str = r#"<li class="artdeco-list__item">
<div><div><div><div><div><span class="t-14"><span>Acme Corp · Full-time</span></span></div></div></div></div></div>
<div class="t-bold"><span>Software Engineer</span></div>
<span class="t-14 t-normal">Acme Corp · Full-time · Remote</span>
<span class="t-14 t-normal t-black--light"><span>Jan 2020 - Mar 2021</span></span>
<span class="t-14 t-normal t-black--light"><span>Berlin, Germany</span></span>
<span class="pvs-entity__caption-wrapper">Jan 2020 - Mar 2021 · 1 yr 3 mos</span>
<div class="display-flex full-width"><div class="display-flex align-items-center t-14 t-normal t-black"><span> Built things </span></div></div>
<a class="optional-action-target-wrapper" href="https://www.linkedin.com/company/1234/"><img src="logo.png"></a>
<div class="display-flex t-14 t-normal t-black"><span>Skills: Rust · Go</span></div>
</li>"#;

const GROUPED: &str = r#"<li class="artdeco-list__item">
<a class="optional-action-target-wrapper" href="https://www.linkedin.com/company/globex/"><img src="globex.png"></a>
<div class="display-flex"><div class="hoverable-link-text t-bold"><span>Globex</span></div></div>
<span class="t-14 t-normal"><span>Full-time · 4 yrs</span></span>
<div><div><div><div><ul><li><div><div><div><ul>
<li><div class="t-bold"><span>Lead</span></div><span class="t-14 t-normal t-black--light"><span>Feb 2021 - Present · 3 yrs</span></span><div class="display-flex align-items-center t-14 t-normal t-black"><span>Led team</span></div><ul><li class="pvs-list__item--with-top-padding"><div class="display-flex"><div class="display-flex align-items-center t-14 t-normal t-black">Skills: Rust · Leadership</div></div></li></ul></li>
<li><div class="t-bold"><span>Engineer</span></div></li>
</ul></div></div></div></li></ul></div></div></div></div>
</li>"#;

fn list_markup(items: &str) -> String {
    format!(
        r#"<div id="profile-content"><div><div class="scaffold-layout"><div class="scaffold-layout__inner"><div><main><section><div class="pvs-list__container"><div><div><ul>{}</ul></div></div></div></section></main></div></div></div></div></div>"#,
        items
    )
}

fn page_with(items: &str) -> String {
    format!("<html><body>{}</body></html>", list_markup(items))
}

fn experience_page() -> String {
    page_with(&format!("{}{}", SINGLE, GROUPED))
}

fn skills(e: &Experience) -> Vec<(i8, String)> {
    e.skills.iter().map(|s| (s.order, s.skill.clone().unwrap())).collect()
}

fn check_single(e: &Experience) {
    assert_eq!(e.companyName.as_deref(), Some("Acme Corp"));
    assert_eq!(e.companyLetter.as_deref(), Some("Acme Corp"));
    assert_eq!(e.position.as_deref(), Some("Software Engineer"));
    assert_eq!(e.employmentType.as_deref(), Some("Remote"));
    assert_eq!(e.location.as_deref(), Some("Berlin, Germany"));
    assert_eq!(e.periodText.as_deref(), Some("Jan 2020 - Mar 2021"));
    assert_eq!(e.duration.as_deref(), Some("1 yr 3 mos"));
    assert_eq!(e.startDate, Some(1577836800));
    assert_eq!(e.endDate, Some(1614556800));
    assert_eq!(e.description.as_deref(), Some("Built things"));
    assert_eq!(e.companyURL.as_deref(), Some("https://www.linkedin.com/company/1234/"));
    assert_eq!(e.companyId.as_deref(), Some("1234"));
    assert_eq!(e.logo.as_deref(), Some("logo.png"));
    assert_eq!(skills(e), vec![(1, "Skills: Rust".to_string()), (2, "Go".to_string())]);
}

#[test]
fn single_position_entry_is_read() {
    check_single(&parse_each_experience_type_one(&experience_page(), 0));
}

#[test]
fn grouped_company_is_read() {
    let p = parse_partial(&experience_page(), 1);
    assert_eq!(p.companyName.as_deref(), Some("Globex"));
    assert_eq!(p.employmentType.as_deref(), Some("Full-time"));
    assert_eq!(p.companyURL.as_deref(), Some("https://www.linkedin.com/company/globex/"));
    assert_eq!(p.companyId.as_deref(), Some("globex"));
    assert_eq!(p.logo.as_deref(), Some("globex.png"));
}

#[test]
fn grouped_position_is_read() {
    let p = parse_partial(&experience_page(), 1);
    let html = r#"<div class="t-bold"><span>Lead</span></div><span class="t-14 t-normal t-black--light"><span>Feb 2021 - Present · 3 yrs</span></span><div class="display-flex align-items-center t-14 t-normal t-black"><span>Led team</span></div><ul><li class="pvs-list__item--with-top-padding"><div class="display-flex"><div class="display-flex align-items-center t-14 t-normal t-black">Skills: Rust · Leadership</div></div></li></ul>"#;
    let e = parse_each_experience_type_two(html, &p);
    assert_eq!(e.companyName.as_deref(), Some("Globex"));
    assert_eq!(e.position.as_deref(), Some("Lead"));
    assert_eq!(e.employmentType.as_deref(), Some("Full-time"));
    assert_eq!(e.periodText.as_deref(), Some("Feb 2021 - Present"));
    assert_eq!(e.duration.as_deref(), Some("3 yrs"));
    assert_eq!(e.startDate, Some(1612137600));
    assert_eq!(e.endDate, None);
    assert_eq!(e.description.as_deref(), Some("Led team"));
    assert_eq!(e.location, None);
    assert_eq!(skills(&e), vec![(1, "Rust".to_string()), (2, "Leadership".to_string())]);
}

#[test]
fn experience_page_lists_every_position() {
    let v = parse_experience(&experience_page()).unwrap();
    assert_eq!(v.len(), 3);
    check_single(&v[0]);
    assert_eq!(v[1].position.as_deref(), Some("Lead"));
    assert_eq!(v[1].companyId.as_deref(), Some("globex"));
    assert_eq!(v[2].position.as_deref(), Some("Engineer"));
    assert_eq!(v[2].companyName.as_deref(), Some("Globex"));
    assert_eq!(v[2].periodText, None);
    assert_eq!((v[2].startDate, v[2].endDate), (None, None));
    assert!(v[2].skills.is_empty());
}

#[test]
fn entry_is_read_where_it_stands_in_the_page() {
    let item = r#"<li><div class="hoverable-link-text t-bold"><span>Initech</span></div></li>"#;
    let page = format!(
        r#"<html><body><div class="display-flex">{}</div></body></html>"#,
        list_markup(item)
    );
    assert_eq!(parse_partial(&page, 0).companyName.as_deref(), Some("Initech"));
    assert_eq!(parse_partial(&page_with(item), 0).companyName, None);
}

#[test]
fn experience_list_skips_children_that_are_not_items() {
    let page = page_with(&format!("<div>note</div>{}", SINGLE));
    let v = parse_experience(&page).unwrap();
    assert_eq!(v.len(), 1);
    check_single(&v[0]);
}

#[test]
fn experience_page_without_list_is_empty() {
    assert_eq!(parse_experience("<html><body><p>nothing</p></body></html>").unwrap().len(), 0);
}

#[test]
fn too_many_skills_are_refused() {
    let many: Vec<String> = (0..130).map(|i| format!("s{}", i)).collect();
    let li = format!(
        r#"<li><div class="display-flex t-14 t-normal t-black"><span>{}</span></div></li>"#,
        many.join(" · ")
    );
    let page = format!(
        r#"<div id="profile-content"><div><div class="scaffold-layout"><div class="scaffold-layout__inner"><div><main><section><div class="pvs-list__container"><div><div><ul>{}</ul></div></div></div></section></main></div></div></div></div></div>"#,
        li
    );
    assert!(parse_experience(&page).is_none());
}

#[test]
fn company_id_of_search_link_is_none() {
    assert_eq!(
        company_id_from_url(&Some("https://www.linkedin.com/search/results/all/?q=x".to_string())),
        None
    );
    assert_eq!(
        company_id_from_url(&Some("https://www.linkedin.com/company/a/b/".to_string())),
        Some("ab".to_string())
    );
}

#[test]
fn listed_experience_entries_are_read() {
    let html = r#"<ul><li class="pvs-list__paged-list-item"><a class="optional-action-target-wrapper" href="https://x.com/company/777/"><img src="l.png"></a><div class="t-bold"><span>Analyst</span></div><span class="t-14 t-normal">Initech · Part-time</span><span class="t-14 t-normal t-black--light">2019 - 2020 · Austin</span><div class="pv-shared-text-with-see-more"> Did <b>analysis</b> </div></li></ul>"#;
    let v = parse_each_experience(html);
    assert_eq!(v.len(), 1);
    let e = &v[0];
    assert_eq!(e.companyURL.as_deref(), Some("https://x.com/company/777/"));
    assert_eq!(e.companyId.as_deref(), Some(""));
    assert_eq!(e.logo.as_deref(), Some("l.png"));
    assert_eq!(e.position.as_deref(), Some("Analyst"));
    assert_eq!(e.companyName.as_deref(), Some("Initech"));
    assert_eq!(e.employmentType.as_deref(), Some("Part-time"));
    assert_eq!(e.periodText.as_deref(), Some("2019 - 2020"));
    assert_eq!(e.location.as_deref(), Some("Austin"));
    assert_eq!(e.description.as_deref(), Some("Did analysis"));
    assert_eq!(e.companyLetter, None);
}

#[test]
fn listed_entry_is_read_where_it_stands_in_the_page() {
    let html = r#"<div class="t-bold"><ul><li class="pvs-list__paged-list-item"><span>Analyst</span></li><li class="pvs-list__paged-list-item"><i>none</i></li></ul></div>"#;
    assert_eq!(parse_listed_experience(html, 0).position.as_deref(), Some("Analyst"));
    assert_eq!(parse_listed_experience(html, 1).position, None);
    assert_eq!(parse_each_experience(html).len(), 2);
}

#[test]
fn education_page_entries_are_read() {
    let html = r#"<ul><li class="pvs-list__paged-list-item" id="edu-1"><img src="mit.png"><div class="display-flex flex-wrap align-items-center full-height"> MIT </div><span class="t-14 t-normal"><span>Master, Computer Science</span></span><span class="t-14 t-normal t-black--light"><span>2015 - 2017</span></span></li></ul>"#;
    let v = parse_education(html);
    assert_eq!(v.len(), 1);
    let e = &v[0];
    assert_eq!(e.id.as_deref(), Some("edu-1"));
    assert_eq!(e.schoolName.as_deref(), Some("MIT"));
    assert_eq!(e.logoUrl.as_deref(), Some("mit.png"));
    assert_eq!(e.degreeName.as_deref(), Some("Master"));
    assert_eq!(e.fieldOfStudy.as_deref(), Some("Computer Science"));
    assert_eq!(e.periodText.as_deref(), Some("2015 - 2017"));
    assert_eq!((e.startDate, e.endDate), (None, None));
    assert_eq!(e.description.as_deref(), Some(""));
}

const SECTIONS: &str = r#"<main>
<section class="artdeco-card pv-profile-card break-words"><div id="about" class="pv-profile-card__anchor"></div></section>
<section class="artdeco-card pv-profile-card break-words"><div id="education" class="pv-profile-card__anchor"></div>
<ul><li class="artdeco-list__item"><a class="optional-action-target-wrapper display-flex" href="https://www.linkedin.com/company/stanford/"><img src="s.png"></a><div class="display-flex flex-wrap align-items-center full-height">Stanford</div><span class="t-14 t-normal"><span>BSc</span></span><span class="t-14 t-normal t-black--light"><span>2010 - 2014</span></span></li></ul>
</section></main>"#;

#[test]
fn education_section_is_found_by_its_anchor() {
    let s = find_education(SECTIONS).unwrap();
    assert!(s.contains("Stanford"));
    assert!(find_education("<p>none</p>").is_none());
}

#[test]
fn education_section_entries_have_school_ids_and_dates() {
    let v = parse_section(SECTIONS);
    assert_eq!(v.len(), 1);
    let e = &v[0];
    assert_eq!(e.id.as_deref(), Some("stanford"));
    assert_eq!(e.schoolName.as_deref(), Some("Stanford"));
    assert_eq!(e.degreeName, None);
    assert_eq!(e.periodText.as_deref(), Some("2010 - 2014"));
    assert_eq!((e.startDate, e.endDate), (Some(1262304000), Some(1388534400)));
    assert!(parse_section("<p>none</p>").is_empty());
}

#[test]
fn school_id_of_search_results_link_is_none() {
    let li = r#"<li><a class="optional-action-target-wrapper display-flex" href="https://www.linkedin.com/search/results/all/"></a></li>"#;
    assert_eq!(extract_id(li), None);
    assert_eq!(extract_id("<li></li>"), None);
}

const PROFILE: &str = r#"<html><body>
<h1 class="text-heading-xlarge inline t-24 v-align-middle break-words">Dr. Grace  Brewster Hopper</h1>
<div class="text-body-medium break-words"> Rear Admiral <b>(ret.)</b> </div>
<span class="text-body-small inline t-black--light break-words"> Arlington, Virginia </span>
<div class="display-flex ph5 pv3"><span aria-hidden="true">Computing <i>pioneer</i></span><span aria-hidden="true">second</span></div>
<div class="pv-top-card__non-self-photo-wrapper"><button><img src="grace.jpg"></button></div>
<section class="artdeco-card" data-member-id="987654"></section>
<a href="/feed">feed</a>
<a href="/in/grace?profileUrn=urn%3Ali%3Afsd_profile%3AACoGRACE&x=1">profile</a>
</body></html>"#;

#[test]
fn profile_fields_are_read() {
    assert_eq!(scrap_full_name(PROFILE).as_deref(), Some("Dr. Grace  Brewster Hopper"));
    assert_eq!(
        get_name_tuple(PROFILE),
        Some(("Grace".to_string(), "Brewster Hopper".to_string()))
    );
    assert_eq!(get_title(PROFILE).as_deref(), Some("Rear Admiral  (ret.)"));
    assert_eq!(get_location(PROFILE).as_deref(), Some("Arlington, Virginia"));
    assert_eq!(get_about(PROFILE).as_deref(), Some("Computing pioneer"));
    assert_eq!(get_profile_picture(PROFILE).as_deref(), Some("grace.jpg"));
    assert_eq!(get_linkedin_main_id(PROFILE).as_deref(), Some("987654"));
    assert_eq!(find_entity_urn(PROFILE).as_deref(), Some("ACoGRACE"));
}

#[test]
fn missing_profile_fields() {
    let empty = "<html><body></body></html>";
    assert_eq!(scrap_full_name(empty).as_deref(), Some(""));
    assert_eq!(get_title(empty).as_deref(), Some(""));
    assert_eq!(get_about(empty), None);
    assert_eq!(get_profile_picture(empty), None);
    assert_eq!(get_linkedin_main_id(empty), None);
    assert_eq!(find_entity_urn(empty), None);
}

#[test]
fn entity_urn_from_page_data() {
    let html = r#"<html><body><code id="datalet-bpr-guid-1">{"request":"/voyager/api/identity/dash/profile","*elements":["urn:li:fsd_profile:ACoDATA"]}</code></body></html>"#;
    assert_eq!(get_entity_urn_from_id_attribute(html).as_deref(), Some("ACoDATA"));
    assert_eq!(find_entity_urn(html).as_deref(), Some("ACoDATA"));
}

#[test]
fn profile_record_from_an_empty_page() {
    let p = web_crawler::profile_record::profile_from_page(
        "<html><body></body></html>",
        "https://www.linkedin.com/in/jane-roe/".to_string(),
        Some("Engineer".to_string()),
        None,
        Some("https://search".to_string()),
        "url-7".to_string(),
    );
    assert!(p.AI);
    assert_eq!(p.linkedin.as_deref(), Some("https://www.linkedin.com/in/jane-roe/"));
    assert_eq!(p.linkedin_unique.as_deref(), Some("jane-roe"));
    assert_eq!(p.connectionLevel, Some(5));
    assert_eq!(p.job.as_deref(), Some("Engineer"));
    assert!(p.sourcer.is_none());
    assert_eq!(p.first.as_deref(), Some(""));
    assert_eq!(p.last.as_deref(), Some(""));
    assert!(p.education.is_empty());
    assert!(p.experience.is_empty());
    assert_eq!(p.search_url.as_deref(), Some("https://search"));
    assert_eq!(p.profile_url_id, "url-7");
}

#[test]
fn experience_sets_the_current_company() {
    let p = web_crawler::profile_record::profile_from_page(
        "<html></html>",
        "https://www.linkedin.com/in/jane-roe/".to_string(),
        Some("Engineer".to_string()),
        Some("sourcer".to_string()),
        Some("https://search".to_string()),
        "u".to_string(),
    );
    let job = Experience {
        companyName: Some("Acme".to_string()),
        companyId: Some("42".to_string()),
        companyLetter: None,
        companyURL: None,
        logo: None,
        position: Some("Engineer".to_string()),
        employmentType: None,
        periodText: None,
        startDate: None,
        endDate: None,
        duration: None,
        location: None,
        description: None,
        skills: vec![],
    };
    let p = web_crawler::profile::with_experience(p, vec![job]);
    assert_eq!(p.company.as_deref(), Some("Acme"));
    assert_eq!(p.company_unique.as_deref(), Some("42"));
    assert_eq!(p.experience.len(), 1);
    assert!(p.AI);
    assert_eq!(p.connectionLevel, Some(5));
    assert_eq!(p.job.as_deref(), Some("Engineer"));
    assert_eq!(p.sourcer.as_deref(), Some("sourcer"));
    assert_eq!(p.search_url.as_deref(), Some("https://search"));
    assert_eq!(p.linkedin_unique.as_deref(), Some("jane-roe"));
    let p = web_crawler::profile::with_experience(p, vec![]);
    assert!(p.company.is_none());
}

#[test]
fn phantom_export_becomes_a_profile_record() {
    use_phantom_export();
}

fn use_phantom_export() {
    let general = web_crawler::entry::PhantomGeneral {
        imgUrl: Some("https://img".to_string()),
        fullName: Some("Jane Roe".to_string()),
        headline: Some("Engineer".to_string()),
        location: Some("Berlin".to_string()),
        profileUrl: Some("https://www.linkedin.com/in/jane-roe/".to_string()),
        connectionDegree: None,
        description: None,
        firstName: Some("Jane".to_string()),
        lastName: Some("Roe".to_string()),
        userId: Some("777".to_string()),
        vmid: Some("ACoAAB".to_string()),
    };
    let job = web_crawler::entry::PhantomJobs {
        companyUrl: Some("https://www.linkedin.com/company/12345/".to_string()),
        companyName: Some("Acme".to_string()),
        logoUrl: None,
        jobTitle: Some("Engineer".to_string()),
        dateRange: None,
        duration: None,
        description: None,
        location: None,
    };
    let export = web_crawler::entry::PhantomJsonProfile {
        general,
        jobs: Some(vec![job]),
        schools: None,
        timestamp: Some("t".to_string()),
    };
    let record = web_crawler::profile::build_profile_from_phantom(
        export,
        Some("job".to_string()),
        Some("sourcer".to_string()),
        None,
    )
    .unwrap();
    assert!(record.AI);
    assert_eq!(record.company.as_deref(), Some("Acme"));
    assert_eq!(record.company_unique.as_deref(), Some("12345"));
    assert_eq!(record.linkedin_unique.as_deref(), Some("jane-roe"));
    assert_eq!(record.connectionLevel, Some(2));
    assert_eq!(record.viewedIn.as_deref(), Some("Phantom"));
    assert_eq!(record.extension_version.as_deref(), Some("phantom"));
    assert_eq!(record.experience.len(), 1);
    assert_eq!(record.experience[0].startDate, None);
    assert!(record.education.is_empty());
}
