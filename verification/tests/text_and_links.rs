use web_crawler::error::CustomError;
use web_crawler::misc::{get_date, split_around_comma, split_around_dot};
use web_crawler::names::{name_tuple_from_full_name, remove_prefixes, split_name, FullName};
use web_crawler::urls::{
    conversation_selector, entity_urn_from_sidebar_href, extract_nick, extract_number,
    extract_part_from_url, extract_urn_from_element_html, extract_urn_from_href, get_linkedin_nick,
    is_new_thread, strip_urn_prefixes, talent_profile_url, urn_from_inmail_links,
    urn_from_profile_links,
};

#[test]
fn full_name_splits_at_first_word() {
    let n = FullName::split_name("John Ronald  Tolkien");
    assert_eq!(n.first_name, "John");
    assert_eq!(n.last_name, "Ronald Tolkien");
    assert_eq!(n.full_name, "John Ronald  Tolkien");
}

#[test]
fn split_name_of_one_word_keeps_it_whole() {
    assert_eq!(split_name("Ada".to_string()), Some(("Ada".to_string(), String::new())));
}

#[test]
fn split_name_keeps_the_words() {
    let (first, last) = split_name("Anna  Maria   Lopez".to_string()).unwrap();
    assert_eq!(format!("{} {}", first, last), "Anna Maria Lopez");
}

#[test]
fn remove_prefixes_drops_a_leading_title() {
    assert_eq!(remove_prefixes("Dr. John Smith"), Some("John Smith".to_string()));
    assert_eq!(remove_prefixes("Jane Doe"), Some("Jane Doe".to_string()));
    assert_eq!(remove_prefixes("he/him/his Sam Lee"), Some("Sam Lee".to_string()));
}

#[test]
fn name_tuple_removes_title_then_splits() {
    assert_eq!(
        name_tuple_from_full_name("Mr. Bob  Lee Jones"),
        Some(("Bob".to_string(), "Lee Jones".to_string()))
    );
}

#[test]
fn split_around_dot_trims_both_sides() {
    assert_eq!(
        split_around_dot("Acme ·  Full-time "),
        (Some("Acme".to_string()), Some("Full-time".to_string()))
    );
    assert_eq!(split_around_dot("Acme"), (None, None));
}

#[test]
fn split_around_comma_splits_degree_and_field() {
    assert_eq!(
        split_around_comma("Master, Computer Science"),
        (Some("Master".to_string()), Some("Computer Science".to_string()))
    );
}

#[test]
fn get_date_reads_start_and_end() {
    let v = get_date(Some("Jan 2020 - Mar 2021 · 1 yr 3 mos")).unwrap();
    assert_eq!(v, vec![Some(1577836800), Some(1614556800)]);
}

#[test]
fn get_date_of_present_has_no_end() {
    let v = get_date(Some("Sep 2019 - Present")).unwrap();
    assert_eq!(v, vec![Some(1567296000), None]);
}

#[test]
fn get_date_without_caption_gives_nothing() {
    assert_eq!(get_date(None).unwrap(), vec![None, None]);
    assert_eq!(get_date(Some("no dates here")).unwrap(), vec![None, None]);
}

#[test]
fn get_date_year_only_starts_in_january() {
    assert_eq!(get_date(Some("2015 - 2018")).unwrap(), vec![Some(1420070400), Some(1514764800)]);
}

#[test]
fn linkedin_nick_is_last_nonempty_piece() {
    assert_eq!(
        get_linkedin_nick(Some("https://www.linkedin.com/in/jdoe/".to_string())),
        Some("jdoe".to_string())
    );
    assert_eq!(get_linkedin_nick(None), None);
}

#[test]
fn extract_nick_ignores_trailing_slashes() {
    assert_eq!(
        extract_nick(Some("https://www.linkedin.com/in/jane-doe//".to_string())),
        Some("jane-doe".to_string())
    );
}

#[test]
fn extract_number_takes_last_numeric_piece() {
    assert_eq!(
        extract_number(Some("https://www.linkedin.com/company/12345/".to_string())),
        Some("12345".to_string())
    );
}

#[test]
fn urn_from_href_reads_profile_urn() {
    assert_eq!(
        extract_urn_from_href("/in/x?profileUrn=urn%3Ali%3Afsd_profile%3AABC&b=1"),
        Some("urn%3Ali%3Afsd_profile%3AABC".to_string())
    );
    assert_eq!(extract_urn_from_href("/in/x?other=1"), None);
}

#[test]
fn strip_urn_prefixes_removes_both_prefixes() {
    assert_eq!(strip_urn_prefixes("urn%3Ali%3Afsd_profile%3AABC"), "ABC");
    assert_eq!(strip_urn_prefixes("urn%3Ali%3Afs_normalized_profile%3AXYZ"), "XYZ");
}

#[test]
fn urn_from_element_html_reads_page_data() {
    let html = r#"<code>{"*elements":["urn:li:fsd_profile:ACoAAB1","x"]}</code>"#;
    assert_eq!(extract_urn_from_element_html(html), Some("ACoAAB1".to_string()));
    assert_eq!(extract_urn_from_element_html("<code></code>"), None);
}

#[test]
fn part_from_talent_url() {
    assert_eq!(extract_part_from_url("/talent/profile/AEMAA1?proj=2"), Some("AEMAA1"));
    assert_eq!(extract_part_from_url("/in/someone"), None);
    assert_eq!(
        talent_profile_url("/talent/profile/AEMAA1?proj=2"),
        "https://www.linkedin.com/in/AEMAA1"
    );
}

#[test]
fn urn_from_profile_links_errors_on_link_without_target() {
    let links = vec![None, Some("/in/x?profileUrn=urn%3Ali%3Afsd_profile%3AQ1&x".to_string())];
    assert!(matches!(
        urn_from_profile_links(&links),
        Err(CustomError::ButtonNotFound(m)) if m == "let href = link.value().attr(href)"
    ));
    let links = vec![
        Some("/feed".to_string()),
        Some("/in/x?profileUrn=urn%3Ali%3Afsd_profile%3AQ1&x".to_string()),
    ];
    assert_eq!(urn_from_profile_links(&links).unwrap(), Some("Q1".to_string()));
}

#[test]
fn urn_from_inmail_links_reads_ampersand_marker() {
    let links = vec![None, Some("/x?a=1&profileUrn=urn%3Ali%3Afsd_profile%3AZ9&b".to_string())];
    assert_eq!(urn_from_inmail_links(&links), Some("Z9".to_string()));
}

#[test]
fn sidebar_href_without_urn_is_an_error() {
    assert_eq!(
        entity_urn_from_sidebar_href(Some("/a?profileUrn=urn%3Ali%3Afsd_profile%3AK7&x=1".to_string()))
            .unwrap(),
        "K7"
    );
    assert!(matches!(
        entity_urn_from_sidebar_href(None),
        Err(CustomError::ButtonNotFound(m)) if m == "find_entity_urn_sidebar result not found"
    ));
}

#[test]
fn conversation_selector_decodes_the_path() {
    assert_eq!(
        conversation_selector("https://www.linkedin.com/in/j%C3%A9r%C3%B4me/"),
        "div.relative.display-flex.flex-column.flex-grow-1:has(a[href='/in/jérôme/'])"
    );
}

#[test]
fn new_thread_url_is_recognized() {
    assert!(is_new_thread("https://www.linkedin.com/messaging/thread/new/"));
    assert!(!is_new_thread("https://www.linkedin.com/messaging/thread/2-abc/"));
}

#[test]
fn error_messages_are_displayed() {
    assert_eq!(CustomError::ConnectionLimit.message(), "Connection limit");
    assert_eq!(
        CustomError::SelectorError("bad".to_string()).message(),
        "Selector error: \"bad\""
    );
}

#[test]
fn words_after_present_are_ignored() {
    let v = get_date(Some("Mar 2018 Present Jan 2020")).unwrap();
    assert_eq!(v, vec![Some(1519862400), None]);
    assert_eq!(get_date(Some("Dec 2090")).unwrap(), vec![Some(3815769600), None]);
    assert_eq!(get_date(Some("Jan 1940 - Feb 1941")).unwrap(), vec![Some(-946771200), Some(-912470400)]);
}

#[test]
fn caption_after_present_is_ignored() {
    let a = "Feb 2016 -";
    let whole = get_date(Some(&format!("{} Present {}", a, "Jun 2022 2023"))).unwrap();
    assert_eq!(whole, vec![get_date(Some(a)).unwrap()[0], None]);
    assert_eq!(whole, vec![Some(1454284800), None]);
    let twice = get_date(Some("Present 2019 Present 2020")).unwrap();
    assert_eq!(twice, vec![None, None]);
}

#[test]
fn start_date_needs_a_year_before_present() {
    assert_eq!(get_date(Some("Jan - Present 2020")).unwrap(), vec![None, None]);
    assert_eq!(get_date(Some("Jan 1939 - Mar 2091")).unwrap(), vec![None, None]);
    assert_eq!(get_date(Some("Jan 1939 - Mar 1999")).unwrap(), vec![Some(915148800), None]);
}
