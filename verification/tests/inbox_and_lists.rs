use web_crawler::conversation_list::{
    read_conversation_list, read_inmail_conversations, scrap_conversation, scrap_conversation_to_list,
};
use web_crawler::error::CustomError;
use web_crawler::inmail_page::find_entity_urn as inmail_entity_urn;
use web_crawler::messages_page::{
    find_conversation, find_entity_urn, get_conversation_ids, get_conversation_owner,
    is_last_message_from_owner, print_elements_with_datalet_in_id, scrap_each_message, scrap_message,
};
use web_crawler::messaging::InmailConversation;
use web_crawler::names::FullName;
use web_crawler::projects_page::{
    _find_stage_selector, decimal_text, find_project_id, find_project_id_in_list,
    locate_project_in_list, read_project_list, scrap_list,
};
use web_crawler::recruiter_page::{read_connections, read_recruiter_results, scrap as recruiter_scrap, scrap_each_connection};
use web_crawler::search_page::{count_pages, read_page_count, scrap as regular_scrap};

const OWNER: &str = r#"<div><a class="app-aware-link msg-thread__link-to-profile" href="/in/candidate">Cand</a></div>"#;

const CONTAINER: &str = r#"<ul>
<li><div class="msg-s-message-group__meta"><a class="msg-s-message-group__profile-link" href="/in/candidate"> Cara Candidate </a><time> 10:00 AM </time></div>
<a class="msg-s-event-listitem__link" tabindex="0" href="/in/candidate"></a><div class="msg-s-event__content"><p> Hello <b>there</b> </p></div></li>
<li><div class="msg-s-message-group__meta"><a class="msg-s-message-group__profile-link" href="/in/recruiter"> Rob Recruiter </a><time>10:05 AM</time></div>
<a class="msg-s-event-listitem__link" tabindex="0" href="/in/recruiter"></a><div class="msg-s-event__content"><p>Hi!</p></div></li>
</ul>"#;

#[test]
fn conversation_messages_are_read_in_order() {
    let mut full_text = String::from("start\n");
    let (owner, messages) = scrap_each_message(OWNER, CONTAINER, &mut full_text).unwrap();
    assert_eq!(owner, "/in/candidate");
    assert_eq!(messages.len(), 2);
    assert_eq!(messages[0].sender, "Cara Candidate");
    assert_eq!(messages[0].timestamp, "10:00 AM");
    assert_eq!(messages[0].message_text, "Hello there");
    assert_eq!(messages[0].url_send_from, "/in/candidate");
    assert_eq!(messages[0].url_send_to, "/in/candidate");
    assert!(messages[0].received);
    assert!(!messages[1].received);
    assert_eq!(full_text, "start\nCandidate: Hello there\nRecruiter: Hi!\n");
}

#[test]
fn message_without_profile_link_is_refused() {
    let container = r#"<ul><li><div class="msg-s-message-group__meta"><a class="msg-s-message-group__profile-link">A</a><time>t</time><a>no target</a></div><a class="msg-s-event-listitem__link" tabindex="0" href="/in/a"></a><div class="msg-s-event__content"><p>x</p></div></li></ul>"#;
    let mut full_text = String::new();
    assert!(scrap_each_message(OWNER, container, &mut full_text).is_none());
    assert_eq!(full_text, "");
}

#[test]
fn conversation_owner_and_ids() {
    let html = r#"<div><h2 class="owner"> Pat <span>Smith</span> </h2><button class="msg-overlay-bubble-header__control artdeco-button artdeco-button--circle artdeco-button--muted artdeco-button--1 artdeco-button--tertiary ember-view" id="b1"></button><button class="msg-overlay-bubble-header__control artdeco-button artdeco-button--circle artdeco-button--muted artdeco-button--1 artdeco-button--tertiary ember-view"></button><button class="msg-overlay-bubble-header__control artdeco-button artdeco-button--circle artdeco-button--muted artdeco-button--1 artdeco-button--tertiary ember-view" id="b3"></button></div>"#;
    assert_eq!(get_conversation_owner(html, "h2.owner").unwrap(), "Pat  Smith");
    assert!(matches!(
        get_conversation_owner(html, "h3.none"),
        Err(CustomError::ButtonNotFound(m)) if m == "get_conversation_owner"
    ));
    assert!(matches!(get_conversation_owner(html, "h2["), Err(CustomError::SelectorError(_))));
    assert_eq!(get_conversation_ids(html).unwrap(), vec!["b1".to_string(), "b3".to_string()]);
}

#[test]
fn last_message_sender() {
    let html = r#"<ul><li class="msg-s-message-list__event"><span class="msg-s-message-group__name">Rob Recruiter</span></li><li class="msg-s-message-list__event"><span class="msg-s-message-group__name">Cara Candidate</span></li></ul>"#;
    assert!(is_last_message_from_owner(html, "Cara").unwrap());
    assert!(!is_last_message_from_owner(html, "Rob").unwrap());
    assert!(!is_last_message_from_owner("<ul></ul>", "Rob").unwrap());
}

#[test]
fn conversation_with_a_member() {
    let html = r#"<div><div class="msg-convo-wrapper" id="c1"><a href="/in/other/">o</a></div><div class="msg-convo-wrapper" id="c2"><a href="/in/URN7/">u</a></div></div>"#;
    assert_eq!(find_conversation(html, "URN7").unwrap(), "c2");
    assert_eq!(find_conversation(html, "nobody").unwrap(), "");
    let html = r#"<div><div class="msg-convo-wrapper"><a href="/in/x/">o</a></div></div>"#;
    assert!(matches!(
        find_conversation(html, "x"),
        Err(CustomError::ButtonNotFound(m)) if m == "id = conv_div.value()"
    ));
}

const DATALET: &str = r#"<html><body><code id="datalet-bpr-guid-42" style="display:none">"/voyager/api/identity/dash/profile" bpr-guid-42"</code><code id="bpr-guid-42">{"*elements":["urn:li:fsd_profile:ACoGUID"]}</code></body></html>"#;

#[test]
fn member_urn_from_guid_page_data() {
    assert_eq!(print_elements_with_datalet_in_id(DATALET).as_deref(), Some("ACoGUID"));
    assert_eq!(print_elements_with_datalet_in_id("<html></html>"), None);
}

#[test]
fn member_urn_in_message_flow() {
    let html = r#"<html><body><a href="/in/x?profileUrn=urn%3Ali%3Afsd_profile%3AM1&y=2">x</a></body></html>"#;
    assert_eq!(find_entity_urn(html).unwrap(), "M1");
    assert_eq!(find_entity_urn(DATALET).unwrap(), "ACoGUID");
    let html = r#"<html><body><a>no target</a></body></html>"#;
    assert!(matches!(
        find_entity_urn(html),
        Err(CustomError::ButtonNotFound(m)) if m == "let href = link.value().attr(href)"
    ));
    assert!(matches!(
        find_entity_urn("<html></html>"),
        Err(CustomError::ButtonNotFound(m)) if m == "entity_urn = match print_elements_with_datalet_in_id"
    ));
    assert_eq!(inmail_entity_urn("<html><body><a>x</a></body></html>"), None);
    assert_eq!(inmail_entity_urn(DATALET).as_deref(), Some("ACoGUID"));
}

#[test]
fn inmail_messages_of_the_candidate() {
    let conv = InmailConversation::new(
        "id1".to_string(),
        "https://t/1".to_string(),
        " Cara Candidate ".to_string(),
        true,
        "key".to_string(),
    );
    let name = FullName::split_name("Cara Candidate");
    let html = r#"<div><div class="_message-list-item_1gj1uc"><span class="_headingText_e3b563">Cara Candidate</span><article class="messaging-attributed-text-renderer">Yes please</article></div><div class="_message-list-item_1gj1uc"><span class="_headingText_e3b563">Rob</span><article class="messaging-attributed-text-renderer">Great</article></div></div>"#;
    let (messages, full_text) = scrap_message(conv, html, &name).unwrap();
    assert_eq!(messages.len(), 1);
    assert_eq!(messages[0].message_text, "Yes please");
    assert_eq!(messages[0].api_key, "key");
    assert_eq!(messages[0].first_name, "Cara");
    assert_eq!(messages[0].last_name, "Candidate");
    assert_eq!(messages[0].conversation_url, "https://t/1");
    assert_eq!(full_text, "Candidate: Yes please \nRecruiter: Great \n");
}

const LIST: &str = r#"<ul>
<li class="msg-conversation-listitem" id="a"><a class="msg-conversation-listitem__link" href="/t/a"></a><h3 class="msg-conversation-listitem__participant-names">Ann</h3><time class="msg-conversation-listitem__time-stamp">Mon</time><span class="msg-conversation-card__unread-count">1</span></li>
<li class="msg-conversation-listitem" id="b"><a class="msg-conversation-listitem__link" href="/t/b"></a><h3 class="msg-conversation-listitem__participant-names">Bo</h3><time class="msg-conversation-listitem__time-stamp">Tue</time></li>
<li class="msg-conversation-listitem" id="a"><a class="msg-conversation-listitem__link" href="/t/a2"></a><h3 class="msg-conversation-listitem__participant-names">Ann2</h3><time class="msg-conversation-listitem__time-stamp">Wed</time></li>
<li class="msg-conversation-listitem" id="c"><h3>no link ends the list</h3></li>
<li class="msg-conversation-listitem" id="d"><a class="msg-conversation-listitem__link" href="/t/d"></a><h3 class="msg-conversation-listitem__participant-names">Di</h3><time class="msg-conversation-listitem__time-stamp">Thu</time></li>
</ul>"#;

#[test]
fn conversation_list_keeps_one_per_id() {
    let v = scrap_conversation_to_list(LIST, "key", true);
    assert_eq!(v.len(), 2);
    assert_eq!(v[0].id, "a");
    assert_eq!(v[0].thread_url, "/t/a2");
    assert_eq!(v[0].candidate_name, "Ann2");
    assert_eq!(v[0].timestamp, "Wed");
    assert!(!v[0].unread);
    assert_eq!(v[1].id, "b");
    assert!(v[1].enable_ai);
    assert_eq!(v[1].api_key, "key");
}

#[test]
fn conversation_list_item_without_id_is_refused() {
    let html = r#"<ul><li class="msg-conversation-listitem"><a class="msg-conversation-listitem__link" href="/t"></a></li></ul>"#;
    assert!(read_conversation_list(html, "k", false).is_none());
    let v = read_conversation_list(LIST, "k", false).unwrap();
    assert_eq!(v.len(), 2);
    assert!(!v[0].enable_ai);
}

const CARDS: &str = r#"<div>
<div class="_card-container_z8knzq"><a class="_conversation-link_z8knzq" id="t1" href="/inbox/1"></a><span class="_conversation-card-participant-name_z8knzq"> Zoe </span><span class="_unread-badge_z8knzq">1</span></div>
<div class="_card-container_z8knzq"><span class="_conversation-card-participant-name_z8knzq">Yan</span></div>
</div>"#;

#[test]
fn inmail_cards_are_read_by_id() {
    let mut list = Vec::new();
    scrap_conversation(CARDS, "k", &mut list);
    assert_eq!(list.len(), 2);
    assert_eq!(list[0].id, "t1");
    assert_eq!(list[0].thread_url, "/inbox/1");
    assert_eq!(list[0].candidate_name, "Zoe");
    assert!(list[0].unread);
    assert_eq!(list[1].id, "Not found");
    assert_eq!(list[1].thread_url, "Not found");
    assert!(!list[1].unread);
    scrap_conversation(CARDS, "k", &mut list);
    assert_eq!(list.len(), 2);
}

#[test]
fn inmail_card_link_without_id_is_refused() {
    let html = r#"<div><div class="_card-container_z8knzq"><a class="_conversation-link_z8knzq" href="/x"></a></div></div>"#;
    let mut list = Vec::new();
    assert!(!read_inmail_conversations(html, "k", &mut list));
    assert!(list.is_empty());
    assert!(read_inmail_conversations(CARDS, "k", &mut list));
    assert_eq!(list.len(), 2);
}

const PROJECTS: &str = r#"<ul>
<li data-test-paginated-list-item=""><h2 class="project-list-item__name"><div><span> Backend <!----> Hiring </span></div></h2><a class="project-list-item__project-card-link" href="/talent/hire/555/overview"></a></li>
<li data-test-paginated-list-item=""><h2 class="project-list-item__name"><div><span>Old</span></div></h2><span class="project-lockup-title__item t-12 t-black--light">Archived</span></li>
</ul>"#;

#[test]
fn projects_are_numbered_from_the_order() {
    let mut order = 10u32;
    let v = scrap_list(PROJECTS, &mut order).unwrap();
    assert_eq!(order, 12);
    assert_eq!(v.len(), 2);
    assert_eq!(v[0].name, "Backend  Hiring");
    assert_eq!(v[0].id, "555");
    assert!(!v[0].archived);
    assert_eq!(v[0].order, 10);
    assert_eq!(v[1].id, "");
    assert!(v[1].archived);
    assert_eq!(v[1].order, 11);
    let mut near_max = u32::MAX - 1;
    assert!(read_project_list(PROJECTS, &mut near_max).is_none());
    assert_eq!(near_max, u32::MAX - 1);
}

#[test]
fn project_found_in_search_results() {
    let html = r#"<ul><li class="artdeco-typeahead__result ember-view" id="r1"><span class="project-lockup-title__item t-bold">Other</span></li><li class="artdeco-typeahead__result ember-view" id="r2"><span class="project-lockup-title__item t-bold"> Backend </span></li></ul>"#;
    assert_eq!(find_project_id_in_list(html, "Backend").unwrap(), "r2");
    assert!(matches!(
        find_project_id_in_list(html, "None"),
        Err(CustomError::ButtonNotFound(m)) if m == "Project ID is not found  not found"
    ));
    let no_id = r#"<ul><li class="artdeco-typeahead__result ember-view"><span class="project-lockup-title__item t-bold">Backend</span></li></ul>"#;
    assert!(locate_project_in_list(no_id, "Backend").is_none());
}

#[test]
fn project_among_requisitions() {
    let html = r#"<div class="topcard-requisitions__item-block"><span class="topcard-requisitions__name"><a class="ember-view" id="ember9"> Backend </a></span></div>"#;
    assert_eq!(find_project_id(html, "Backend").unwrap(), "ember9");
    assert!(matches!(
        find_project_id(html, "Frontend"),
        Err(CustomError::ButtonNotFound(m)) if m == "Project not found in the list/Change Stage"
    ));
}

#[test]
fn stage_selector_counts_from_one() {
    let html = r#"<ul><li class="requisition-pipeline-activity__stage"><p class="t-14.t-black--light">Uncontacted</p></li><li class="requisition-pipeline-activity__stage"><p class="t-14.t-black--light"> Contacted </p></li></ul>"#;
    assert_eq!(
        _find_stage_selector(html, "Contacted").unwrap(),
        "li.requisition-pipeline-activity__stage:nth-of-type(2)"
    );
    assert!(_find_stage_selector(html, "Hired").is_err());
    assert_eq!(decimal_text(1207).into_iter().collect::<String>(), "1207");
    assert_eq!(decimal_text(0).into_iter().collect::<String>(), "0");
}

#[test]
fn regular_search_links() {
    let html = r#"<div><span class="entity-result__title-text"><a class="app-aware-link" href="https://www.linkedin.com/in/a">A</a></span><span class="entity-result__title-text"><a class="app-aware-link">no</a></span><span class="entity-result__title-text"><a class="app-aware-link" href="https://www.linkedin.com/in/b">B</a></span></div>"#;
    let mut urls = vec!["x".to_string()];
    regular_scrap(html, &mut urls);
    assert_eq!(urls, vec!["x", "https://www.linkedin.com/in/a", "https://www.linkedin.com/in/b"]);
}

#[test]
fn page_count_from_pagination() {
    let html = r#"<ul><li class="artdeco-pagination__indicator--number"><button aria-label="Page 1"></button></li><li class="artdeco-pagination__indicator--number"><button aria-label="Page 37"></button></li></ul>"#;
    assert_eq!(count_pages(html.to_string()), 37);
    assert_eq!(read_page_count("<ul></ul>".to_string()), None);
}

#[test]
fn recruiter_search_links() {
    let html = r#"<div><a data-test-link-to-profile-link="true" href="/talent/profile/AE1?x=1">a</a><a data-test-link-to-profile-link="true" href="/talent/profile/AE2">b</a></div>"#;
    let mut urls = Vec::new();
    recruiter_scrap(html, &mut urls).unwrap();
    assert_eq!(urls, vec!["https://www.linkedin.com/in/AE1", "https://www.linkedin.com/in/AE2"]);
    let bad = r#"<div><a data-test-link-to-profile-link="true" href="/in/x">a</a></div>"#;
    let mut urls = Vec::new();
    assert!(read_recruiter_results(bad, &mut urls).is_none());
    assert!(urls.is_empty());
    let mut urls = vec!["x".to_string()];
    assert!(matches!(read_recruiter_results(html, &mut urls), Some(Ok(()))));
    assert_eq!(urls, vec!["x", "https://www.linkedin.com/in/AE1", "https://www.linkedin.com/in/AE2"]);
}

#[test]
fn connection_cards() {
    let html = r#"<ul><li class="mn-connection-card"><span class="mn-connection-card__name"> Ada  King Lovelace </span><a class="mn-connection-card__link" href="/in/ada/"></a></li></ul>"#;
    let v = scrap_each_connection(html);
    assert_eq!(v.len(), 1);
    assert_eq!(v[0].first_name, "Ada");
    assert_eq!(v[0].last_name, "King Lovelace");
    assert_eq!(v[0].full_name, "Ada  King Lovelace");
    assert_eq!(v[0].profile_url, "https://www.linkedin.com/in/ada/");
    let no_link = r#"<ul><li class="mn-connection-card"><span class="mn-connection-card__name">Ada</span></li></ul>"#;
    assert!(read_connections(no_link).is_none());
}
