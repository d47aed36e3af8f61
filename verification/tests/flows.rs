use web_crawler::decisions::{caption_count, MessageCategory};
use web_crawler::opening::{opening_error, opening_next, Opening, OpeningNext};
use web_crawler::recruiter_page::connections_found;
use web_crawler::search_page::page_button_selector;
use web_crawler::search_paging::{
    post_next, recruiter_search_start, recruiter_search_step, regular_next_page, rescroll_round, url_batches,
    PostResult, RecruiterPageEvent, RecruiterSearchState,
};
use web_crawler::error::CustomError;
use web_crawler::inmail_flow::{
    bmp_text, inmail_next, inmail_outcome, inmail_probe, inmail_start_state, talent_profile_address,
    InmailEnding, InmailNext, InmailProbe, InmailStage,
};
use web_crawler::message_flow::{
    conversation_box_selector, conversation_id_for, inmail_needed, message_entity_urn, message_route, messaging_reply,
    overlay_reply, reply_check, route_outcome, send_way, MessageRoute, SendWay,
};
use web_crawler::messaging::InmailConversation;
use web_crawler::profile_flow::{flow_name, next_stage, outcome, probe, Ending, FlowKind, Next, Probe, Stage};
use web_crawler::replies::{first_read, menu_option, stage_change, stage_matches};

/// Runs a profile flow from its first stage, answering each probe from
/// `answers` in turn; returns the stages visited and the ending.
fn run_profile(kind: FlowKind, answers: &[bool]) -> (Vec<Stage>, Ending) {
    let mut stage = Stage::Open { attempt: 0 };
    let mut seen = vec![stage];
    for &ok in answers {
        match next_stage(kind, stage, ok) {
            Next::Continue(s) => {
                stage = s;
                seen.push(s);
            }
            Next::Finish(e) => return (seen, e),
        }
    }
    panic!("the flow did not end");
}

fn run_inmail(answers: &[bool]) -> (Vec<InmailStage>, InmailEnding) {
    let mut st = inmail_start_state();
    let mut seen = vec![st.stage];
    for &ok in answers {
        match inmail_next(st, ok) {
            InmailNext::Continue(s) => {
                st = s;
                seen.push(s.stage);
            }
            InmailNext::Finish(e) => return (seen, e),
        }
    }
    panic!("the flow did not end");
}

#[test]
fn connection_request_is_sent_with_a_note() {
    // load, cookie, main container, no 404, cookie again, More, not in pool,
    // not pending (button, menu), connect, no "how" popup, no email needed,
    // add note, note written, send, not pending after (button, menu), no limit
    let answers = [
        true, true, true, false, true, true, false, false, false, true, false, false, true, true,
        true, false, false, false,
    ];
    let (seen, end) = run_profile(FlowKind::Connect, &answers);
    assert_eq!(end, Ending::Sent);
    assert_eq!(seen[1], Stage::Cookie { second: false });
    assert!(seen.contains(&Stage::AddNote));
    assert_eq!(*seen.last().unwrap(), Stage::Limit);
    let o = outcome(FlowKind::Connect, end);
    assert!(matches!(o.result, Ok(ref m) if m == "Connection was sent"));
    assert!(o.screenshot.is_none());
    assert!(o.quit);
}

#[test]
fn connection_request_stops_at_the_limit() {
    let answers = [
        true, true, true, false, true, true, false, false, false, true, false, false, true, true,
        true, false, false, true,
    ];
    let (_, end) = run_profile(FlowKind::Connect, &answers);
    assert_eq!(end, Ending::Limit);
    let o = outcome(FlowKind::Connect, end);
    assert!(matches!(o.result, Err(CustomError::ConnectionLimit)));
    assert_eq!(o.screenshot.as_deref(), Some("Connection limit"));
}

#[test]
fn page_load_is_tried_five_times() {
    let (seen, end) = run_profile(FlowKind::Connect, &[false, false, false, false, false]);
    assert_eq!(end, Ending::NotLoading);
    assert_eq!(seen.len(), 5);
    assert_eq!(seen[4], Stage::Open { attempt: 4 });
    let o = outcome(FlowKind::Connect, end);
    assert!(matches!(o.result, Err(CustomError::ButtonNotFound(ref m))
        if m == "Candidate page is not loading/Send_connection_message"));
    assert_eq!(o.screenshot.as_deref(), Some("Candidate page is not loading/Send_connection"));
}

#[test]
fn expired_cookie_is_checked_twice() {
    let (seen, end) = run_profile(FlowKind::Withdraw, &[true, false, false]);
    assert_eq!(seen, vec![Stage::Open { attempt: 0 }, Stage::Cookie { second: false }, Stage::Cookie { second: true }]);
    assert_eq!(end, Ending::CookieExpired);
    assert!(matches!(outcome(FlowKind::Withdraw, end).result, Err(CustomError::SessionCookieExpired)));
}

#[test]
fn member_already_connected_ends_both_flows() {
    let answers = [true, true, true, false, true, true, true];
    assert_eq!(run_profile(FlowKind::Connect, &answers).1, Ending::InPool);
    assert_eq!(run_profile(FlowKind::Withdraw, &answers).1, Ending::InPool);
    let o = outcome(FlowKind::Withdraw, Ending::InPool);
    assert!(matches!(o.result, Ok(ref m) if m == "Connection accepted; withdrawal not possible"));
}

#[test]
fn pending_request_is_withdrawn() {
    // up to "not in pool", then the pending button in the menu, the popup,
    // no verification, done
    let answers = [true, true, true, false, true, true, false, false, true, true, false];
    let (seen, end) = run_profile(FlowKind::Withdraw, &answers);
    assert!(seen.contains(&Stage::PendingClick { dropdown: true }));
    assert_eq!(end, Ending::Withdrawn);
    let o = outcome(FlowKind::Withdraw, end);
    assert!(matches!(o.result, Ok(ref m) if m == "Connection was withdrawn"));
    assert!(!o.quit);
}

#[test]
fn missing_page_is_reported() {
    let (_, end) = run_profile(FlowKind::Connect, &[true, true, true, true]);
    assert_eq!(end, Ending::PageMissing);
    let o = outcome(FlowKind::Connect, end);
    assert!(matches!(o.result, Err(CustomError::ButtonNotFound(ref m)) if m == "Page does not exist"));
}

#[test]
fn flow_probes_and_names() {
    assert_eq!(probe(Stage::Open { attempt: 2 }), Probe::Load);
    assert_eq!(probe(Stage::Cookie { second: true }), Probe::RefreshedCookie);
    assert_eq!(probe(Stage::MainContainer), Probe::Present("div[class=application-outlet]"));
    assert_eq!(probe(Stage::NoteInput), Probe::WriteNote("textarea[id=custom-message]"));
    assert_eq!(flow_name(FlowKind::Connect), "Send connection");
    assert_eq!(flow_name(FlowKind::Withdraw), "Withdraw connection");
}

#[test]
fn inmail_is_sent_through_the_urn() {
    // load, cookie, container, URN found, More found, More clicked,
    // Recruiter opened, Recruiter cookie, not disabled, send button,
    // AI text removed, subject, text, first send
    let answers = [true, true, true, true, true, true, true, true, false, true, true, true, true, true];
    let (seen, end) = run_inmail(&answers);
    assert!(seen.contains(&InmailStage::OpenRecruiter));
    assert!(!seen.contains(&InmailStage::ViewInRecruiter { dropdown: false }));
    assert_eq!(end, InmailEnding::Sent);
    assert!(matches!(inmail_outcome(end), Ok(ref m) if m == "Inmail was sent"));
}

#[test]
fn inmail_without_urn_goes_through_view_in_recruiter() {
    let answers = [true, true, true, false, true, true, false, false];
    let (seen, end) = run_inmail(&answers);
    assert!(seen.contains(&InmailStage::ViewInRecruiter { dropdown: true }));
    assert_eq!(end, InmailEnding::ViewInRecruiterMissing);
    assert!(matches!(inmail_outcome(end), Err(CustomError::ButtonNotFound(ref m))
        if m == "View in recruiter button is not found"));
}

#[test]
fn inmail_disabled_account_is_a_success() {
    let answers = [true, true, true, true, true, true, true, true, true];
    let (_, end) = run_inmail(&answers);
    assert_eq!(end, InmailEnding::Disabled);
    assert!(matches!(inmail_outcome(end), Ok(ref m) if m == "Sending Inmails is disabled for this account"));
}

#[test]
fn inmail_probes() {
    assert_eq!(inmail_probe(InmailStage::OpenRecruiter), InmailProbe::LoadRecruiter);
    assert_eq!(inmail_probe(InmailStage::Subject), InmailProbe::WriteSubject("input[class='compose-subject__input']"));
}

#[test]
fn talent_profile_address_is_built() {
    assert_eq!(
        talent_profile_address("ACoAAB"),
        "https://www.linkedin.com/talent/profile/ACoAAB?trk=FLAGSHIP_VIEW_IN_RECRUITER"
    );
}

#[test]
fn bmp_text_drops_emoji() {
    assert_eq!(bmp_text("Hi 👋 there ✓"), "Hi  there ✓");
    assert_eq!(bmp_text(""), "");
}

#[test]
fn message_route_follows_the_page() {
    assert_eq!(message_route(false, true, "https://x/messaging"), MessageRoute::NotInPool);
    assert_eq!(message_route(true, false, "https://x/messaging"), MessageRoute::NoMessageButton);
    assert_eq!(message_route(true, true, "https://www.linkedin.com/messaging/thread/1/"), MessageRoute::MessagingPage);
    assert_eq!(message_route(true, true, "https://www.linkedin.com/in/jane/"), MessageRoute::CurrentPage);
    assert!(matches!(route_outcome(MessageRoute::NotInPool),
        Some(Ok(ref m)) if m == "Candidate is not in connection pool to send messages"));
    assert!(matches!(route_outcome(MessageRoute::NoMessageButton),
        Some(Err(CustomError::ButtonNotFound(ref m))) if m == "Message button not found"));
    assert!(route_outcome(MessageRoute::CurrentPage).is_none());
}

#[test]
fn message_checks() {
    assert!(matches!(inmail_needed(true), Err(CustomError::ButtonNotFound(ref m)) if m == "Inmail needed"));
    assert!(inmail_needed(false).is_ok());
    assert!(matches!(reply_check(true, true), Err(CustomError::ButtonNotFound(ref m)) if m == "Candidate replied"));
    assert!(reply_check(true, false).is_ok());
    assert!(reply_check(false, true).is_ok());
}

#[test]
fn send_way_prefers_the_button() {
    assert!(matches!(send_way(true, true, true), Ok(SendWay::SendButton)));
    assert!(matches!(send_way(false, true, true), Ok(SendWay::SendButtonNew)));
    assert!(matches!(send_way(false, false, true), Ok(SendWay::Enter)));
    assert!(matches!(send_way(false, false, false), Err(CustomError::ButtonNotFound(ref m)) if m == "Send button not found"));
}

#[test]
fn conversation_box_selector_quotes_the_id() {
    assert_eq!(conversation_box_selector("msg-1"), "div[id='msg-1']");
}

#[test]
fn entity_urn_from_the_sidebar_link() {
    let href = "https://www.linkedin.com/x?profileUrn=urn%3Ali%3Afsd_profile%3AACoAAB&trk=y".to_string();
    assert!(matches!(message_entity_urn(Some(Some(href)), "<div></div>"), Ok(ref u) if u == "ACoAAB"));
    assert!(matches!(message_entity_urn(None, "<div></div>"),
        Err(CustomError::ButtonNotFound(ref m)) if m == "Entity urn not found"));
}

#[test]
fn reply_on_the_messaging_page() {
    let html = "<div><h2 id=\"thread-detail-jump-target\"> Jane Roe </h2><ul>\
        <li class=\"msg-s-message-list__event\"><span class=\"msg-s-message-group__name\">Me</span></li>\
        <li class=\"msg-s-message-list__event\"><span class=\"msg-s-message-group__name\">Jane Roe</span></li>\
        </ul></div>";
    assert!(matches!(messaging_reply("https://www.linkedin.com/messaging/thread/2-abc/", html), Ok(true)));
    assert!(matches!(messaging_reply("https://www.linkedin.com/messaging/thread/new/", html), Ok(false)));
    assert!(matches!(messaging_reply("https://www.linkedin.com/messaging/thread/2-abc/", "<p></p>"),
        Err(CustomError::ButtonNotFound(ref m)) if m == "get_conversation_owner"));
}

#[test]
fn reply_in_the_overlay() {
    let overlay = "<h2 class=\"msg-overlay-bubble-header__title\"><span>Jane Roe</span></h2>";
    let box_html = "<ul><li class=\"msg-s-message-list__event\"><span class=\"msg-s-message-group__name\">Jane Roe</span></li>\
        <li class=\"msg-s-message-list__event\"><span class=\"msg-s-message-group__name\">Me</span></li></ul>";
    assert!(matches!(overlay_reply(overlay, box_html), Ok(false)));
}

#[test]
fn recruiter_stage_after_the_verdict() {
    assert_eq!(stage_change(true, MessageCategory::Interested, "Contacted", "Archived"), Some("Contacted"));
    assert_eq!(stage_change(true, MessageCategory::NotInterested, "Contacted", "Archived"), Some("Archived"));
    assert_eq!(stage_change(true, MessageCategory::NotFound, "Contacted", "Archived"), None);
    assert_eq!(stage_change(false, MessageCategory::Interested, "Contacted", "Archived"), None);
    assert!(stage_matches("  Contacted \n", "Contacted"));
    assert!(!stage_matches("Contact", "Contacted"));
}

#[test]
fn first_read_conversation_is_found() {
    let c = |id: &str, unread: bool| {
        InmailConversation::new(id.to_string(), "u".to_string(), "n".to_string(), unread, "k".to_string())
    };
    assert_eq!(first_read(&vec![c("a", true), c("b", false), c("c", false)]), Some(1));
    assert_eq!(first_read(&vec![c("a", true)]), None);
    assert_eq!(first_read(&vec![]), None);
}

#[test]
fn conversation_menu_entries() {
    assert!(menu_option(true, true).ends_with(":nth-child(3)"));
    assert!(menu_option(true, false).ends_with(":nth-child(2)"));
    assert!(menu_option(false, true).ends_with(":nth-child(2)"));
    assert!(menu_option(false, false).ends_with(":nth-child(1)"));
}

#[test]
fn inmail_reloads_recruiter_after_a_failed_first_load() {
    // first load fails, second succeeds; URN found; the Recruiter profile
    // then fails to load four more times
    let answers = [false, true, true, true, true, true, true, true, false, false, false, false];
    let (seen, end) = run_inmail(&answers);
    assert!(seen.contains(&InmailStage::ReloadRecruiter { attempt: 3 }));
    assert_eq!(end, InmailEnding::RecruiterNotLoading);
    assert!(matches!(inmail_outcome(end), Err(CustomError::ButtonNotFound(ref m))
        if m == "Candidate Recruiter page is not loading/Inmail"));
}

#[test]
fn page_opening_steps() {
    assert_eq!(opening_next(Opening::Load { attempt: 0 }, true), OpeningNext::Continue(Opening::Session { second: false }));
    assert_eq!(opening_next(Opening::Load { attempt: 3 }, false), OpeningNext::Continue(Opening::Load { attempt: 4 }));
    assert_eq!(opening_next(Opening::Load { attempt: 4 }, false), OpeningNext::NotLoading);
    assert_eq!(opening_next(Opening::Session { second: false }, false), OpeningNext::Continue(Opening::Session { second: true }));
    assert_eq!(opening_next(Opening::Session { second: true }, true), OpeningNext::Ready);
    assert_eq!(opening_next(Opening::Session { second: true }, false), OpeningNext::SessionExpired);
    assert!(matches!(opening_error(OpeningNext::NotLoading, "Page is not loading", false),
        Some(CustomError::ButtonNotFound(ref m)) if m == "Page is not loading"));
    assert!(matches!(opening_error(OpeningNext::SessionExpired, "x", false), Some(CustomError::SessionCookieExpired)));
    assert!(matches!(opening_error(OpeningNext::SessionExpired, "x", true), Some(CustomError::RecruiterSessionCookieExpired)));
    assert!(opening_error(OpeningNext::Ready, "x", false).is_none());
}

#[test]
fn search_count_captions() {
    assert_eq!(caption_count(None, true), 1003);
    assert_eq!(caption_count(Some(None), true), 1001);
    assert_eq!(caption_count(Some(Some("About 1,200 results")), true), 1000);
    assert_eq!(caption_count(Some(Some("57 results")), true), 57);
    assert_eq!(caption_count(Some(Some("2.3K results")), false), 1000);
    assert_eq!(caption_count(Some(Some("120 candidates")), false), 120);
}

#[test]
fn page_button_selectors() {
    assert_eq!(page_button_selector(1), "button[aria-label='Page 1']");
    assert_eq!(page_button_selector(12), "button[aria-label='Page 12']");
}

#[test]
fn empty_connection_page_is_an_error() {
    assert!(matches!(connections_found(vec![]),
        Err(CustomError::ButtonNotFound(ref m)) if m == "Connections vec is zero, double check"));
}

#[test]
fn overlay_conversation_is_found_by_urn() {
    let html = "<div class=\"msg-convo-wrapper\" id=\"c1\"><a href=\"/in/ABC/\">x</a></div>\
        <div class=\"msg-convo-wrapper\" id=\"c2\"><a href=\"/in/XYZ/\">y</a></div>";
    assert!(matches!(conversation_id_for(html, "XYZ"), Ok(ref id) if id == "c2"));
    assert!(matches!(conversation_id_for(html, "QQQ"), Ok(ref id) if id.is_empty()));
}

#[test]
fn links_are_sent_in_batches_of_ten() {
    let urls: Vec<String> = (0..23).map(|i| format!("u{}", i)).collect();
    let batches = url_batches(&urls);
    assert_eq!(batches.len(), 3);
    assert_eq!(batches[0].len(), 10);
    assert_eq!(batches[2], vec!["u20".to_string(), "u21".to_string(), "u22".to_string()]);
    assert!(url_batches(&vec![]).is_empty());
}

#[test]
fn a_batch_is_tried_six_times() {
    assert!(matches!(post_next(0, PostResult::Accepted), Ok(None)));
    assert!(matches!(post_next(0, PostResult::Refused), Ok(Some(1))));
    assert!(matches!(post_next(4, PostResult::Failed), Ok(Some(5))));
    assert!(matches!(post_next(5, PostResult::Refused), Err(CustomError::ButtonNotFound(ref m))
        if m == "Send url status is not 200, Status/Scrap Recruiter Search"));
    assert!(matches!(post_next(5, PostResult::Failed), Err(CustomError::ButtonNotFound(ref m))
        if m == "Scrap recruiter search send url, Error"));
}

#[test]
fn recruiter_search_pages() {
    let st = recruiter_search_start(50);
    let (next, action) = recruiter_search_step(st, RecruiterPageEvent { links: 12, sent: true, has_next: true });
    assert_eq!(next, RecruiterSearchState { page: 2, number: 75 });
    assert!(action.short_page);
    assert_eq!(action.batch_status, "URL batch sent to bubble successfully, page: 1");
    assert_eq!(action.number, 75);
    assert!(!action.last_page);
    assert_eq!(action.next_status, "Started scraping page 2");
    let (_, action) = recruiter_search_step(next, RecruiterPageEvent { links: 25, sent: false, has_next: false });
    assert!(!action.short_page);
    assert_eq!(action.batch_status, "Error sending URL batch to bubble, page: 2");
    assert!(action.last_page);
    assert_eq!(rescroll_round(true), ("First Less than 25 urls", Some("First Less than 25 urls TOP")));
    assert_eq!(rescroll_round(false), ("Second Less than 25 urls", None));
}

#[test]
fn regular_search_visits_every_page() {
    assert_eq!(regular_next_page(0, 3), Some(1));
    assert_eq!(regular_next_page(2, 3), Some(3));
    assert_eq!(regular_next_page(3, 3), None);
    assert_eq!(regular_next_page(0, 0), None);
    assert_eq!(regular_next_page(0, -2), None);
}
