//! The decisions of the flow that sends a regular message: which URN the
//! member has, whether a message can be sent, on which page the
//! conversation opens, whether the candidate has replied, and how the
//! message is sent.
use vstd::prelude::*;
use vstd::string::*;
use crate::error::CustomError;
use crate::messages_page::{
    find_conversation, find_conversation_spec, find_entity_urn, get_conversation_owner,
    is_last_message_from_owner, last_from_owner_spec, message_entity_urn_spec,
};
use crate::dom::{first_joined, page_texts, selector_parse_error};
use crate::misc::opt_view;
use crate::text::{chars_of, contains, contains_chars, trim};
use crate::urls::{entity_urn_from_sidebar_href, is_new_thread, sidebar_urn_spec};

verus! {

/// The member's URN: from the side-bar link when the page has one and it
/// carries a URN, else from the page itself; an error when neither gives
/// one. `sidebar` is `None` without a side-bar link, else the link's
/// target.
pub fn message_entity_urn(sidebar: Option<Option<String>>, main_html: &str) -> (r: Result<String, CustomError>)
    ensures
        match sidebar {
            Some(h) if sidebar_urn_spec(opt_view(h)) is Some => r matches Ok(u) && u@ == sidebar_urn_spec(opt_view(h))->0,
            _ => match (selector_parse_error("a"@), message_entity_urn_spec(main_html@)) {
                (None, Ok(u)) => r matches Ok(x) && x@ == u,
                _ => r matches Err(CustomError::ButtonNotFound(e)) && e@ == "Entity urn not found"@,
            },
        },
{
    if let Some(h) = sidebar {
        if let Ok(u) = entity_urn_from_sidebar_href(h) {
            return Ok(u);
        }
    }
    match find_entity_urn(main_html) {
        Ok(u) => Ok(u),
        Err(_) => Err(CustomError::ButtonNotFound(String::from_str("Entity urn not found"))),
    }
}

/// Where the flow goes once the member's URN is known.
#[derive(Debug, Clone, Copy, PartialEq, Eq, Structural)]
pub enum MessageRoute {
    /// The member is not a connection: nothing is sent.
    NotInPool,
    /// The profile shows no message button.
    NoMessageButton,
    /// The conversation opened on the messaging page.
    MessagingPage,
    /// The conversation opened over the profile page.
    CurrentPage,
}

/// Where the flow goes: nowhere for a member who is not a connection or
/// without a message button; else to the page that the message button
/// opened, told by its address.
pub fn message_route(in_pool: bool, message_button: bool, current_url: &str) -> (r: MessageRoute)
    ensures
        r == if !in_pool {
            MessageRoute::NotInPool
        } else if !message_button {
            MessageRoute::NoMessageButton
        } else if contains(current_url@, "messaging"@) {
            MessageRoute::MessagingPage
        } else {
            MessageRoute::CurrentPage
        },
{
    if !in_pool {
        MessageRoute::NotInPool
    } else if !message_button {
        MessageRoute::NoMessageButton
    } else {
        let u = chars_of(current_url);
        let m = chars_of("messaging");
        if contains_chars(u.as_slice(), m.as_slice()) {
            MessageRoute::MessagingPage
        } else {
            MessageRoute::CurrentPage
        }
    }
}

/// What the flow reports when it stops before sending: a success for a
/// member who is not a connection, an error without a message button.
pub fn route_outcome(route: MessageRoute) -> (r: Option<Result<String, CustomError>>)
    ensures
        route == MessageRoute::NotInPool ==> (r matches Some(Ok(m)) && m@
            == "Candidate is not in connection pool to send messages"@),
        route == MessageRoute::NoMessageButton ==> (r matches Some(Err(CustomError::ButtonNotFound(m)))
            && m@ == "Message button not found"@),
        route == MessageRoute::MessagingPage || route == MessageRoute::CurrentPage ==> r is None,
{
    match route {
        MessageRoute::NotInPool => Some(Ok(String::from_str("Candidate is not in connection pool to send messages"))),
        MessageRoute::NoMessageButton => Some(Err(CustomError::ButtonNotFound(String::from_str("Message button not found")))),
        _ => None,
    }
}

/// An InMail offer instead of a message box means the member can only be
/// reached by InMail.
pub fn inmail_needed(inmail_popup: bool) -> (r: Result<(), CustomError>)
    ensures
        inmail_popup ==> (r matches Err(CustomError::ButtonNotFound(m)) && m@ == "Inmail needed"@),
        !inmail_popup ==> r is Ok,
{
    if inmail_popup {
        Err(CustomError::ButtonNotFound(String::from_str("Inmail needed")))
    } else {
        Ok(())
    }
}

/// A candidate who replied is not written to again when the reply is to be
/// checked.
pub fn reply_check(candidate_reply: bool, check_reply: bool) -> (r: Result<(), CustomError>)
    ensures
        candidate_reply && check_reply ==> (r matches Err(CustomError::ButtonNotFound(m)) && m@
            == "Candidate replied"@),
        !(candidate_reply && check_reply) ==> r is Ok,
{
    if candidate_reply && check_reply {
        Err(CustomError::ButtonNotFound(String::from_str("Candidate replied")))
    } else {
        Ok(())
    }
}

/// Whether the candidate replied in the conversation shown on the messaging
/// page at `current_url`.
pub fn messaging_reply(current_url: &str, html: &str) -> (r: Result<bool, CustomError>)
    ensures
        contains(current_url@, "messaging/thread/new/"@) ==> r == Ok::<bool, CustomError>(false),
        !contains(current_url@, "messaging/thread/new/"@) ==> match selector_parse_error(
            "h2[id=thread-detail-jump-target]"@,
        ) {
            Some(m) => r matches Err(CustomError::SelectorError(e)) && e@ == m,
            None => match first_joined(page_texts(html@, "h2[id=thread-detail-jump-target]"@), seq![' ']) {
                None => r matches Err(CustomError::ButtonNotFound(e)) && e@ == "get_conversation_owner"@,
                Some(name) => match selector_parse_error("li.msg-s-message-list__event"@) {
                    Some(m) => r matches Err(CustomError::SelectorError(e)) && e@ == m,
                    None => match selector_parse_error("span.msg-s-message-group__name"@) {
                        Some(m) => r matches Err(CustomError::SelectorError(e)) && e@ == m,
                        None => r == Ok::<bool, CustomError>(last_from_owner_spec(html@, trim(name))),
                    },
                },
            },
        },
{
    if is_new_thread(current_url) {
        return Ok(false);
    }
    let name = match get_conversation_owner(html, "h2[id=thread-detail-jump-target]") {
        Ok(n) => n,
        Err(e) => {
            return Err(e);
        },
    };
    is_last_message_from_owner(html, name.as_str())
}

/// Whether the candidate replied in the conversation box over the profile
/// page: the conversation owner's name is read from the overlay's header,
/// the last sender from the box itself.
pub fn overlay_reply(overlay_html: &str, conversation_html: &str) -> (r: Result<bool, CustomError>)
    ensures
        match selector_parse_error("h2.msg-overlay-bubble-header__title span"@) {
            Some(m) => r matches Err(CustomError::SelectorError(e)) && e@ == m,
            None => match first_joined(page_texts(overlay_html@, "h2.msg-overlay-bubble-header__title span"@), seq![' ']) {
                None => r matches Err(CustomError::ButtonNotFound(e)) && e@ == "get_conversation_owner"@,
                Some(name) => match selector_parse_error("li.msg-s-message-list__event"@) {
                    Some(m) => r matches Err(CustomError::SelectorError(e)) && e@ == m,
                    None => match selector_parse_error("span.msg-s-message-group__name"@) {
                        Some(m) => r matches Err(CustomError::SelectorError(e)) && e@ == m,
                        None => r == Ok::<bool, CustomError>(last_from_owner_spec(conversation_html@, trim(name))),
                    },
                },
            },
        },
{
    let name = match get_conversation_owner(overlay_html, "h2.msg-overlay-bubble-header__title span") {
        Ok(n) => n,
        Err(e) => {
            return Err(e);
        },
    };
    is_last_message_from_owner(conversation_html, name.as_str())
}

/// The conversation with the member in the message overlay of the profile
/// page; the error of the search, as text, when it fails.
pub fn conversation_id_for(overlay_html: &str, entity_urn: &str) -> (r: Result<String, CustomError>)
    ensures
        match selector_parse_error("div.msg-convo-wrapper"@) {
            Some(m) => r matches Err(CustomError::ButtonNotFound(e)) && e@ == "Selector error: "@
                + crate::error::debug_text(m),
            None => match selector_parse_error("a[href^='/in/']"@) {
                Some(m) => r matches Err(CustomError::ButtonNotFound(e)) && e@ == "Selector error: "@
                    + crate::error::debug_text(m),
                None => match find_conversation_spec(overlay_html@, entity_urn@) {
                    Ok(id) => r matches Ok(s) && s@ == id,
                    Err(m) => r matches Err(CustomError::ButtonNotFound(e)) && e@ == m,
                },
            },
        },
{
    match find_conversation(overlay_html, entity_urn) {
        Ok(id) => Ok(id),
        Err(e) => Err(CustomError::ButtonNotFound(e.message())),
    }
}

/// The selector of the conversation box with the given id.
pub fn conversation_box_selector(id: &str) -> (r: String)
    ensures
        r@ == "div[id='"@ + id@ + "']"@,
{
    let mut s = String::from_str("div[id='");
    s.append(id);
    s.append("']");
    s
}

/// How the message is sent.
#[derive(Debug, Clone, Copy, PartialEq, Eq, Structural)]
pub enum SendWay {
    /// Click the send button.
    SendButton,
    /// Click the round send button of the newer message box.
    SendButtonNew,
    /// Press Enter in the message box, which the box's hint offers.
    Enter,
}

/// The way to send the message: the send button when there is one, else
/// the newer one, else Enter when the box says so; an error when none of
/// them is there.
pub fn send_way(send: bool, send_new: bool, enter_hint: bool) -> (r: Result<SendWay, CustomError>)
    ensures
        send ==> r == Ok::<SendWay, CustomError>(SendWay::SendButton),
        !send && send_new ==> r == Ok::<SendWay, CustomError>(SendWay::SendButtonNew),
        !send && !send_new && enter_hint ==> r == Ok::<SendWay, CustomError>(SendWay::Enter),
        !send && !send_new && !enter_hint ==> (r matches Err(CustomError::ButtonNotFound(m)) && m@
            == "Send button not found"@),
{
    if send {
        Ok(SendWay::SendButton)
    } else if send_new {
        Ok(SendWay::SendButtonNew)
    } else if enter_hint {
        Ok(SendWay::Enter)
    } else {
        Err(CustomError::ButtonNotFound(String::from_str("Send button not found")))
    }
}

} // verus!
