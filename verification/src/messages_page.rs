//! Reading LinkedIn's messaging pages: the messages of a conversation, its
//! owner, the open conversations, the conversation with a member, and the
//! member's URN on a profile page.
use vstd::prelude::*;
use vstd::string::*;
use crate::dom::{
    first_attr, first_attr_value, first_joined, first_joined_text, first_html, matches_or_none,
    page_attrs, page_inner_html, page_outer_html, page_serialized, page_texts, select_attrs,
    select_inner_html, select_outer_html, select_texts, selector_error, selector_parse_error, serialize_page, string_views, join_strings,
};
use crate::error::CustomError;
use crate::messaging::{InmailConversation, Message};
use crate::names::FullName;
use crate::misc::opt_view;
use crate::text::{
    chars_of, contains, contains_chars, find, find_chars, join, match_at, string_from_chars,
    sub_chars, trim, trim_str,
};
use crate::urls::{
    opt_views, urn_from_element_spec, urn_from_links_spec, urn_from_profile_links,
    extract_urn_from_element_html,
};

verus! {

/// The text nodes of an element run together and trimmed.
pub open spec fn concat_trim(ts: Seq<Seq<char>>) -> Seq<char> {
    trim(join(ts, seq![]))
}

/// The smallest of five lengths.
pub open spec fn min5(a: int, b: int, c: int, d: int, e: int) -> int {
    let ab = if a < b { a } else { b };
    let cd = if c < d { c } else { d };
    let abcd = if ab < cd { ab } else { cd };
    if abcd < e { abcd } else { e }
}

/// The five lists of a conversation's message parts: senders, times,
/// contents, sending profiles and receiving profiles.
pub type MessageParts = (
    Seq<Seq<Seq<char>>>,
    Seq<Seq<Seq<char>>>,
    Seq<Seq<Seq<char>>>,
    Seq<Option<Seq<char>>>,
    Seq<Option<Seq<char>>>,
);

/// The number of messages that the five lists give side by side.
pub open spec fn parts_len(p: MessageParts) -> int {
    min5(p.0.len() as int, p.1.len() as int, p.2.len() as int, p.3.len() as int, p.4.len() as int)
}

/// Every message read side by side has both of its profile links.
pub open spec fn parts_linked(p: MessageParts) -> bool {
    forall|k: int| 0 <= k < parts_len(p) ==> (#[trigger] p.3[k]) is Some && p.4[k] is Some
}

/// The `k`-th message of the conversation: its parts, and whether it was
/// received, that is, sent from the conversation owner's profile.
pub open spec fn message_at(m: Message, p: MessageParts, k: int, owner: Seq<char>) -> bool {
    &&& m.sender@ == concat_trim(p.0[k])
    &&& m.timestamp@ == concat_trim(p.1[k])
    &&& m.message_text@ == concat_trim(p.2[k])
    &&& m.url_send_from@ == p.3[k]->0
    &&& m.url_send_to@ == p.4[k]->0
    &&& m.received == (owner == p.3[k]->0)
}

/// The line that a message adds to the conversation's text.
pub open spec fn transcript_line(text: Seq<char>, received: bool) -> Seq<char> {
    (if received {
        "Candidate: "@
    } else {
        "Recruiter: "@
    }) + text + seq!['\n']
}

/// The conversation's text: one line per message, in order.
pub open spec fn transcript(ms: Seq<Message>) -> Seq<char>
    decreases ms.len(),
{
    if ms.len() == 0 {
        seq![]
    } else {
        transcript(ms.drop_last()) + transcript_line(ms.last().message_text@, ms.last().received)
    }
}

/// The text of each element's text nodes run together and trimmed.
fn concat_trim_text(ts: &Vec<String>) -> (r: String)
    ensures
        r@ == concat_trim(string_views(ts@)),
{
    proof {
        reveal_strlit("");
        assert(""@ =~= Seq::<char>::empty());
    }
    let joined = join_strings(ts, "");
    trim_str(joined.as_str())
}

/// The messages of a conversation read side by side from the five lists of
/// their parts, with the conversation's text appended to `full_text`.
pub fn messages_from_parts(
    senders: &Vec<Vec<String>>,
    times: &Vec<Vec<String>>,
    contents: &Vec<Vec<String>>,
    froms: &Vec<Option<String>>,
    tos: &Vec<Option<String>>,
    owner: &str,
    full_text: &mut String,
) -> (r: Vec<Message>)
    requires
        parts_linked(
            (senders.deep_view(), times.deep_view(), contents.deep_view(), froms.deep_view(), tos.deep_view()),
        ),
    ensures
        r@.len() == parts_len(
            (senders.deep_view(), times.deep_view(), contents.deep_view(), froms.deep_view(), tos.deep_view()),
        ),
        forall|k: int|
            0 <= k < r@.len() ==> #[trigger] message_at(
                r@[k],
                (senders.deep_view(), times.deep_view(), contents.deep_view(), froms.deep_view(), tos.deep_view()),
                k,
                owner@,
            ),
        final(full_text)@ == old(full_text)@ + transcript(r@),
{
    let ghost p = (senders.deep_view(), times.deep_view(), contents.deep_view(), froms.deep_view(), tos.deep_view());
    let ghost start = full_text@;
    let mut messages: Vec<Message> = Vec::new();
    let mut i: usize = 0;
    while i < senders.len() && i < times.len() && i < contents.len() && i < froms.len() && i < tos.len()
        invariant
            p == (senders.deep_view(), times.deep_view(), contents.deep_view(), froms.deep_view(), tos.deep_view()),
            parts_linked(p),
            i <= senders.len(),
            i <= times.len(),
            i <= contents.len(),
            i <= froms.len(),
            i <= tos.len(),
            p.0.len() == senders.len(),
            p.1.len() == times.len(),
            p.2.len() == contents.len(),
            p.3.len() == froms.len(),
            p.4.len() == tos.len(),
            messages@.len() == i,
            forall|k: int| 0 <= k < i ==> #[trigger] message_at(messages@[k], p, k, owner@),
            full_text@ == start + transcript(messages@),
        decreases senders.len() - i,
    {
        assert(i < parts_len(p));
        assert(p.3[i as int] is Some);
        proof {
            assert(senders@[i as int].deep_view() =~= string_views(senders@[i as int]@));
            assert(times@[i as int].deep_view() =~= string_views(times@[i as int]@));
            assert(contents@[i as int].deep_view() =~= string_views(contents@[i as int]@));
        }
        let sender = concat_trim_text(&senders[i]);
        let timestamp = concat_trim_text(&times[i]);
        let message_text = concat_trim_text(&contents[i]);
        let url_send_from = match &froms[i] {
            Some(f) => f.clone(),
            None => String::new(),
        };
        let url_send_to = match &tos[i] {
            Some(t) => t.clone(),
            None => String::new(),
        };
        let received = str_equal(owner, url_send_from.as_str());
        let label = if received {
            "Candidate: "
        } else {
            "Recruiter: "
        };
        let ghost before = full_text@;
        full_text.append(label);
        full_text.append(message_text.as_str());
        full_text.append("\n");
        proof {
            reveal_strlit("\n");
            assert("\n"@ =~= seq!['\n']);
        }
        let m = Message { message_text, sender, timestamp, url_send_from, url_send_to, received };
        let ghost prev = messages@;
        messages.push(m);
        proof {
            assert(messages@.drop_last() =~= prev);
            assert(full_text@ =~= start + transcript(prev) + transcript_line(m.message_text@, m.received));
            assert(message_at(messages@[i as int], p, i as int, owner@));
        }
        i = i + 1;
    }
    messages
}

/// Whether two texts are equal.
fn str_equal(a: &str, b: &str) -> (r: bool)
    ensures
        r == (a@ == b@),
{
    crate::text::str_eq(a, b)
}

/// The profile link of a conversation's owner in its title bar; empty when
/// there is none.
pub open spec fn owner_link_spec(owner_html: Seq<char>) -> Seq<char> {
    match first_attr(
        page_attrs(owner_html, "a.app-aware-link.msg-thread__link-to-profile"@, "href"@),
    ) {
        Some(h) => h,
        None => seq![],
    }
}

/// The five lists of message parts of a conversation's message list.
pub open spec fn message_parts(container: Seq<char>) -> MessageParts {
    (
        matches_or_none(page_texts(container, ".msg-s-message-group__meta .msg-s-message-group__profile-link"@)),
        matches_or_none(page_texts(container, ".msg-s-message-group__meta time"@)),
        matches_or_none(page_texts(container, ".msg-s-event__content p"@)),
        matches_or_none(page_attrs(container, ".msg-s-event-listitem__link[tabindex=\"0\"]"@, "href"@)),
        matches_or_none(page_attrs(container, ".msg-s-message-group__meta a"@, "href"@)),
    )
}

/// Reads a conversation: the owner's profile link from the title bar, and
/// the messages of the message list in order, each marked received when it
/// was sent from the owner's profile; each message adds a `Candidate: ` or
/// `Recruiter: ` line to `full_text`. `None`, with `full_text` unchanged,
/// when a message lacks one of its profile links.
pub fn scrap_each_message(owner_html: &str, container: &str, full_text: &mut String) -> (r: Option<(String, Vec<Message>)>)
    ensures
        parts_linked(message_parts(container@)) ==> (r matches Some(res) && res.0@ == owner_link_spec(owner_html@)
            && res.1@.len() == parts_len(message_parts(container@)) && (forall|k: int|
            0 <= k < res.1@.len() ==> #[trigger] message_at(
                res.1@[k],
                message_parts(container@),
                k,
                owner_link_spec(owner_html@),
            )) && final(full_text)@ == old(full_text)@ + transcript(res.1@)),
        !parts_linked(message_parts(container@)) ==> (r is None && final(full_text)@ == old(full_text)@),
{
    let owner = match first_attr_value(&select_attrs(owner_html, "a.app-aware-link.msg-thread__link-to-profile", "href")) {
        Some(h) => h,
        None => String::new(),
    };
    let senders = unwrap_texts(select_texts(container, ".msg-s-message-group__meta .msg-s-message-group__profile-link"));
    let times = unwrap_texts(select_texts(container, ".msg-s-message-group__meta time"));
    let contents = unwrap_texts(select_texts(container, ".msg-s-event__content p"));
    let froms = unwrap_attrs(select_attrs(container, ".msg-s-event-listitem__link[tabindex=\"0\"]", "href"));
    let tos = unwrap_attrs(select_attrs(container, ".msg-s-message-group__meta a", "href"));
    let ghost p = (senders.deep_view(), times.deep_view(), contents.deep_view(), froms.deep_view(), tos.deep_view());
    assert(p == message_parts(container@));
    let mut i: usize = 0;
    while i < senders.len() && i < times.len() && i < contents.len() && i < froms.len() && i < tos.len()
        invariant
            p == (senders.deep_view(), times.deep_view(), contents.deep_view(), froms.deep_view(), tos.deep_view()),
            p == message_parts(container@),
            i <= senders.len(),
            i <= times.len(),
            i <= contents.len(),
            i <= froms.len(),
            i <= tos.len(),
            p.0.len() == senders.len(),
            p.1.len() == times.len(),
            p.2.len() == contents.len(),
            p.3.len() == froms.len(),
            p.4.len() == tos.len(),
            forall|k: int| 0 <= k < i ==> (#[trigger] p.3[k]) is Some && p.4[k] is Some,
        decreases senders.len() - i,
    {
        if froms[i].is_none() || tos[i].is_none() {
            assert(i < parts_len(p));
            assert(!((p.3[i as int]) is Some && p.4[i as int] is Some));
            return None;
        }
        i = i + 1;
    }
    assert(i == parts_len(p));
    let messages = messages_from_parts(&senders, &times, &contents, &froms, &tos, owner.as_str(), full_text);
    Some((owner, messages))
}

/// The matches of a text query, none when its selector does not parse.
fn unwrap_texts(ms: Option<Vec<Vec<String>>>) -> (r: Vec<Vec<String>>)
    ensures
        r.deep_view() == matches_or_none(ms.deep_view()),
{
    match ms {
        Some(m) => m,
        None => {
            let v: Vec<Vec<String>> = Vec::new();
            assert(v.deep_view() =~= Seq::<Seq<Seq<char>>>::empty());
            v
        },
    }
}

/// The matches of an attribute query, none when its selector does not parse.
fn unwrap_attrs(ms: Option<Vec<Option<String>>>) -> (r: Vec<Option<String>>)
    ensures
        r.deep_view() == matches_or_none(ms.deep_view()),
{
    match ms {
        Some(m) => m,
        None => {
            let v: Vec<Option<String>> = Vec::new();
            assert(v.deep_view() =~= Seq::<Option<Seq<char>>>::empty());
            v
        },
    }
}

/// The error that an unparsable selector gives.
fn selector_failure(selector: &str) -> (r: Option<CustomError>)
    ensures
        match selector_parse_error(selector@) {
            Some(m) => r matches Some(CustomError::SelectorError(e)) && e@ == m,
            None => r is None,
        },
{
    match selector_error(selector) {
        Some(m) => Some(CustomError::SelectorError(m)),
        None => None,
    }
}

/// Reads the conversation's owner from the title bar: the text of the
/// first element that `selector` matches, its text nodes joined by spaces,
/// trimmed; an error when the selector does not parse or matches nothing.
pub fn get_conversation_owner(html: &str, selector: &str) -> (r: Result<String, CustomError>)
    ensures
        match selector_parse_error(selector@) {
            Some(m) => r matches Err(CustomError::SelectorError(e)) && e@ == m,
            None => match first_joined(page_texts(html@, selector@), seq![' ']) {
                Some(t) => r matches Ok(s) && s@ == trim(t),
                None => r matches Err(CustomError::ButtonNotFound(e)) && e@
                    == "get_conversation_owner"@,
            },
        },
{
    proof {
        reveal_strlit(" ");
        assert(" "@ =~= seq![' ']);
    }
    if let Some(e) = selector_failure(selector) {
        return Err(e);
    }
    match first_joined_text(&select_texts(html, selector), " ") {
        Some(t) => Ok(trim_str(t.as_str())),
        None => Err(CustomError::ButtonNotFound(String::from_str("get_conversation_owner"))),
    }
}

/// The close button of an open conversation bubble.
pub open spec fn close_button_selector() -> Seq<char> {
    "button[class='msg-overlay-bubble-header__control artdeco-button artdeco-button--circle artdeco-button--muted artdeco-button--1 artdeco-button--tertiary ember-view']"@
}

/// The ids that are present, in order.
pub open spec fn present_ids(ids: Seq<Option<Seq<char>>>) -> Seq<Seq<char>>
    decreases ids.len(),
{
    if ids.len() == 0 {
        seq![]
    } else {
        let rest = present_ids(ids.drop_last());
        match ids.last() {
            Some(id) => rest.push(id),
            None => rest,
        }
    }
}

/// The ids of the open conversations' close buttons, in page order; an
/// error when the selector does not parse.
pub fn get_conversation_ids(html: &str) -> (r: Result<Vec<String>, CustomError>)
    ensures
        match page_attrs(html@, close_button_selector(), "id"@) {
            Some(ids) => r matches Ok(v) && string_views(v@) == present_ids(ids),
            None => r matches Err(CustomError::SelectorError(e)) && Some(e@) == selector_parse_error(
                close_button_selector(),
            ),
        },
{
    let sel = "button[class='msg-overlay-bubble-header__control artdeco-button artdeco-button--circle artdeco-button--muted artdeco-button--1 artdeco-button--tertiary ember-view']";
    let ids = match select_attrs(html, sel, "id") {
        Some(v) => v,
        None => {
            return match selector_failure(sel) {
                Some(e) => Err(e),
                None => Ok(Vec::new()),
            };
        },
    };
    let ghost iv = ids.deep_view();
    let mut elements: Vec<String> = Vec::new();
    let mut i: usize = 0;
    while i < ids.len()
        invariant
            i <= ids.len(),
            iv == ids.deep_view(),
            iv.len() == ids.len(),
            string_views(elements@) == present_ids(iv.take(i as int)),
        decreases ids.len() - i,
    {
        proof {
            assert(iv.take(i + 1).drop_last() =~= iv.take(i as int));
            assert(iv.take(i + 1).last() == iv[i as int]);
        }
        let ghost before = string_views(elements@);
        match &ids[i] {
            Some(id) => {
                elements.push(id.clone());
                assert(string_views(elements@) =~= before.push(iv[i as int]->0));
            },
            None => {},
        }
        i = i + 1;
    }
    assert(iv.take(ids.len() as int) =~= iv);
    Ok(elements)
}

/// Whether the last message of the conversation was sent by `owner`: the
/// sender's name of the last message item, its text nodes joined by
/// spaces, holds `owner`; false without messages or without a name.
pub open spec fn last_from_owner_spec(html: Seq<char>, owner: Seq<char>) -> bool {
    let items = matches_or_none(page_outer_html(html, "li.msg-s-message-list__event"@));
    &&& items.len() > 0
    &&& first_joined(page_texts(items.last(), "span.msg-s-message-group__name"@), seq![' '])
        matches Some(name)
    &&& contains(name, owner)
}

/// Whether the last message of the conversation was sent by `owner`; an
/// error when one of its selectors does not parse.
pub fn is_last_message_from_owner(html: &str, owner: &str) -> (r: Result<bool, CustomError>)
    ensures
        match selector_parse_error("li.msg-s-message-list__event"@) {
            Some(m) => r matches Err(CustomError::SelectorError(e)) && e@ == m,
            None => match selector_parse_error("span.msg-s-message-group__name"@) {
                Some(m) => r matches Err(CustomError::SelectorError(e)) && e@ == m,
                None => r == Ok::<bool, CustomError>(last_from_owner_spec(html@, owner@)),
            },
        },
{
    proof {
        reveal_strlit(" ");
        assert(" "@ =~= seq![' ']);
    }
    if let Some(e) = selector_failure("li.msg-s-message-list__event") {
        return Err(e);
    }
    if let Some(e) = selector_failure("span.msg-s-message-group__name") {
        return Err(e);
    }
    let items = match select_outer_html(html, "li.msg-s-message-list__event") {
        Some(v) => v,
        None => Vec::new(),
    };
    assert(string_views(items@) =~= matches_or_none(page_outer_html(html@, "li.msg-s-message-list__event"@)));
    if items.len() == 0 {
        return Ok(false);
    }
    let last = &items[items.len() - 1];
    match first_joined_text(&select_texts(last.as_str(), "span.msg-s-message-group__name"), " ") {
        Some(name) => {
            let nc = chars_of(name.as_str());
            let oc = chars_of(owner);
            Ok(contains_chars(nc.as_slice(), oc.as_slice()))
        },
        None => Ok(false),
    }
}

/// Scanning the conversations from the `i`-th on, `acc` being the id found
/// so far: the id of the last conversation whose first profile link is
/// `code`, or the message of the first conversation that lacks an id, a
/// profile link, or the link's target.
pub open spec fn conversation_scan(
    ids: Seq<Option<Seq<char>>>,
    divs: Seq<Seq<char>>,
    code: Seq<char>,
    i: int,
    acc: Seq<char>,
) -> Result<Seq<char>, Seq<char>>
    decreases ids.len() - i,
{
    if i < 0 || i >= ids.len() || i >= divs.len() {
        Ok(acc)
    } else if ids[i] is None {
        Err("id = conv_div.value()"@)
    } else {
        let hrefs = matches_or_none(page_attrs(divs[i], "a[href^='/in/']"@, "href"@));
        if hrefs.len() == 0 {
            Err("href_elem = conv_div.select"@)
        } else if hrefs[0] is None {
            Err("href = href_elem.value()"@)
        } else {
            conversation_scan(
                ids,
                divs,
                code,
                i + 1,
                if hrefs[0]->0 == code {
                    ids[i]->0
                } else {
                    acc
                },
            )
        }
    }
}

/// The conversation with the member `urn`, among the conversations of the
/// page read side by side from their ids and their HTML.
pub open spec fn find_conversation_spec(html: Seq<char>, urn: Seq<char>) -> Result<Seq<char>, Seq<char>> {
    conversation_scan(
        matches_or_none(page_attrs(html, "div.msg-convo-wrapper"@, "id"@)),
        matches_or_none(page_outer_html(html, "div.msg-convo-wrapper"@)),
        "/in/"@ + urn + seq!['/'],
        0,
        seq![],
    )
}

/// Finds the id of the conversation with the member `entity_urn`: the last
/// conversation whose first profile link is `/in/<urn>/`; empty when there
/// is none; an error when a selector does not parse or a conversation lacks
/// its id or profile link.
pub fn find_conversation(html: &str, entity_urn: &str) -> (r: Result<String, CustomError>)
    ensures
        match selector_parse_error("div.msg-convo-wrapper"@) {
            Some(m) => r matches Err(CustomError::SelectorError(e)) && e@ == m,
            None => match selector_parse_error("a[href^='/in/']"@) {
                Some(m) => r matches Err(CustomError::SelectorError(e)) && e@ == m,
                None => match find_conversation_spec(html@, entity_urn@) {
                    Ok(id) => r matches Ok(s) && s@ == id,
                    Err(m) => r matches Err(CustomError::ButtonNotFound(e)) && e@ == m,
                },
            },
        },
{
    if let Some(e) = selector_failure("div.msg-convo-wrapper") {
        return Err(e);
    }
    if let Some(e) = selector_failure("a[href^='/in/']") {
        return Err(e);
    }
    let mut code = String::from_str("/in/");
    code.append(entity_urn);
    code.append("/");
    proof {
        reveal_strlit("/");
        assert("/"@ =~= seq!['/']);
    }
    let ids = unwrap_attrs(select_attrs(html, "div.msg-convo-wrapper", "id"));
    let divs = match select_outer_html(html, "div.msg-convo-wrapper") {
        Some(v) => v,
        None => Vec::new(),
    };
    let ghost iv = ids.deep_view();
    let ghost dv = string_views(divs@);
    assert(dv =~= matches_or_none(page_outer_html(html@, "div.msg-convo-wrapper"@)));
    let mut correct_div = String::new();
    let mut i: usize = 0;
    while i < ids.len() && i < divs.len()
        invariant
            iv == ids.deep_view(),
            dv == string_views(divs@),
            iv.len() == ids.len(),
            dv.len() == divs.len(),
            i <= ids.len(),
            i <= divs.len(),
            find_conversation_spec(html@, entity_urn@) == conversation_scan(iv, dv, code@, i as int, correct_div@),
            selector_parse_error("div.msg-convo-wrapper"@) is None,
            selector_parse_error("a[href^='/in/']"@) is None,
        decreases ids.len() - i,
    {
        let id = match &ids[i] {
            Some(id) => id,
            None => {
                return Err(CustomError::ButtonNotFound(String::from_str("id = conv_div.value()")));
            },
        };
        assert(divs@[i as int]@ == dv[i as int]);
        let hrefs = unwrap_attrs(select_attrs(divs[i].as_str(), "a[href^='/in/']", "href"));
        if hrefs.len() == 0 {
            return Err(CustomError::ButtonNotFound(String::from_str("href_elem = conv_div.select")));
        }
        let href = match &hrefs[0] {
            Some(h) => h,
            None => {
                return Err(CustomError::ButtonNotFound(String::from_str("href = href_elem.value()")));
            },
        };
        if str_equal(href.as_str(), code.as_str()) {
            correct_div = id.clone();
        }
        i = i + 1;
    }
    Ok(correct_div)
}

/// The `bpr-guid-` id in an element's HTML, up to the next double quote.
pub open spec fn guid_in(h: Seq<char>) -> Option<Seq<char>> {
    match find(h, "bpr-guid-"@) {
        Some(s) => match find(h.skip(s), seq!['"']) {
            Some(e) => Some(h.subrange(s, s + e)),
            None => None,
        },
        None => None,
    }
}

/// The `bpr-guid-` id in an element's HTML, up to the next double quote.
fn guid_of(h: &str) -> (r: Option<String>)
    ensures
        opt_view(r) == guid_in(h@),
{
    let v = chars_of(h);
    let marker = chars_of("bpr-guid-");
    match find_chars(v.as_slice(), marker.as_slice()) {
        None => None,
        Some(s) => {
            assert(match_at(v@, marker@, s as int));
            let rest = sub_chars(v.as_slice(), s, v.len());
            assert(rest@ =~= v@.skip(s as int));
            let quote = vec!['"'];
            assert(quote@ =~= seq!['"']);
            match find_chars(rest.as_slice(), quote.as_slice()) {
                None => None,
                Some(e) => {
                    assert(match_at(rest@, quote@, e as int));
                    let g = sub_chars(v.as_slice(), s, s + e);
                    Some(string_from_chars(g.as_slice()))
                },
            }
        },
    }
}

/// The elements with an id, from the `i`-th on, `acc` being the selector
/// found so far: the id selector `[id=<guid>]` of the last element whose id
/// holds `datalet` and whose HTML holds the profile API's path and a guid.
pub open spec fn guid_selector_from(ids: Seq<Option<Seq<char>>>, htmls: Seq<Seq<char>>, i: int, acc: Seq<char>) -> Seq<char>
    decreases ids.len() - i,
{
    if i < 0 || i >= ids.len() || i >= htmls.len() {
        acc
    } else if ids[i] matches Some(id) && contains(id, "datalet"@) && contains(
        htmls[i],
        "/voyager/api/identity/dash/profile"@,
    ) && guid_in(htmls[i]) is Some {
        guid_selector_from(ids, htmls, i + 1, "[id="@ + guid_in(htmls[i])->0 + seq![']'])
    } else {
        guid_selector_from(ids, htmls, i + 1, acc)
    }
}

/// The URN of the last of the elements whose HTML holds one, from the
/// `i`-th on, `acc` being the URN found so far.
pub open spec fn last_urn_from(htmls: Seq<Seq<char>>, i: int, acc: Seq<char>) -> Seq<char>
    decreases htmls.len() - i,
{
    if i < 0 || i >= htmls.len() {
        acc
    } else {
        last_urn_from(
            htmls,
            i + 1,
            match urn_from_element_spec(htmls[i]) {
                Some(u) => u,
                None => acc,
            },
        )
    }
}

/// The member's URN in the page data: the page data element named by the
/// last datalet's guid, and the URN written in it (empty when none is);
/// `None` when a selector does not parse.
pub open spec fn datalet_guid_urn_spec(html: Seq<char>) -> Option<Seq<char>> {
    match (page_attrs(html, "[id]"@, "id"@), page_outer_html(html, "[id]"@)) {
        (Some(ids), Some(htmls)) => match page_outer_html(html, guid_selector_from(ids, htmls, 0, seq![])) {
            Some(els) => Some(last_urn_from(els, 0, seq![])),
            None => None,
        },
        _ => None,
    }
}

/// The id selector of the last datalet that names a guid.
fn guid_selector(ids: &Vec<Option<String>>, htmls: &Vec<String>) -> (r: String)
    ensures
        r@ == guid_selector_from(ids.deep_view(), htmls.deep_view(), 0, seq![]),
{
    let ghost iv = ids.deep_view();
    let ghost hv = htmls.deep_view();
    let datalet = chars_of("datalet");
    let api = chars_of("/voyager/api/identity/dash/profile");
    let mut right_id = String::new();
    let mut i: usize = 0;
    while i < ids.len() && i < htmls.len()
        invariant
            iv == ids.deep_view(),
            hv == htmls.deep_view(),
            iv.len() == ids.len(),
            hv.len() == htmls.len(),
            datalet@ == "datalet"@,
            api@ == "/voyager/api/identity/dash/profile"@,
            guid_selector_from(iv, hv, 0, seq![]) == guid_selector_from(iv, hv, i as int, right_id@),
        decreases ids.len() - i,
    {
        assert(htmls@[i as int]@ == hv[i as int]);
        let id_ok = match &ids[i] {
            Some(id) => {
                let ic = chars_of(id.as_str());
                contains_chars(ic.as_slice(), datalet.as_slice())
            },
            None => false,
        };
        if id_ok {
            let hc = chars_of(htmls[i].as_str());
            if contains_chars(hc.as_slice(), api.as_slice()) {
                if let Some(g) = guid_of(htmls[i].as_str()) {
                    let mut sel = String::from_str("[id=");
                    sel.append(g.as_str());
                    sel.append("]");
                    proof {
                        reveal_strlit("]");
                        assert("]"@ =~= seq![']']);
                    }
                    right_id = sel;
                }
            }
        }
        i = i + 1;
    }
    right_id
}

/// The URN of the last element whose HTML holds one; empty when none does.
fn last_urn(htmls: &Vec<String>) -> (r: String)
    ensures
        r@ == last_urn_from(htmls.deep_view(), 0, seq![]),
{
    let ghost hv = htmls.deep_view();
    let mut entity_urn = String::new();
    let mut i: usize = 0;
    while i < htmls.len()
        invariant
            hv == htmls.deep_view(),
            hv.len() == htmls.len(),
            i <= htmls.len(),
            last_urn_from(hv, 0, seq![]) == last_urn_from(hv, i as int, entity_urn@),
        decreases htmls.len() - i,
    {
        assert(htmls@[i as int]@ == hv[i as int]);
        if let Some(u) = extract_urn_from_element_html(htmls[i].as_str()) {
            entity_urn = u;
        }
        i = i + 1;
    }
    entity_urn
}

/// Reads the member's URN from the page data named by the last datalet's
/// guid.
pub fn print_elements_with_datalet_in_id(html: &str) -> (r: Option<String>)
    ensures
        opt_view(r) == datalet_guid_urn_spec(html@),
{
    let ids = select_attrs(html, "[id]", "id");
    let htmls = select_outer_html(html, "[id]");
    match (ids, htmls) {
        (Some(ids), Some(htmls)) => {
            let sel = guid_selector(&ids, &htmls);
            match select_outer_html(html, sel.as_str()) {
                Some(els) => Some(last_urn(&els)),
                None => None,
            }
        },
        _ => None,
    }
}

/// The member's URN on a profile page in the message flow: from the first
/// link that carries one, else from the page data of the page as scraper
/// writes it again.
pub open spec fn message_entity_urn_spec(html: Seq<char>) -> Result<Seq<char>, Seq<char>> {
    match urn_from_links_spec(matches_or_none(page_attrs(html, "a"@, "href"@)), 0) {
        Err(m) => Err(m),
        Ok(Some(u)) => Ok(u),
        Ok(None) => match datalet_guid_urn_spec(page_serialized(html)) {
            Some(u) => Ok(u),
            None => Err("entity_urn = match print_elements_with_datalet_in_id"@),
        },
    }
}

/// Reads the member's URN from a profile page in the message flow; an
/// error when the link selector does not parse, when a link without a
/// target comes before the first link that carries a URN, or when neither
/// the links nor the page data give one.
pub fn find_entity_urn(html: &str) -> (r: Result<String, CustomError>)
    ensures
        match selector_parse_error("a"@) {
            Some(m) => r matches Err(CustomError::SelectorError(e)) && e@ == m,
            None => match message_entity_urn_spec(html@) {
                Ok(u) => r matches Ok(s) && s@ == u,
                Err(m) => r matches Err(CustomError::ButtonNotFound(e)) && e@ == m,
            },
        },
{
    if let Some(e) = selector_failure("a") {
        return Err(e);
    }
    let hrefs = unwrap_attrs(select_attrs(html, "a", "href"));
    assert(hrefs.deep_view() =~= opt_views(hrefs@));
    match urn_from_profile_links(&hrefs) {
        Err(e) => Err(e),
        Ok(Some(u)) => Ok(u),
        Ok(None) => {
            let page = serialize_page(html);
            match print_elements_with_datalet_in_id(page.as_str()) {
                Some(u) => Ok(u),
                None => Err(
                    CustomError::ButtonNotFound(
                        String::from_str("entity_urn = match print_elements_with_datalet_in_id"),
                    ),
                ),
            }
        },
    }
}

/// A message that the candidate sent in an InMail conversation, as the
/// crawler records it.
pub struct InmailMessage {
    pub message_text: String,
    pub api_key: String,
    pub first_name: String,
    pub last_name: String,
    pub conversation_url: String,
}

/// The inner HTML of the first match, or the empty text.
pub open spec fn first_inner_or_empty(html: Seq<char>, selector: Seq<char>) -> Seq<char> {
    let ms = matches_or_none(page_inner_html(html, selector));
    if ms.len() > 0 {
        ms[0]
    } else {
        seq![]
    }
}

/// The sender's name of an InMail message item.
pub open spec fn inmail_sender(item: Seq<char>) -> Seq<char> {
    first_inner_or_empty(item, "._headingText_e3b563"@)
}

/// The text of an InMail message item.
pub open spec fn inmail_text(item: Seq<char>) -> Seq<char> {
    first_inner_or_empty(item, "article[class=messaging-attributed-text-renderer]"@)
}

/// The message was sent by the candidate: the trimmed sender's name is the
/// trimmed candidate's name.
pub open spec fn from_candidate(item: Seq<char>, candidate: Seq<char>) -> bool {
    trim(candidate) == trim(inmail_sender(item))
}

/// The texts of the candidate's messages among the items, in order.
pub open spec fn candidate_texts(items: Seq<Seq<char>>, candidate: Seq<char>) -> Seq<Seq<char>>
    decreases items.len(),
{
    if items.len() == 0 {
        seq![]
    } else {
        let rest = candidate_texts(items.drop_last(), candidate);
        if from_candidate(items.last(), candidate) {
            rest.push(inmail_text(items.last()))
        } else {
            rest
        }
    }
}

/// The InMail conversation's text: a `Candidate: ` or `Recruiter: ` line for
/// each message, in order.
pub open spec fn inmail_transcript(items: Seq<Seq<char>>, candidate: Seq<char>) -> Seq<char>
    decreases items.len(),
{
    if items.len() == 0 {
        seq![]
    } else {
        inmail_transcript(items.drop_last(), candidate) + (if from_candidate(items.last(), candidate) {
            "Candidate: "@
        } else {
            "Recruiter: "@
        }) + inmail_text(items.last()) + seq![' ', '\n']
    }
}

/// The message items of an InMail conversation page.
pub open spec fn inmail_items(html: Seq<char>) -> Seq<Seq<char>> {
    matches_or_none(page_outer_html(html, "._message-list-item_1gj1uc"@))
}

/// The inner HTML of the first match, or the empty text.
fn first_inner(html: &str, selector: &str) -> (r: String)
    ensures
        r@ == first_inner_or_empty(html@, selector@),
{
    match select_inner_html(html, selector) {
        Some(ms) => {
            if ms.len() > 0 {
                ms[0].clone()
            } else {
                String::new()
            }
        },
        None => String::new(),
    }
}

/// Reads an InMail conversation: the candidate's messages, each with the
/// conversation's API key and link and the candidate's name, and the
/// conversation's text with a line per message.
pub fn scrap_message(conversation: InmailConversation, html: &str, name: &FullName) -> (r: Result<(Vec<InmailMessage>, String), CustomError>)
    ensures
        r matches Ok(res) && res.0@.len() == candidate_texts(inmail_items(html@), conversation.candidate_name@).len()
            && (forall|k: int|
            0 <= k < res.0@.len() ==> {
                let m = #[trigger] res.0@[k];
                &&& m.message_text@ == candidate_texts(inmail_items(html@), conversation.candidate_name@)[k]
                &&& m.api_key == conversation.api_key
                &&& m.first_name == name.first_name
                &&& m.last_name == name.last_name
                &&& m.conversation_url == conversation.thread_url
            }) && res.1@ == inmail_transcript(inmail_items(html@), conversation.candidate_name@),
{
    let items = match select_outer_html(html, "._message-list-item_1gj1uc") {
        Some(v) => v,
        None => Vec::new(),
    };
    let ghost iv = inmail_items(html@);
    let ghost cand = conversation.candidate_name@;
    assert(string_views(items@) =~= iv);
    let candidate = trim_str(conversation.candidate_name.as_str());
    let mut full_text = String::new();
    let mut messages: Vec<InmailMessage> = Vec::new();
    let mut i: usize = 0;
    while i < items.len()
        invariant
            string_views(items@) == iv,
            iv.len() == items.len(),
            i <= items.len(),
            candidate@ == trim(cand),
            cand == conversation.candidate_name@,
            messages@.len() == candidate_texts(iv.take(i as int), cand).len(),
            forall|k: int|
                0 <= k < messages@.len() ==> {
                    let m = #[trigger] messages@[k];
                    &&& m.message_text@ == candidate_texts(iv.take(i as int), cand)[k]
                    &&& m.api_key == conversation.api_key
                    &&& m.first_name == name.first_name
                    &&& m.last_name == name.last_name
                    &&& m.conversation_url == conversation.thread_url
                },
            full_text@ == inmail_transcript(iv.take(i as int), cand),
        decreases items.len() - i,
    {
        let item = items[i].as_str();
        proof {
            assert(item@ == iv[i as int]);
            assert(iv.take(i + 1).drop_last() =~= iv.take(i as int));
            assert(iv.take(i + 1).last() == iv[i as int]);
        }
        let sender = first_inner(item, "._headingText_e3b563");
        let text = first_inner(item, "article[class=messaging-attributed-text-renderer]");
        let sender_trimmed = trim_str(sender.as_str());
        let ghost before = full_text@;
        let ghost prev = messages@;
        if str_equal(candidate.as_str(), sender_trimmed.as_str()) {
            full_text.append("Candidate: ");
            full_text.append(text.as_str());
            full_text.append(" \n");
            messages.push(
                InmailMessage {
                    message_text: text,
                    api_key: conversation.api_key.clone(),
                    first_name: name.first_name.clone(),
                    last_name: name.last_name.clone(),
                    conversation_url: conversation.thread_url.clone(),
                },
            );
            proof {
                reveal_strlit(" \n");
                assert(" \n"@ =~= seq![' ', '\n']);
                assert(candidate_texts(iv.take(i + 1), cand) == candidate_texts(iv.take(i as int), cand).push(inmail_text(iv[i as int])));
                assert forall|k: int| 0 <= k < messages@.len() implies {
                    let m = #[trigger] messages@[k];
                    &&& m.message_text@ == candidate_texts(iv.take(i + 1), cand)[k]
                    &&& m.api_key == conversation.api_key
                    &&& m.first_name == name.first_name
                    &&& m.last_name == name.last_name
                    &&& m.conversation_url == conversation.thread_url
                } by {
                    if k < prev.len() {
                        assert(messages@[k] == prev[k]);
                    }
                }
            }
        } else {
            full_text.append("Recruiter: ");
            full_text.append(text.as_str());
            full_text.append(" \n");
            proof {
                reveal_strlit(" \n");
                assert(" \n"@ =~= seq![' ', '\n']);
            }
        }
        i = i + 1;
    }
    assert(iv.take(items.len() as int) =~= iv);
    Ok((messages, full_text))
}

/// A conversation has as many messages as the scarcest of its five parts:
/// the count is no more than any part's count and equals one of them; each
/// message is received exactly when it was sent from the owner's profile,
/// and adds a `Candidate: ` line when received, a `Recruiter: ` line when
/// not.
pub proof fn law_message_count_and_lines(p: MessageParts, m: Message, k: int, owner: Seq<char>)
    requires
        message_at(m, p, k, owner),
    ensures
        parts_len(p) <= p.0.len() && parts_len(p) <= p.1.len() && parts_len(p) <= p.2.len()
            && parts_len(p) <= p.3.len() && parts_len(p) <= p.4.len(),
        parts_len(p) == p.0.len() || parts_len(p) == p.1.len() || parts_len(p) == p.2.len()
            || parts_len(p) == p.3.len() || parts_len(p) == p.4.len(),
        m.received == (m.url_send_from@ == owner),
        transcript(seq![m]) == (if m.received { "Candidate: "@ } else { "Recruiter: "@ }) + m.message_text@
            + seq!['\n'],
{
    assert(seq![m].drop_last() =~= Seq::<Message>::empty());
    let line = transcript_line(m.message_text@, m.received);
    assert(transcript(Seq::<Message>::empty()) =~= Seq::<char>::empty());
    assert(transcript(seq![m]) == transcript(seq![m].drop_last()) + line);
    assert(Seq::<char>::empty() + line =~= line);
}

} // verus!
