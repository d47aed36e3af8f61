//! The conversation lists of LinkedIn's messaging page and of Recruiter's
//! InMail inbox. A conversation is kept once per id: a later entry with the
//! same id takes the place of the earlier one, as in a map keyed by id.
use vstd::prelude::*;
use vstd::string::*;
use crate::dom::{
    matches_or_none, page_attrs, page_inner_html, page_outer_html, page_texts, select_attrs,
    select_inner_html, select_outer_html, select_texts, string_views, join_strings,
};
use crate::messaging::{Conversation, InmailConversation};
use crate::text::{join, trim, trim_str};

verus! {

/// A conversation as plain values: id, thread link, candidate's name,
/// time, unread, API key and whether the assistant handles it.
pub type ConversationView = (Seq<char>, Seq<char>, Seq<char>, Seq<char>, bool, Seq<char>, bool);

pub open spec fn conversation_view(c: Conversation) -> ConversationView {
    (c.id@, c.thread_url@, c.candidate_name@, c.timestamp@, c.unread, c.api_key@, c.enable_ai)
}

pub open spec fn conversation_views(cs: Seq<Conversation>) -> Seq<ConversationView> {
    Seq::new(cs.len(), |i: int| conversation_view(cs[i]))
}

/// The place of the first entry from the `i`-th on whose id is `id`.
pub open spec fn id_index<T>(list: Seq<(Seq<char>, T)>, id: Seq<char>, i: int) -> Option<int>
    decreases list.len() - i,
{
    if i < 0 || i >= list.len() {
        None
    } else if list[i].0 == id {
        Some(i)
    } else {
        id_index(list, id, i + 1)
    }
}

/// The list with `e` put in: in the place of the entry with the same id,
/// or at the end.
pub open spec fn upsert<T>(list: Seq<(Seq<char>, T)>, e: (Seq<char>, T)) -> Seq<(Seq<char>, T)> {
    match id_index(list, e.0, 0) {
        Some(i) => list.update(i, e),
        None => list.push(e),
    }
}

proof fn lemma_id_index<T>(list: Seq<(Seq<char>, T)>, id: Seq<char>, i: int)
    requires
        0 <= i,
    ensures
        match id_index(list, id, i) {
            Some(j) => i <= j < list.len() && list[j].0 == id && forall|k: int|
                i <= k < j ==> (#[trigger] list[k]).0 != id,
            None => forall|k: int| i <= k < list.len() ==> (#[trigger] list[k]).0 != id,
        },
    decreases list.len() - i,
{
    if i < list.len() && list[i].0 != id {
        lemma_id_index(list, id, i + 1);
    }
}

/// The conversation view keyed by its id.
pub open spec fn keyed(c: ConversationView) -> (Seq<char>, ConversationView) {
    (c.0, c)
}

pub open spec fn keyed_views(cs: Seq<ConversationView>) -> Seq<(Seq<char>, ConversationView)> {
    Seq::new(cs.len(), |i: int| keyed(cs[i]))
}

/// Puts the conversation in the list: in the place of the one with the
/// same id, or at the end.
fn upsert_conversation(list: &mut Vec<Conversation>, c: Conversation)
    ensures
        keyed_views(conversation_views(final(list)@)) == upsert(
            keyed_views(conversation_views(old(list)@)),
            keyed(conversation_view(c)),
        ),
{
    let ghost kv = keyed_views(conversation_views(list@));
    proof {
        lemma_id_index(kv, c.id@, 0);
    }
    let mut i: usize = 0;
    while i < list.len()
        invariant
            kv == keyed_views(conversation_views(list@)),
            kv == keyed_views(conversation_views(old(list)@)),
            i <= list.len(),
            forall|k: int| 0 <= k < i ==> (#[trigger] kv[k]).0 != c.id@,
        decreases list.len() - i,
    {
        if crate::text::str_eq(list[i].id.as_str(), c.id.as_str()) {
            proof {
                assert(kv[i as int].0 == c.id@);
                assert(id_index(kv, c.id@, 0) == Some(i as int)) by {
                    lemma_id_index(kv, c.id@, 0);
                    if id_index(kv, c.id@, 0) is Some {
                        let j = id_index(kv, c.id@, 0)->0;
                        if j < i {
                            assert(kv[j].0 != c.id@);
                        } else if j > i {
                            assert(kv[i as int].0 != c.id@);
                        }
                    }
                }
            }
            list.set(i, c);
            assert(keyed_views(conversation_views(list@)) =~= kv.update(i as int, keyed(conversation_view(c))));
            return;
        }
        i = i + 1;
    }
    assert(id_index(kv, c.id@, 0) is None) by {
        lemma_id_index(kv, c.id@, 0);
        if id_index(kv, c.id@, 0) is Some {
            let j = id_index(kv, c.id@, 0)->0;
            assert(kv[j].0 != c.id@);
        }
    }
    list.push(c);
    assert(keyed_views(conversation_views(list@)) =~= kv.push(keyed(conversation_view(c))));
}

/// The conversation items of the messaging page and their ids, read by two
/// queries of the same selector side by side.
pub open spec fn conversation_items(html: Seq<char>) -> (Seq<Option<Seq<char>>>, Seq<Seq<char>>) {
    (
        matches_or_none(page_attrs(html, "li.msg-conversation-listitem"@, "id"@)),
        matches_or_none(page_outer_html(html, "li.msg-conversation-listitem"@)),
    )
}

/// Reading the conversation items from the `i`-th on into `acc`: each
/// needs an id; the first item without a thread link ends the list; an
/// item with a thread link needs its target, the participants' names and
/// the time. `None` when an item lacks one of these.
pub open spec fn conversation_scan(
    ids: Seq<Option<Seq<char>>>,
    items: Seq<Seq<char>>,
    i: int,
    acc: Seq<(Seq<char>, ConversationView)>,
    api_key: Seq<char>,
    regular: bool,
) -> Option<Seq<(Seq<char>, ConversationView)>>
    decreases ids.len() - i,
{
    if i < 0 || i >= ids.len() || i >= items.len() {
        Some(acc)
    } else if ids[i] is None {
        None
    } else {
        let links = matches_or_none(page_attrs(items[i], "a.msg-conversation-listitem__link"@, "href"@));
        let names = matches_or_none(page_texts(items[i], "h3.msg-conversation-listitem__participant-names"@));
        let times = matches_or_none(page_texts(items[i], "time.msg-conversation-listitem__time-stamp"@));
        let unread = matches_or_none(page_texts(items[i], ".msg-conversation-card__unread-count"@)).len() > 0;
        if links.len() == 0 {
            Some(acc)
        } else if links[0] is None || names.len() == 0 || times.len() == 0 {
            None
        } else {
            let c = (ids[i]->0, links[0]->0, join(names[0], seq![]), join(times[0], seq![]), unread, api_key, regular);
            conversation_scan(ids, items, i + 1, upsert(acc, keyed(c)), api_key, regular)
        }
    }
}

/// The conversations of the messaging page's list, as `conversation_scan`
/// reads them.
pub open spec fn conversation_list_spec(html: Seq<char>, api_key: Seq<char>, regular: bool) -> Option<Seq<(Seq<char>, ConversationView)>> {
    conversation_scan(conversation_items(html).0, conversation_items(html).1, 0, seq![], api_key, regular)
}

fn unwrap_list(ms: Option<Vec<String>>) -> (r: Vec<String>)
    ensures
        string_views(r@) == matches_or_none(ms.deep_view()),
{
    match ms {
        Some(m) => {
            assert(string_views(m@) =~= m.deep_view());
            m
        },
        None => {
            let v: Vec<String> = Vec::new();
            assert(string_views(v@) =~= Seq::<Seq<char>>::empty());
            v
        },
    }
}

fn unwrap_attr_list(ms: Option<Vec<Option<String>>>) -> (r: Vec<Option<String>>)
    ensures
        r.deep_view() == matches_or_none(ms.deep_view()),
{
    match ms {
        Some(m) => m,
        None => {
            let v: Vec<Option<String>> = Vec::new();
            assert(v.deep_view() =~= Seq::<Option<Seq<char>>>::empty());
            v
        },
    }
}

fn unwrap_text_list(ms: Option<Vec<Vec<String>>>) -> (r: Vec<Vec<String>>)
    ensures
        r.deep_view() == matches_or_none(ms.deep_view()),
{
    match ms {
        Some(m) => m,
        None => {
            let v: Vec<Vec<String>> = Vec::new();
            assert(v.deep_view() =~= Seq::<Seq<Seq<char>>>::empty());
            v
        },
    }
}

/// The text of a match's text nodes run together.
fn joined_text(ts: &Vec<String>) -> (r: String)
    ensures
        r@ == join(string_views(ts@), seq![]),
{
    proof {
        reveal_strlit("");
        assert(""@ =~= Seq::<char>::empty());
    }
    join_strings(ts, "")
}

/// Reads the messaging page's conversation list as `conversation_scan`
/// does; `None` where an item lacks a part.
fn scan_conversation_list(html: &str, api_key: &str, regular: bool) -> (r: Option<Vec<Conversation>>)
    ensures
        match conversation_list_spec(html@, api_key@, regular) {
            Some(l) => r matches Some(v) && keyed_views(conversation_views(v@)) == l,
            None => r is None,
        },
{
    let ids = unwrap_attr_list(select_attrs(html, "li.msg-conversation-listitem", "id"));
    let items = unwrap_list(select_outer_html(html, "li.msg-conversation-listitem"));
    let ghost iv = ids.deep_view();
    let ghost tv = string_views(items@);
    let mut conversations: Vec<Conversation> = Vec::new();
    let mut i: usize = 0;
    proof {
        assert(keyed_views(conversation_views(conversations@)) =~= seq![]);
    }
    while i < ids.len() && i < items.len()
        invariant
            iv == ids.deep_view(),
            tv == string_views(items@),
            iv == conversation_items(html@).0,
            tv == conversation_items(html@).1,
            iv.len() == ids.len(),
            tv.len() == items.len(),
            i <= ids.len(),
            i <= items.len(),
            conversation_list_spec(html@, api_key@, regular) == conversation_scan(
                iv,
                tv,
                i as int,
                keyed_views(conversation_views(conversations@)),
                api_key@,
                regular,
            ),
        decreases ids.len() - i,
    {
        let id = match &ids[i] {
            Some(id) => id.clone(),
            None => {
                return None;
            },
        };
        let item = items[i].as_str();
        assert(item@ == tv[i as int]);
        let links = unwrap_attr_list(select_attrs(item, "a.msg-conversation-listitem__link", "href"));
        let names = unwrap_text_list(select_texts(item, "h3.msg-conversation-listitem__participant-names"));
        let times = unwrap_text_list(select_texts(item, "time.msg-conversation-listitem__time-stamp"));
        let unread_marks = unwrap_text_list(select_texts(item, ".msg-conversation-card__unread-count"));
        if links.len() == 0 {
            return Some(conversations);
        }
        let thread_url = match &links[0] {
            Some(h) => h.clone(),
            None => {
                return None;
            },
        };
        if names.len() == 0 || times.len() == 0 {
            return None;
        }
        proof {
            assert(names@[0].deep_view() =~= string_views(names@[0]@));
            assert(times@[0].deep_view() =~= string_views(times@[0]@));
        }
        let candidate_name = joined_text(&names[0]);
        let timestamp = joined_text(&times[0]);
        let c = Conversation {
            id,
            thread_url,
            candidate_name,
            timestamp,
            unread: unread_marks.len() > 0,
            api_key: String::from_str(api_key),
            enable_ai: regular,
        };
        upsert_conversation(&mut conversations, c);
        i = i + 1;
    }
    Some(conversations)
}

/// Reads the messaging page's conversation list, one conversation per id.
/// Every item before the first without a thread link has an id, and every
/// item with a thread link has its target, names and time.
pub fn scrap_conversation_to_list(html: &str, api_key: &str, regular: bool) -> (r: Vec<Conversation>)
    requires
        conversation_list_spec(html@, api_key@, regular) is Some,
    ensures
        keyed_views(conversation_views(r@)) == conversation_list_spec(html@, api_key@, regular)->0,
{
    match scan_conversation_list(html, api_key, regular) {
        Some(v) => v,
        None => Vec::new(),
    }
}

/// Reads the messaging page's conversation list; `None` when an item lacks
/// its id, or, having a thread link, its target, names or time.
pub fn read_conversation_list(html: &str, api_key: &str, regular: bool) -> (r: Option<Vec<Conversation>>)
    ensures
        match conversation_list_spec(html@, api_key@, regular) {
            Some(l) => r matches Some(v) && keyed_views(conversation_views(v@)) == l,
            None => r is None,
        },
{
    if scan_conversation_list(html, api_key, regular).is_none() {
        return None;
    }
    Some(scrap_conversation_to_list(html, api_key, regular))
}

/// An InMail conversation as plain values: id, thread link, candidate's
/// name, unread and API key.
pub type InmailView = (Seq<char>, Seq<char>, Seq<char>, bool, Seq<char>);

pub open spec fn inmail_view(c: InmailConversation) -> InmailView {
    (c.id@, c.thread_url@, c.candidate_name@, c.unread, c.api_key@)
}

/// The InMail conversations keyed by their ids.
pub open spec fn keyed_inmails(cs: Seq<InmailConversation>) -> Seq<(Seq<char>, InmailView)> {
    Seq::new(cs.len(), |i: int| (cs[i].id@, inmail_view(cs[i])))
}

/// Puts the InMail conversation in the list: in the place of the one with
/// the same id, or at the end.
fn upsert_inmail(list: &mut Vec<InmailConversation>, c: InmailConversation)
    ensures
        keyed_inmails(final(list)@) == upsert(keyed_inmails(old(list)@), (c.id@, inmail_view(c))),
{
    let ghost kv = keyed_inmails(list@);
    proof {
        lemma_id_index(kv, c.id@, 0);
    }
    let mut i: usize = 0;
    while i < list.len()
        invariant
            kv == keyed_inmails(list@),
            kv == keyed_inmails(old(list)@),
            i <= list.len(),
            forall|k: int| 0 <= k < i ==> (#[trigger] kv[k]).0 != c.id@,
        decreases list.len() - i,
    {
        if crate::text::str_eq(list[i].id.as_str(), c.id.as_str()) {
            proof {
                assert(kv[i as int].0 == c.id@);
                assert(id_index(kv, c.id@, 0) == Some(i as int)) by {
                    lemma_id_index(kv, c.id@, 0);
                    if id_index(kv, c.id@, 0) is Some {
                        let j = id_index(kv, c.id@, 0)->0;
                        if j < i {
                            assert(kv[j].0 != c.id@);
                        } else if j > i {
                            assert(kv[i as int].0 != c.id@);
                        }
                    }
                }
            }
            list.set(i, c);
            assert(keyed_inmails(list@) =~= kv.update(i as int, (c.id@, inmail_view(c))));
            return;
        }
        i = i + 1;
    }
    assert(id_index(kv, c.id@, 0) is None) by {
        lemma_id_index(kv, c.id@, 0);
        if id_index(kv, c.id@, 0) is Some {
            let j = id_index(kv, c.id@, 0)->0;
            assert(kv[j].0 != c.id@);
        }
    }
    list.push(c);
    assert(keyed_inmails(list@) =~= kv.push((c.id@, inmail_view(c))));
}

/// The value of a card's first conversation link's attribute: `Not found`
/// without a link, `None` when the link lacks it.
pub open spec fn card_link_attr(card: Seq<char>, attr: Seq<char>) -> Option<Seq<char>> {
    let vs = matches_or_none(page_attrs(card, "._conversation-link_z8knzq"@, attr));
    if vs.len() == 0 {
        Some("Not found"@)
    } else {
        vs[0]
    }
}

/// Reading the InMail cards from the `i`-th on into `acc`: each card gives
/// the id and target of its first conversation link (`Not found` without a
/// link), its participant's name (trimmed, `Not found` without one) and
/// whether it has an unread badge. `None` when a card's link lacks its id
/// or target.
pub open spec fn inmail_scan(
    cards: Seq<Seq<char>>,
    i: int,
    acc: Seq<(Seq<char>, InmailView)>,
    api_key: Seq<char>,
) -> Option<Seq<(Seq<char>, InmailView)>>
    decreases cards.len() - i,
{
    if i < 0 || i >= cards.len() {
        Some(acc)
    } else {
        let id = card_link_attr(cards[i], "id"@);
        let url = card_link_attr(cards[i], "href"@);
        let names = matches_or_none(page_inner_html(cards[i], "._conversation-card-participant-name_z8knzq"@));
        let name = trim(if names.len() > 0 { names[0] } else { "Not found"@ });
        let unread = matches_or_none(page_texts(cards[i], "._unread-badge_z8knzq"@)).len() > 0;
        if id is None || url is None {
            None
        } else {
            inmail_scan(cards, i + 1, upsert(acc, (id->0, (id->0, url->0, name, unread, api_key))), api_key)
        }
    }
}

/// The cards of an InMail inbox page.
pub open spec fn inmail_cards(html: Seq<char>) -> Seq<Seq<char>> {
    matches_or_none(page_outer_html(html, "._card-container_z8knzq"@))
}

/// The first link attribute of a card, as `card_link_attr` says.
fn card_link_value(card: &str, attr: &str) -> (r: Option<String>)
    ensures
        opt_view_eq(r, card_link_attr(card@, attr@)),
{
    let vs = unwrap_attr_list(select_attrs(card, "._conversation-link_z8knzq", attr));
    if vs.len() == 0 {
        Some(String::from_str("Not found"))
    } else {
        match &vs[0] {
            Some(v) => Some(v.clone()),
            None => None,
        }
    }
}

/// The optional string has the given view.
pub open spec fn opt_view_eq(r: Option<String>, v: Option<Seq<char>>) -> bool {
    match r {
        Some(s) => v == Some(s@),
        None => v is None,
    }
}

/// Reads the InMail cards into `conversations` as `inmail_scan` does;
/// `false`, with the list left as it was, where a card's link lacks its id
/// or target.
fn scan_inmail_cards(html: &str, api_key: &str, conversations: &mut Vec<InmailConversation>) -> (ok: bool)
    ensures
        match inmail_scan(inmail_cards(html@), 0, keyed_inmails(old(conversations)@), api_key@) {
            Some(l) => ok && keyed_inmails(final(conversations)@) == l,
            None => !ok && final(conversations)@ == old(conversations)@,
        },
{
    let cards = unwrap_list(select_outer_html(html, "._card-container_z8knzq"));
    let ghost cv = string_views(cards@);
    let ghost start = conversations@;
    let mut out: Vec<InmailConversation> = Vec::new();
    let mut k: usize = 0;
    while k < conversations.len()
        invariant
            k <= conversations.len(),
            conversations@ == start,
            out@ == start.take(k as int),
        decreases conversations.len() - k,
    {
        out.push(conversations[k].clone_inmail());
        k = k + 1;
        assert(out@ =~= start.take(k as int));
    }
    assert(start.take(start.len() as int) =~= start);
    let mut i: usize = 0;
    while i < cards.len()
        invariant
            cv == string_views(cards@),
            cv == inmail_cards(html@),
            cv.len() == cards.len(),
            i <= cards.len(),
            conversations@ == start,
            start == old(conversations)@,
            inmail_scan(cv, 0, keyed_inmails(start), api_key@) == inmail_scan(cv, i as int, keyed_inmails(out@), api_key@),
        decreases cards.len() - i,
    {
        let card = cards[i].as_str();
        assert(card@ == cv[i as int]);
        let id = card_link_value(card, "id");
        let url = card_link_value(card, "href");
        let names = select_inner_html(card, "._conversation-card-participant-name_z8knzq");
        let names = unwrap_list(names);
        let name = if names.len() > 0 {
            trim_str(names[0].as_str())
        } else {
            trim_str("Not found")
        };
        let unread = unwrap_text_list(select_texts(card, "._unread-badge_z8knzq")).len() > 0;
        match (id, url) {
            (Some(id), Some(url)) => {
                let c = InmailConversation::new(id, url, name, unread, String::from_str(api_key));
                upsert_inmail(&mut out, c);
            },
            _ => {
                return false;
            },
        }
        i = i + 1;
    }
    *conversations = out;
    true
}

/// Reads the cards of an InMail inbox page into `conversations`, one
/// conversation per id. Every card's first conversation link, when it has
/// one, has its id and target.
pub fn scrap_conversation(html: &str, api_key: &str, conversations: &mut Vec<InmailConversation>)
    requires
        inmail_scan(inmail_cards(html@), 0, keyed_inmails(old(conversations)@), api_key@) is Some,
    ensures
        keyed_inmails(final(conversations)@) == inmail_scan(
            inmail_cards(html@),
            0,
            keyed_inmails(old(conversations)@),
            api_key@,
        )->0,
{
    scan_inmail_cards(html, api_key, conversations);
}

/// Reads the cards of an InMail inbox page into `conversations`; `false`,
/// with the list left as it was, when a card's link lacks its id or
/// target.
pub fn read_inmail_conversations(html: &str, api_key: &str, conversations: &mut Vec<InmailConversation>) -> (ok: bool)
    ensures
        match inmail_scan(inmail_cards(html@), 0, keyed_inmails(old(conversations)@), api_key@) {
            Some(l) => ok && keyed_inmails(final(conversations)@) == l,
            None => !ok && final(conversations)@ == old(conversations)@,
        },
{
    let mut probe: Vec<InmailConversation> = Vec::new();
    let ghost start = conversations@;
    let mut k: usize = 0;
    while k < conversations.len()
        invariant
            k <= conversations.len(),
            conversations@ == start,
            probe@ == start.take(k as int),
        decreases conversations.len() - k,
    {
        probe.push(conversations[k].clone_inmail());
        k = k + 1;
        assert(probe@ =~= start.take(k as int));
    }
    assert(start.take(start.len() as int) =~= start);
    if !scan_inmail_cards(html, api_key, &mut probe) {
        return false;
    }
    scrap_conversation(html, api_key, conversations);
    true
}

/// No two entries share an id.
pub open spec fn ids_distinct<T>(list: Seq<(Seq<char>, T)>) -> bool {
    forall|i: int, j: int| 0 <= i < j < list.len() ==> (#[trigger] list[i]).0 != (#[trigger] list[j]).0
}

/// Putting an entry in a list whose ids are distinct keeps them distinct;
/// afterwards the entry's id finds the entry put in, the entries of the
/// other ids stay where they were, and the list grows only by a new id.
pub proof fn law_upsert_reads_back<T>(list: Seq<(Seq<char>, T)>, e: (Seq<char>, T))
    requires
        ids_distinct(list),
    ensures
        ids_distinct(upsert(list, e)),
        id_index(upsert(list, e), e.0, 0) matches Some(j) && upsert(list, e)[j] == e,
        forall|i: int| 0 <= i < list.len() && list[i].0 != e.0 ==> #[trigger] upsert(list, e)[i] == list[i],
        upsert(list, e).len() == list.len() + if id_index(list, e.0, 0) is Some { 0int } else { 1int },
{
    lemma_id_index(list, e.0, 0);
    let u = upsert(list, e);
    match id_index(list, e.0, 0) {
        Some(j) => {
            assert(u == list.update(j, e));
            assert forall|a: int, b: int| 0 <= a < b < u.len() implies (#[trigger] u[a]).0 != (#[trigger] u[b]).0 by {
                if a == j {
                    assert(list[b].0 != list[j].0);
                } else if b == j {
                    assert(list[a].0 != list[j].0);
                }
            }
            lemma_id_index(u, e.0, 0);
            if id_index(u, e.0, 0) is Some {
                let k = id_index(u, e.0, 0)->0;
                if k != j {
                    assert(list[k].0 == e.0);
                    if k < j {
                        assert(list[k].0 != list[j].0);
                    } else {
                        assert(list[j].0 != list[k].0);
                    }
                }
            } else {
                assert(u[j].0 == e.0);
            }
        },
        None => {
            assert(u == list.push(e));
            assert forall|a: int, b: int| 0 <= a < b < u.len() implies (#[trigger] u[a]).0 != (#[trigger] u[b]).0 by {
                if b == list.len() {
                    assert(list[a].0 != e.0);
                } else {
                    assert(u[a] == list[a]);
                    assert(u[b] == list[b]);
                }
            }
            lemma_id_index(u, e.0, 0);
            if id_index(u, e.0, 0) is Some {
                let k = id_index(u, e.0, 0)->0;
                if k < list.len() {
                    assert(u[k] == list[k]);
                }
            } else {
                assert(u[list.len() as int].0 == e.0);
            }
        },
    }
}

proof fn lemma_scan_distinct(
    ids: Seq<Option<Seq<char>>>,
    items: Seq<Seq<char>>,
    i: int,
    acc: Seq<(Seq<char>, ConversationView)>,
    api_key: Seq<char>,
    regular: bool,
)
    requires
        ids_distinct(acc),
    ensures
        conversation_scan(ids, items, i, acc, api_key, regular) matches Some(l) ==> ids_distinct(l),
    decreases ids.len() - i,
{
    if 0 <= i < ids.len() && i < items.len() && ids[i] is Some {
        let links = matches_or_none(page_attrs(items[i], "a.msg-conversation-listitem__link"@, "href"@));
        let names = matches_or_none(page_texts(items[i], "h3.msg-conversation-listitem__participant-names"@));
        let times = matches_or_none(page_texts(items[i], "time.msg-conversation-listitem__time-stamp"@));
        let unread = matches_or_none(page_texts(items[i], ".msg-conversation-card__unread-count"@)).len() > 0;
        if links.len() > 0 && links[0] is Some && names.len() > 0 && times.len() > 0 {
            let c = (ids[i]->0, links[0]->0, join(names[0], seq![]), join(times[0], seq![]), unread, api_key, regular);
            law_upsert_reads_back(acc, keyed(c));
            lemma_scan_distinct(ids, items, i + 1, upsert(acc, keyed(c)), api_key, regular);
        }
    }
}

/// The conversation list read from a messaging page holds each id once.
pub proof fn law_conversation_ids_distinct(html: Seq<char>, api_key: Seq<char>, regular: bool)
    ensures
        conversation_list_spec(html, api_key, regular) matches Some(l) ==> ids_distinct(l),
{
    lemma_scan_distinct(
        conversation_items(html).0,
        conversation_items(html).1,
        0,
        seq![],
        api_key,
        regular,
    );
}

/// Reading InMail cards into a list whose ids are distinct keeps them
/// distinct.
pub proof fn law_inmail_ids_distinct(cards: Seq<Seq<char>>, i: int, acc: Seq<(Seq<char>, InmailView)>, api_key: Seq<char>)
    requires
        ids_distinct(acc),
    ensures
        inmail_scan(cards, i, acc, api_key) matches Some(l) ==> ids_distinct(l),
    decreases cards.len() - i,
{
    if 0 <= i < cards.len() {
        let id = card_link_attr(cards[i], "id"@);
        let url = card_link_attr(cards[i], "href"@);
        let names = matches_or_none(page_inner_html(cards[i], "._conversation-card-participant-name_z8knzq"@));
        let name = trim(if names.len() > 0 { names[0] } else { "Not found"@ });
        let unread = matches_or_none(page_texts(cards[i], "._unread-badge_z8knzq"@)).len() > 0;
        if id is Some && url is Some {
            let e = (id->0, (id->0, url->0, name, unread, api_key));
            law_upsert_reads_back(acc, e);
            law_inmail_ids_distinct(cards, i + 1, upsert(acc, e), api_key);
        }
    }
}

} // verus!
