//! The decisions that the browser flows take on what they read from a page:
//! whether a session is still logged in, how many candidates a search
//! reports, how many result pages there are, and what the AI's verdict on a
//! conversation means.
use vstd::prelude::*;
use vstd::string::*;
use crate::misc::{digit_value, is_digit};
use crate::text::{chars_of, contains, contains_chars, str_eq, trim, trim_chars, words, words_chars, views};

verus! {

/// The login prompts whose presence on a page shows that the session cookie
/// was not accepted.
#[derive(Debug, Clone, Copy)]
pub struct LoginMarkers {
    pub email_input: bool,
    pub email_input_another: bool,
    pub sign_in_button: bool,
    pub sign_in_main_screen: bool,
    pub sign_in_main_screen_another: bool,
}

/// The session is valid when the page shows none of the login prompts.
pub fn session_cookie_valid(m: &LoginMarkers) -> (r: bool)
    ensures
        r == !(m.email_input || m.email_input_another || m.sign_in_button
            || m.sign_in_main_screen || m.sign_in_main_screen_another),
{
    if m.email_input {
        false
    } else if m.sign_in_button {
        false
    } else if m.sign_in_main_screen {
        false
    } else if m.email_input_another {
        false
    } else if m.sign_in_main_screen_another {
        false
    } else {
        true
    }
}

/// The Recruiter session is valid unless the page's heading, trimmed, is
/// the Talent Solutions sign-in prompt.
pub fn recruiter_cookie_valid(header_text: Option<&str>) -> (r: bool)
    ensures
        r == match header_text {
            Some(t) => trim(t@) != "Sign in to LinkedIn Talent Solutions"@,
            None => true,
        },
{
    match header_text {
        Some(t) => {
            let v = chars_of(t);
            let tt = trim_chars(v.as_slice());
            let p = chars_of("Sign in to LinkedIn Talent Solutions");
            !crate::text::chars_eq(tt.as_slice(), p.as_slice())
        },
        None => true,
    }
}

/// The value of a sequence of decimal digits.
pub open spec fn digits_value(s: Seq<char>) -> int
    decreases s.len(),
{
    if s.len() == 0 {
        0
    } else {
        digits_value(s.drop_last()) * 10 + digit_value(s.last())
    }
}

pub open spec fn all_digits(s: Seq<char>) -> bool {
    forall|i: int| 0 <= i < s.len() ==> is_digit(#[trigger] s[i])
}

/// `str::parse::<i32>`: an optional sign, then one or more decimal digits,
/// the value within the range of `i32`.
pub open spec fn parse_i32_spec(s: Seq<char>) -> Option<i32> {
    if s.len() == 0 {
        None
    } else if s[0] == '-' {
        let d = s.skip(1);
        if d.len() > 0 && all_digits(d) && -digits_value(d) >= i32::MIN {
            Some((-digits_value(d)) as i32)
        } else {
            None
        }
    } else {
        let d = if s[0] == '+' {
            s.skip(1)
        } else {
            s
        };
        if d.len() > 0 && all_digits(d) && digits_value(d) <= i32::MAX {
            Some(digits_value(d) as i32)
        } else {
            None
        }
    }
}

proof fn lemma_digits_value_nonneg(s: Seq<char>)
    requires
        all_digits(s),
    ensures
        digits_value(s) >= 0,
    decreases s.len(),
{
    if s.len() > 0 {
        assert(all_digits(s.drop_last())) by {
            assert forall|i: int| 0 <= i < s.drop_last().len() implies is_digit(#[trigger] s.drop_last()[i]) by {
                assert(s.drop_last()[i] == s[i]);
            }
        }
        lemma_digits_value_nonneg(s.drop_last());
        assert(is_digit(s[s.len() - 1]));
    }
}

/// The value of the digits `s[from..]`, capped at `2^32`, and whether they
/// are all digits.
fn capped_digits(s: &[char], from: usize) -> (r: (bool, i64))
    requires
        from <= s.len(),
    ensures
        r.0 == all_digits(s@.skip(from as int)),
        0 <= r.1 <= 0x1_0000_0000,
        r.0 ==> r.1 == if digits_value(s@.skip(from as int)) >= 0x1_0000_0000 {
            0x1_0000_0000
        } else {
            digits_value(s@.skip(from as int))
        },
{
    let mut acc: i64 = 0;
    let mut i: usize = from;
    while i < s.len()
        invariant
            from <= i <= s.len(),
            0 <= acc <= 0x1_0000_0000,
            all_digits(s@.subrange(from as int, i as int)),
            acc == if digits_value(s@.subrange(from as int, i as int)) >= 0x1_0000_0000 {
                0x1_0000_0000
            } else {
                digits_value(s@.subrange(from as int, i as int))
            },
        decreases s.len() - i,
    {
        let c = s[i];
        if !('0' <= c && c <= '9') {
            proof {
                assert(s@.skip(from as int)[i - from] == c);
            }
            return (false, 0);
        }
        let ghost prev = s@.subrange(from as int, i as int);
        let d = (c as u32 - '0' as u32) as i64;
        proof {
            lemma_digits_value_nonneg(prev);
            let next = s@.subrange(from as int, i + 1);
            assert(next.drop_last() =~= prev);
            assert(next.last() == c);
            assert(all_digits(next)) by {
                assert forall|k: int| 0 <= k < next.len() implies is_digit(#[trigger] next[k]) by {
                    if k < prev.len() {
                        assert(next[k] == prev[k]);
                    }
                }
            }
            assert(digits_value(next) == digits_value(prev) * 10 + d);
        }
        if acc >= 0x1_0000_0000 {
            acc = 0x1_0000_0000;
        } else {
            acc = acc * 10 + d;
            if acc >= 0x1_0000_0000 {
                acc = 0x1_0000_0000;
            }
        }
        i = i + 1;
    }
    assert(s@.subrange(from as int, s@.len() as int) =~= s@.skip(from as int));
    (true, acc)
}

/// `str::parse::<i32>` on characters.
pub fn parse_i32_chars(s: &[char]) -> (r: Option<i32>)
    ensures
        r == parse_i32_spec(s@),
{
    if s.len() == 0 {
        return None;
    }
    if s[0] == '-' {
        let (ok, v) = capped_digits(s, 1);
        if ok && s.len() > 1 && v <= 0x8000_0000 {
            return Some((-v) as i32);
        }
        return None;
    }
    let from: usize = if s[0] == '+' {
        1
    } else {
        0
    };
    proof {
        if from == 0 {
            assert(s@.skip(0) =~= s@);
        }
    }
    let (ok, v) = capped_digits(s, from);
    if ok && s.len() > from && v <= 0x7fff_ffff {
        Some(v as i32)
    } else {
        None
    }
}

/// The decimal digits of a text, in order.
pub open spec fn digits_of(s: Seq<char>) -> Seq<char>
    decreases s.len(),
{
    if s.len() == 0 {
        seq![]
    } else if is_digit(s.last()) {
        digits_of(s.drop_last()).push(s.last())
    } else {
        digits_of(s.drop_last())
    }
}

fn digits_chars(s: &[char]) -> (r: Vec<char>)
    ensures
        r@ == digits_of(s@),
{
    let mut r: Vec<char> = Vec::new();
    let mut i: usize = 0;
    while i < s.len()
        invariant
            i <= s.len(),
            r@ == digits_of(s@.take(i as int)),
        decreases s.len() - i,
    {
        assert(s@.take(i + 1).drop_last() =~= s@.take(i as int));
        assert(s@.take(i + 1).last() == s@[i as int]);
        if '0' <= s[i] && s[i] <= '9' {
            r.push(s[i]);
        }
        i = i + 1;
    }
    assert(s@.take(s@.len() as int) =~= s@);
    r
}

/// The number of candidates that a search caption reports: 1000 when it
/// holds one of the two markers of a large count, else the number that its
/// digits form, or 1002 when they form none.
pub open spec fn candidate_count_spec(text: Seq<char>, a: char, b: char) -> i32 {
    if contains(text, seq![a]) || contains(text, seq![b]) {
        1000
    } else {
        match parse_i32_spec(trim(digits_of(text))) {
            Some(n) => n,
            None => 1002,
        }
    }
}

fn candidate_count(text: &str, a: char, b: char) -> (r: i32)
    ensures
        r == candidate_count_spec(text@, a, b),
{
    let v = chars_of(text);
    let ma = vec![a];
    let mb = vec![b];
    assert(ma@ =~= seq![a]);
    assert(mb@ =~= seq![b]);
    if contains_chars(v.as_slice(), ma.as_slice()) || contains_chars(v.as_slice(), mb.as_slice()) {
        1000
    } else {
        let d = digits_chars(v.as_slice());
        let t = trim_chars(d.as_slice());
        match parse_i32_chars(t.as_slice()) {
            Some(n) => n,
            None => 1002,
        }
    }
}

/// The candidate count of a Recruiter search caption: `M` or `K` in it means
/// at least a thousand.
pub fn recruiter_candidate_count(text: &str) -> (r: i32)
    ensures
        r == candidate_count_spec(text@, 'M', 'K'),
{
    candidate_count(text, 'M', 'K')
}

/// The candidate count of a regular search caption: a `,` or `K` in it
/// means at least a thousand.
pub fn regular_candidate_count(text: &str) -> (r: i32)
    ensures
        r == candidate_count_spec(text@, ',', 'K'),
{
    candidate_count(text, ',', 'K')
}

/// The candidate count a search reports: `caption` is `None` when the page
/// shows no count caption (1003), `Some(None)` when its text could not be
/// read (counted as the text "1001"), else the caption's text; `regular`
/// for a regular search, else a Recruiter search.
pub fn caption_count(caption: Option<Option<&str>>, regular: bool) -> (r: i32)
    ensures
        match caption {
            None => r == 1003,
            Some(None) => r == (if regular {
                candidate_count_spec("1001"@, ',', 'K')
            } else {
                candidate_count_spec("1001"@, 'M', 'K')
            }),
            Some(Some(t)) => r == (if regular {
                candidate_count_spec(t@, ',', 'K')
            } else {
                candidate_count_spec(t@, 'M', 'K')
            }),
        },
{
    match caption {
        None => 1003,
        Some(t) => {
            let text = match t {
                Some(x) => x,
                None => "1001",
            };
            if regular {
                regular_candidate_count(text)
            } else {
                recruiter_candidate_count(text)
            }
        },
    }
}

/// The number of result pages that the last pagination button's label
/// (`"Page 12"`) gives: its last word, read as a number.
pub fn pages_from_label(label: &str) -> (r: i32)
    requires
        words(label@).len() > 0,
        parse_i32_spec(words(label@).last()) is Some,
    ensures
        Some(r) == parse_i32_spec(words(label@).last()),
{
    let v = chars_of(label);
    let ws = words_chars(v.as_slice());
    let last = &ws[ws.len() - 1];
    assert(last@ == views(ws@).last());
    parse_i32_chars(last.as_slice()).unwrap()
}

/// The AI's verdict on a conversation.
#[derive(Debug, Clone, Copy, PartialEq, Eq, Structural)]
pub enum MessageCategory {
    Interested,
    NotInterested,
    NotFound,
}

/// The category that the AI service's answer names.
pub fn message_category(category: Option<&str>) -> (r: MessageCategory)
    ensures
        r == match category {
            Some(c) => if c@ == "Interested"@ {
                MessageCategory::Interested
            } else if c@ == "Not interested"@ {
                MessageCategory::NotInterested
            } else {
                MessageCategory::NotFound
            },
            None => MessageCategory::NotFound,
        },
{
    match category {
        Some(c) => if str_eq(c, "Interested") {
            MessageCategory::Interested
        } else if str_eq(c, "Not interested") {
            MessageCategory::NotInterested
        } else {
            MessageCategory::NotFound
        },
        None => MessageCategory::NotFound,
    }
}

/// What the inbox flow does with a conversation after reading it.
#[derive(Debug, Clone, Copy, PartialEq, Eq, Structural)]
pub struct InboxActions {
    /// Ask the AI for a verdict on the conversation.
    pub evaluate: bool,
    /// Mark the conversation unread again (it was unread before).
    pub mark_unread: bool,
    /// Open the conversation once more before marking it unread.
    pub reopen_before_unread: bool,
}

/// The follow-up on a conversation: an unread conversation with a new
/// message from a candidate of a sequence is given to the AI when the AI is
/// enabled; without the AI an unread conversation is marked unread again; with
/// it but without a new message it is reopened and marked unread.
pub fn inbox_actions(new_message: bool, candidate_of_sequence: Option<bool>, enable_ai: bool, unread: bool) -> (r: InboxActions)
    ensures
        r.evaluate == (new_message && candidate_of_sequence == Some(true) && enable_ai),
        r.mark_unread == (unread && (!enable_ai || !new_message)),
        r.reopen_before_unread == (enable_ai && unread && !new_message),
{
    let evaluate = new_message && candidate_of_sequence == Some(true) && enable_ai;
    let plain_unread = !enable_ai && unread;
    let reopen = enable_ai && unread && !new_message;
    InboxActions { evaluate, mark_unread: plain_unread || reopen, reopen_before_unread: reopen }
}

/// After an `Interested` verdict the conversation is starred, and an unread
/// one is reopened and marked unread again.
pub fn interested_followup(category: MessageCategory, unread: bool) -> (r: (bool, bool))
    ensures
        r.0 == (category == MessageCategory::Interested),
        r.1 == (category == MessageCategory::Interested && unread),
{
    match category {
        MessageCategory::Interested => (true, unread),
        _ => (false, false),
    }
}

} // verus!
