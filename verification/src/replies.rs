//! What the crawler does with a candidate's replies once it has read them:
//! the Recruiter stage that the candidate moves to after the classifier's
//! verdict, which conversation of the InMail inbox is opened first, and
//! which entry of a conversation's menu is clicked.
use vstd::prelude::*;
use crate::decisions::MessageCategory;
use crate::messaging::InmailConversation;
use crate::text::{trim, trim_str, str_eq};

verus! {

/// The Recruiter stage a classified conversation moves the candidate to:
/// only on a Recruiter account, and only for a conversation the classifier
/// placed.
pub open spec fn stage_change_spec(
    recruiter: bool,
    category: MessageCategory,
    interested: Seq<char>,
    not_interested: Seq<char>,
) -> Option<Seq<char>> {
    if !recruiter {
        None
    } else {
        match category {
            MessageCategory::Interested => Some(interested),
            MessageCategory::NotInterested => Some(not_interested),
            MessageCategory::NotFound => None,
        }
    }
}

/// The Recruiter stage a classified conversation moves the candidate to.
pub fn stage_change<'a>(
    recruiter: bool,
    category: MessageCategory,
    interested: &'a str,
    not_interested: &'a str,
) -> (r: Option<&'a str>)
    ensures
        match r {
            Some(s) => stage_change_spec(recruiter, category, interested@, not_interested@) == Some(s@),
            None => stage_change_spec(recruiter, category, interested@, not_interested@) is None,
        },
{
    if !recruiter {
        return None;
    }
    match category {
        MessageCategory::Interested => Some(interested),
        MessageCategory::NotInterested => Some(not_interested),
        MessageCategory::NotFound => None,
    }
}

/// Whether an entry of the stage menu names the stage, both taken without
/// the whitespace around them.
pub fn stage_matches(entry: &str, stage: &str) -> (r: bool)
    ensures
        r == (trim(entry@) == trim(stage@)),
{
    let a = trim_str(entry);
    let b = trim_str(stage);
    str_eq(a.as_str(), b.as_str())
}

/// The place of the first conversation that has been read, if any.
pub fn first_read(conversations: &Vec<InmailConversation>) -> (r: Option<usize>)
    ensures
        match r {
            Some(i) => i < conversations.len() && !conversations[i as int].unread
                && forall|j: int| 0 <= j < i ==> #[trigger] conversations[j].unread,
            None => forall|j: int| 0 <= j < conversations.len() ==> #[trigger] conversations[j].unread,
        },
{
    let mut i: usize = 0;
    while i < conversations.len()
        invariant
            i <= conversations.len(),
            forall|j: int| 0 <= j < i ==> #[trigger] conversations[j].unread,
        decreases conversations.len() - i,
    {
        if !conversations[i].unread {
            return Some(i);
        }
        i = i + 1;
    }
    None
}

/// The entry of a conversation's menu that stars it (`star`) or marks it
/// unread; the focused inbox's menu has one entry more at the top.
pub fn menu_option(star: bool, focused: bool) -> (r: &'static str)
    ensures
        r@ == (if star {
            if focused {
                "div.msg-thread-actions__dropdown-option.artdeco-dropdown__item.artdeco-dropdown__item--is-dropdown.ember-view:nth-child(3)"@
            } else {
                "div.msg-thread-actions__dropdown-option.artdeco-dropdown__item.artdeco-dropdown__item--is-dropdown.ember-view:nth-child(2)"@
            }
        } else {
            if focused {
                "div.msg-thread-actions__dropdown-option.artdeco-dropdown__item.artdeco-dropdown__item--is-dropdown.ember-view:nth-child(2)"@
            } else {
                "div.msg-thread-actions__dropdown-option.artdeco-dropdown__item.artdeco-dropdown__item--is-dropdown.ember-view:nth-child(1)"@
            }
        }),
{
    if star {
        if focused {
            "div.msg-thread-actions__dropdown-option.artdeco-dropdown__item.artdeco-dropdown__item--is-dropdown.ember-view:nth-child(3)"
        } else {
            "div.msg-thread-actions__dropdown-option.artdeco-dropdown__item.artdeco-dropdown__item--is-dropdown.ember-view:nth-child(2)"
        }
    } else {
        if focused {
            "div.msg-thread-actions__dropdown-option.artdeco-dropdown__item.artdeco-dropdown__item--is-dropdown.ember-view:nth-child(2)"
        } else {
            "div.msg-thread-actions__dropdown-option.artdeco-dropdown__item.artdeco-dropdown__item--is-dropdown.ember-view:nth-child(1)"
        }
    }
}

} // verus!
