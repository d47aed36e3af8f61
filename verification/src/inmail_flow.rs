//! The decisions of the flow that sends an InMail from Recruiter: open the
//! member's profile, find the member's URN or the "View in Recruiter"
//! button, open the Recruiter profile, and write and send the message. As
//! in the profile flows, the browser makes one probe per stage and the
//! machine names what follows.
use vstd::prelude::*;
use vstd::string::*;
use crate::error::CustomError;

verus! {

/// A stage of the InMail flow.
#[derive(Debug, Clone, Copy, PartialEq, Eq, Structural)]
pub enum InmailStage {
    /// Load the profile; attempts 1 to 4 follow a failed load.
    Open { attempt: u8 },
    Cookie { second: bool },
    MainContainer,
    /// Read the member's URN from the main container.
    ReadUrn,
    /// Look for the "More" button; `another` for the second one.
    MoreFind { another: bool },
    MoreClick { another: bool },
    OpenRecruiter,
    /// Load the Recruiter profile again (attempts 0 to 3), which the flow
    /// does when the first load of the member's profile failed.
    ReloadRecruiter { attempt: u8 },
    ViewInRecruiter { dropdown: bool },
    RecruiterCookie { second: bool },
    Disabled,
    SendButton,
    RemoveAiText,
    Subject,
    Text,
    SendFirst,
    SendSecond,
}

/// The state of the flow: its stage, whether the member's URN was found on
/// the profile, and whether the first load of the profile failed.
#[derive(Debug, Clone, Copy, PartialEq, Eq, Structural)]
pub struct InmailState {
    pub stage: InmailStage,
    pub has_urn: bool,
    pub first_load_failed: bool,
}

/// How the InMail flow ends.
#[derive(Debug, Clone, Copy, PartialEq, Eq, Structural)]
pub enum InmailEnding {
    NotLoading,
    CookieExpired,
    MainContainerMissing,
    MoreMissing,
    MoreNotClickable,
    ViewInRecruiterMissing,
    RecruiterNotLoading,
    RecruiterCookieExpired,
    Disabled,
    SendButtonMissing,
    SubjectMissing,
    TextMissing,
    FinalSendMissing,
    Sent,
}

/// What follows a stage of the InMail flow.
#[derive(Debug, Clone, Copy, PartialEq, Eq, Structural)]
pub enum InmailNext {
    Continue(InmailState),
    Finish(InmailEnding),
}

/// The state at the start of the flow.
pub open spec fn inmail_start() -> InmailState {
    InmailState { stage: InmailStage::Open { attempt: 0 }, has_urn: false, first_load_failed: false }
}

/// What follows the state `st` when its probe succeeded (`ok`) or failed.
pub open spec fn inmail_next_spec(st: InmailState, ok: bool) -> InmailNext {
    let go = |s: InmailStage| InmailNext::Continue(InmailState { stage: s, ..st });
    match st.stage {
        InmailStage::Open { attempt } => if ok {
            go(InmailStage::Cookie { second: false })
        } else if attempt < 4 {
            InmailNext::Continue(
                InmailState { stage: InmailStage::Open { attempt: (attempt + 1) as u8 }, first_load_failed: true, ..st },
            )
        } else {
            InmailNext::Finish(InmailEnding::NotLoading)
        },
        InmailStage::Cookie { second } => if ok {
            go(InmailStage::MainContainer)
        } else if !second {
            go(InmailStage::Cookie { second: true })
        } else {
            InmailNext::Finish(InmailEnding::CookieExpired)
        },
        InmailStage::MainContainer => if ok {
            go(InmailStage::ReadUrn)
        } else {
            InmailNext::Finish(InmailEnding::MainContainerMissing)
        },
        InmailStage::ReadUrn => InmailNext::Continue(
            InmailState { stage: InmailStage::MoreFind { another: false }, has_urn: ok, ..st },
        ),
        InmailStage::MoreFind { another } => if ok {
            go(InmailStage::MoreClick { another })
        } else if !another {
            go(InmailStage::MoreFind { another: true })
        } else {
            InmailNext::Finish(InmailEnding::MoreMissing)
        },
        InmailStage::MoreClick { .. } => if !ok {
            InmailNext::Finish(InmailEnding::MoreNotClickable)
        } else if st.has_urn {
            go(InmailStage::OpenRecruiter)
        } else {
            go(InmailStage::ViewInRecruiter { dropdown: false })
        },
        InmailStage::OpenRecruiter => if st.first_load_failed {
            go(InmailStage::ReloadRecruiter { attempt: 0 })
        } else {
            go(InmailStage::RecruiterCookie { second: false })
        },
        InmailStage::ReloadRecruiter { attempt } => if ok {
            go(InmailStage::RecruiterCookie { second: false })
        } else if attempt < 3 {
            go(InmailStage::ReloadRecruiter { attempt: (attempt + 1) as u8 })
        } else {
            InmailNext::Finish(InmailEnding::RecruiterNotLoading)
        },
        InmailStage::ViewInRecruiter { dropdown } => if ok {
            go(InmailStage::RecruiterCookie { second: false })
        } else if !dropdown {
            go(InmailStage::ViewInRecruiter { dropdown: true })
        } else {
            InmailNext::Finish(InmailEnding::ViewInRecruiterMissing)
        },
        InmailStage::RecruiterCookie { second } => if ok {
            go(InmailStage::Disabled)
        } else if !second {
            go(InmailStage::RecruiterCookie { second: true })
        } else {
            InmailNext::Finish(InmailEnding::RecruiterCookieExpired)
        },
        InmailStage::Disabled => if ok {
            InmailNext::Finish(InmailEnding::Disabled)
        } else {
            go(InmailStage::SendButton)
        },
        InmailStage::SendButton => if ok {
            go(InmailStage::RemoveAiText)
        } else {
            InmailNext::Finish(InmailEnding::SendButtonMissing)
        },
        InmailStage::RemoveAiText => go(InmailStage::Subject),
        InmailStage::Subject => if ok {
            go(InmailStage::Text)
        } else {
            InmailNext::Finish(InmailEnding::SubjectMissing)
        },
        InmailStage::Text => if ok {
            go(InmailStage::SendFirst)
        } else {
            InmailNext::Finish(InmailEnding::TextMissing)
        },
        InmailStage::SendFirst => if ok {
            InmailNext::Finish(InmailEnding::Sent)
        } else {
            go(InmailStage::SendSecond)
        },
        InmailStage::SendSecond => if ok {
            InmailNext::Finish(InmailEnding::Sent)
        } else {
            InmailNext::Finish(InmailEnding::FinalSendMissing)
        },
    }
}

/// The state at the start of the flow.
pub fn inmail_start_state() -> (r: InmailState)
    ensures
        r == inmail_start(),
{
    InmailState { stage: InmailStage::Open { attempt: 0 }, has_urn: false, first_load_failed: false }
}

/// What follows a state of the InMail flow.
pub fn inmail_next(st: InmailState, ok: bool) -> (r: InmailNext)
    ensures
        r == inmail_next_spec(st, ok),
{
    let has_urn = st.has_urn;
    let first_load_failed = st.first_load_failed;
    let go = |s: InmailStage| -> (r: InmailNext)
        ensures
            r == InmailNext::Continue(InmailState { stage: s, has_urn, first_load_failed }),
        { InmailNext::Continue(InmailState { stage: s, has_urn, first_load_failed }) };
    match st.stage {
        InmailStage::Open { attempt } => if ok {
            go(InmailStage::Cookie { second: false })
        } else if attempt < 4 {
            InmailNext::Continue(
                InmailState { stage: InmailStage::Open { attempt: attempt + 1 }, has_urn, first_load_failed: true },
            )
        } else {
            InmailNext::Finish(InmailEnding::NotLoading)
        },
        InmailStage::Cookie { second } => if ok {
            go(InmailStage::MainContainer)
        } else if !second {
            go(InmailStage::Cookie { second: true })
        } else {
            InmailNext::Finish(InmailEnding::CookieExpired)
        },
        InmailStage::MainContainer => if ok {
            go(InmailStage::ReadUrn)
        } else {
            InmailNext::Finish(InmailEnding::MainContainerMissing)
        },
        InmailStage::ReadUrn => InmailNext::Continue(
            InmailState { stage: InmailStage::MoreFind { another: false }, has_urn: ok, first_load_failed },
        ),
        InmailStage::MoreFind { another } => if ok {
            go(InmailStage::MoreClick { another })
        } else if !another {
            go(InmailStage::MoreFind { another: true })
        } else {
            InmailNext::Finish(InmailEnding::MoreMissing)
        },
        InmailStage::MoreClick { .. } => if !ok {
            InmailNext::Finish(InmailEnding::MoreNotClickable)
        } else if has_urn {
            go(InmailStage::OpenRecruiter)
        } else {
            go(InmailStage::ViewInRecruiter { dropdown: false })
        },
        InmailStage::OpenRecruiter => if first_load_failed {
            go(InmailStage::ReloadRecruiter { attempt: 0 })
        } else {
            go(InmailStage::RecruiterCookie { second: false })
        },
        InmailStage::ReloadRecruiter { attempt } => if ok {
            go(InmailStage::RecruiterCookie { second: false })
        } else if attempt < 3 {
            go(InmailStage::ReloadRecruiter { attempt: attempt + 1 })
        } else {
            InmailNext::Finish(InmailEnding::RecruiterNotLoading)
        },
        InmailStage::ViewInRecruiter { dropdown } => if ok {
            go(InmailStage::RecruiterCookie { second: false })
        } else if !dropdown {
            go(InmailStage::ViewInRecruiter { dropdown: true })
        } else {
            InmailNext::Finish(InmailEnding::ViewInRecruiterMissing)
        },
        InmailStage::RecruiterCookie { second } => if ok {
            go(InmailStage::Disabled)
        } else if !second {
            go(InmailStage::RecruiterCookie { second: true })
        } else {
            InmailNext::Finish(InmailEnding::RecruiterCookieExpired)
        },
        InmailStage::Disabled => if ok {
            InmailNext::Finish(InmailEnding::Disabled)
        } else {
            go(InmailStage::SendButton)
        },
        InmailStage::SendButton => if ok {
            go(InmailStage::RemoveAiText)
        } else {
            InmailNext::Finish(InmailEnding::SendButtonMissing)
        },
        InmailStage::RemoveAiText => go(InmailStage::Subject),
        InmailStage::Subject => if ok {
            go(InmailStage::Text)
        } else {
            InmailNext::Finish(InmailEnding::SubjectMissing)
        },
        InmailStage::Text => if ok {
            go(InmailStage::SendFirst)
        } else {
            InmailNext::Finish(InmailEnding::TextMissing)
        },
        InmailStage::SendFirst => if ok {
            InmailNext::Finish(InmailEnding::Sent)
        } else {
            go(InmailStage::SendSecond)
        },
        InmailStage::SendSecond => if ok {
            InmailNext::Finish(InmailEnding::Sent)
        } else {
            InmailNext::Finish(InmailEnding::FinalSendMissing)
        },
    }
}

/// The place of a stage in the InMail flow.
pub open spec fn inmail_rank(stage: InmailStage) -> int {
    match stage {
        InmailStage::Open { attempt } => if attempt <= 4 { attempt as int } else { 4 },
        InmailStage::Cookie { second } => if second { 6 } else { 5 },
        InmailStage::MainContainer => 7,
        InmailStage::ReadUrn => 8,
        InmailStage::MoreFind { another } => if another { 10 } else { 9 },
        InmailStage::MoreClick { .. } => 11,
        InmailStage::OpenRecruiter => 12,
        InmailStage::ReloadRecruiter { attempt } => if attempt <= 3 { 13 + attempt } else { 16 },
        InmailStage::ViewInRecruiter { dropdown } => if dropdown { 13 } else { 12 },
        InmailStage::RecruiterCookie { second } => if second { 18 } else { 17 },
        InmailStage::Disabled => 19,
        InmailStage::SendButton => 20,
        InmailStage::RemoveAiText => 21,
        InmailStage::Subject => 22,
        InmailStage::Text => 23,
        InmailStage::SendFirst => 24,
        InmailStage::SendSecond => 25,
    }
}

/// Every step of the InMail flow moves to a later stage, and there are at
/// most 26 places: the flow ends within 26 probes. The Recruiter profile is
/// opened by the member's URN exactly when the profile showed one, and
/// loaded again exactly when the first load of the profile failed.
pub proof fn law_inmail_moves_forward(st: InmailState, ok: bool)
    requires
        st.stage matches InmailStage::Open { attempt } ==> attempt <= 4,
        st.stage matches InmailStage::ReloadRecruiter { attempt } ==> attempt <= 3,
    ensures
        0 <= inmail_rank(st.stage) < 26,
        inmail_next_spec(st, ok) matches InmailNext::Continue(s) ==> inmail_rank(s.stage) > inmail_rank(st.stage)
            && (s.stage matches InmailStage::Open { attempt } ==> attempt <= 4)
            && (s.stage matches InmailStage::ReloadRecruiter { attempt } ==> attempt <= 3),
        st.stage matches InmailStage::MoreClick { .. } && ok ==> (inmail_next_spec(st, ok) matches InmailNext::Continue(s)
            && (s.stage == InmailStage::OpenRecruiter <==> st.has_urn)),
        st.stage == InmailStage::OpenRecruiter ==> (inmail_next_spec(st, ok) matches InmailNext::Continue(s)
            && (s.stage == (InmailStage::ReloadRecruiter { attempt: 0 }) <==> st.first_load_failed)),
{
}

/// What the InMail flow reports at its end: the message of a success, or
/// the error.
pub open spec fn inmail_outcome_spec(e: InmailEnding, r: Result<String, CustomError>) -> bool {
    let fails = |m: Seq<char>| r matches Err(CustomError::ButtonNotFound(x)) && x@ == m;
    match e {
        InmailEnding::NotLoading => fails("Candidate page is not loading/Inmail_regular"@),
        InmailEnding::CookieExpired => r matches Err(CustomError::SessionCookieExpired),
        InmailEnding::MainContainerMissing => fails("Main container not found/Send Inmails"@),
        InmailEnding::MoreMissing => fails("More button not found"@),
        InmailEnding::MoreNotClickable => fails("More button is not clickable"@),
        InmailEnding::ViewInRecruiterMissing => fails("View in recruiter button is not found"@),
        InmailEnding::RecruiterNotLoading => fails("Candidate Recruiter page is not loading/Inmail"@),
        InmailEnding::RecruiterCookieExpired => r matches Err(CustomError::RecruiterSessionCookieExpired),
        InmailEnding::Disabled => r matches Ok(x) && x@ == "Sending Inmails is disabled for this account"@,
        InmailEnding::SendButtonMissing => fails("Send button in recruiter is not visible/Send Inmails"@),
        InmailEnding::SubjectMissing => fails("Subject input in recruiter is not visible"@),
        InmailEnding::TextMissing => fails("Text input in recruiter is not visible"@),
        InmailEnding::FinalSendMissing => fails("Send button in recruiter is not visible/Text"@),
        InmailEnding::Sent => r matches Ok(x) && x@ == "Inmail was sent"@,
    }
}

fn button_missing(m: &str) -> (r: Result<String, CustomError>)
    ensures
        r matches Err(CustomError::ButtonNotFound(x)) && x@ == m@,
{
    Err(CustomError::ButtonNotFound(String::from_str(m)))
}

/// What the InMail flow reports at its end.
pub fn inmail_outcome(e: InmailEnding) -> (r: Result<String, CustomError>)
    ensures
        inmail_outcome_spec(e, r),
{
    match e {
        InmailEnding::NotLoading => button_missing("Candidate page is not loading/Inmail_regular"),
        InmailEnding::CookieExpired => Err(CustomError::SessionCookieExpired),
        InmailEnding::MainContainerMissing => button_missing("Main container not found/Send Inmails"),
        InmailEnding::MoreMissing => button_missing("More button not found"),
        InmailEnding::MoreNotClickable => button_missing("More button is not clickable"),
        InmailEnding::ViewInRecruiterMissing => button_missing("View in recruiter button is not found"),
        InmailEnding::RecruiterNotLoading => button_missing("Candidate Recruiter page is not loading/Inmail"),
        InmailEnding::RecruiterCookieExpired => Err(CustomError::RecruiterSessionCookieExpired),
        InmailEnding::Disabled => Ok(String::from_str("Sending Inmails is disabled for this account")),
        InmailEnding::SendButtonMissing => button_missing("Send button in recruiter is not visible/Send Inmails"),
        InmailEnding::SubjectMissing => button_missing("Subject input in recruiter is not visible"),
        InmailEnding::TextMissing => button_missing("Text input in recruiter is not visible"),
        InmailEnding::FinalSendMissing => button_missing("Send button in recruiter is not visible/Text"),
        InmailEnding::Sent => Ok(String::from_str("Inmail was sent")),
    }
}

/// What the browser does at a stage of the InMail flow.
#[derive(Debug, Clone, Copy, PartialEq, Eq)]
pub enum InmailProbe {
    /// Load the member's profile.
    Load,
    /// Check that the session is logged in.
    Cookie,
    /// Reload the page, then check the session.
    RefreshedCookie,
    /// Whether an element matching the CSS selector is on the page.
    Present(&'static str),
    /// Read the member's URN from the HTML of the element matching the CSS
    /// selector; succeeds when there is one.
    ReadUrn(&'static str),
    /// In the profile's main box (which must be there), whether an element
    /// matching the CSS selector is there.
    PresentInMain(&'static str),
    /// Click the element found by the previous probe.
    ClickFound,
    /// Load the member's Recruiter profile by the URN read before.
    LoadRecruiter,
    /// Click the element matching the CSS selector, when there is one.
    Click(&'static str),
    /// Click the element matching the XPath expression, when there is one.
    ClickXPath(&'static str),
    /// Check that the Recruiter session is logged in.
    RecruiterCookie,
    /// Reload the page, then check the Recruiter session.
    RefreshedRecruiterCookie,
    /// Write the subject into the field matching the CSS selector.
    WriteSubject(&'static str),
    /// Write the message into the field matching the CSS selector.
    WriteMessage(&'static str),
}

/// The probe of each stage.
pub open spec fn inmail_probe_spec(stage: InmailStage) -> InmailProbe {
    match stage {
        InmailStage::Open { .. } => InmailProbe::Load,
        InmailStage::Cookie { second } => if second {
            InmailProbe::RefreshedCookie
        } else {
            InmailProbe::Cookie
        },
        InmailStage::MainContainer => InmailProbe::Present("div[class=application-outlet]"),
        InmailStage::ReadUrn => InmailProbe::ReadUrn("div[class=application-outlet]"),
        InmailStage::MoreFind { another } => if another {
            InmailProbe::PresentInMain("div.artdeco-dropdown.artdeco-dropdown--placement-bottom.artdeco-dropdown--justification-left.ember-view:has(>button[aria-label='More actions'].artdeco-dropdown__trigger):nth-child(3)")
        } else {
            InmailProbe::PresentInMain("button.artdeco-dropdown__trigger.artdeco-dropdown__trigger--placement-bottom.ember-view.pvs-profile-actions__action.artdeco-button.artdeco-button--secondary.artdeco-button--muted.artdeco-button--2")
        },
        InmailStage::MoreClick { .. } => InmailProbe::ClickFound,
        InmailStage::OpenRecruiter | InmailStage::ReloadRecruiter { .. } => InmailProbe::LoadRecruiter,
        InmailStage::ViewInRecruiter { dropdown } => if dropdown {
            InmailProbe::ClickXPath("(//*[contains(@class, 'artdeco-dropdown__item') and contains(@class, 'ember-view') and contains(@class, 'full-width') and contains(@class, 'display-flex') and contains(@class, 'align-items-center') and contains(@aria-label, 'profile in Recruiter')])[2]")
        } else {
            InmailProbe::Click("button[class='artdeco-button artdeco-button--2 artdeco-button--secondary ember-view pvs-profile-actions__action']")
        },
        InmailStage::RecruiterCookie { second } => if second {
            InmailProbe::RefreshedRecruiterCookie
        } else {
            InmailProbe::RecruiterCookie
        },
        InmailStage::Disabled => InmailProbe::Present("button.artdeco-button.artdeco-button--circle.artdeco-button--muted.artdeco-button--2.artdeco-button--tertiary.ember-view.profile-item-actions__item:disabled"),
        InmailStage::SendButton => InmailProbe::Click("button[class='artdeco-button artdeco-button--circle artdeco-button--muted artdeco-button--2 artdeco-button--tertiary ember-view profile-item-actions__item']"),
        InmailStage::RemoveAiText => InmailProbe::Click("button.compose-textarea-ghost-cta__button.t-14.t-black--light:not([aria-label])"),
        InmailStage::Subject => InmailProbe::WriteSubject("input[class='compose-subject__input']"),
        InmailStage::Text => InmailProbe::WriteMessage("div[class='ql-editor ql-blank']"),
        InmailStage::SendFirst | InmailStage::SendSecond => InmailProbe::Click("button[class='artdeco-button artdeco-button--2 artdeco-button--primary ember-view']"),
    }
}

/// The probe of a stage of the InMail flow.
pub fn inmail_probe(stage: InmailStage) -> (p: InmailProbe)
    ensures
        p == inmail_probe_spec(stage),
{
    match stage {
        InmailStage::Open { .. } => InmailProbe::Load,
        InmailStage::Cookie { second } => if second {
            InmailProbe::RefreshedCookie
        } else {
            InmailProbe::Cookie
        },
        InmailStage::MainContainer => InmailProbe::Present("div[class=application-outlet]"),
        InmailStage::ReadUrn => InmailProbe::ReadUrn("div[class=application-outlet]"),
        InmailStage::MoreFind { another } => if another {
            InmailProbe::PresentInMain("div.artdeco-dropdown.artdeco-dropdown--placement-bottom.artdeco-dropdown--justification-left.ember-view:has(>button[aria-label='More actions'].artdeco-dropdown__trigger):nth-child(3)")
        } else {
            InmailProbe::PresentInMain("button.artdeco-dropdown__trigger.artdeco-dropdown__trigger--placement-bottom.ember-view.pvs-profile-actions__action.artdeco-button.artdeco-button--secondary.artdeco-button--muted.artdeco-button--2")
        },
        InmailStage::MoreClick { .. } => InmailProbe::ClickFound,
        InmailStage::OpenRecruiter | InmailStage::ReloadRecruiter { .. } => InmailProbe::LoadRecruiter,
        InmailStage::ViewInRecruiter { dropdown } => if dropdown {
            InmailProbe::ClickXPath("(//*[contains(@class, 'artdeco-dropdown__item') and contains(@class, 'ember-view') and contains(@class, 'full-width') and contains(@class, 'display-flex') and contains(@class, 'align-items-center') and contains(@aria-label, 'profile in Recruiter')])[2]")
        } else {
            InmailProbe::Click("button[class='artdeco-button artdeco-button--2 artdeco-button--secondary ember-view pvs-profile-actions__action']")
        },
        InmailStage::RecruiterCookie { second } => if second {
            InmailProbe::RefreshedRecruiterCookie
        } else {
            InmailProbe::RecruiterCookie
        },
        InmailStage::Disabled => InmailProbe::Present("button.artdeco-button.artdeco-button--circle.artdeco-button--muted.artdeco-button--2.artdeco-button--tertiary.ember-view.profile-item-actions__item:disabled"),
        InmailStage::SendButton => InmailProbe::Click("button[class='artdeco-button artdeco-button--circle artdeco-button--muted artdeco-button--2 artdeco-button--tertiary ember-view profile-item-actions__item']"),
        InmailStage::RemoveAiText => InmailProbe::Click("button.compose-textarea-ghost-cta__button.t-14.t-black--light:not([aria-label])"),
        InmailStage::Subject => InmailProbe::WriteSubject("input[class='compose-subject__input']"),
        InmailStage::Text => InmailProbe::WriteMessage("div[class='ql-editor ql-blank']"),
        InmailStage::SendFirst | InmailStage::SendSecond => InmailProbe::Click("button[class='artdeco-button artdeco-button--2 artdeco-button--primary ember-view']"),
    }
}

/// The address of the member's Recruiter profile.
pub fn talent_profile_address(urn: &str) -> (r: String)
    ensures
        r@ == "https://www.linkedin.com/talent/profile/"@ + urn@ + "?trk=FLAGSHIP_VIEW_IN_RECRUITER"@,
{
    let mut s = String::from_str("https://www.linkedin.com/talent/profile/");
    s.append(urn);
    s.append("?trk=FLAGSHIP_VIEW_IN_RECRUITER");
    s
}

/// The characters of the text that lie in Unicode's basic multilingual
/// plane, in order.
pub open spec fn bmp_only(s: Seq<char>) -> Seq<char> {
    s.filter(|c: char| (c as u32) <= 0xFFFF)
}

/// The message without the characters beyond the basic multilingual plane,
/// which the InMail editor does not take.
pub fn bmp_text(message: &str) -> (r: String)
    ensures
        r@ == bmp_only(message@),
{
    let cs = crate::text::chars_of(message);
    let mut out: Vec<char> = Vec::new();
    let mut i: usize = 0;
    while i < cs.len()
        invariant
            i <= cs.len(),
            cs@ == message@,
            out@ == cs@.take(i as int).filter(|c: char| (c as u32) <= 0xFFFF),
        decreases cs.len() - i,
    {
        let c = cs[i];
        proof {
            assert(cs@.take(i + 1) =~= cs@.take(i as int).push(c));
            cs@.take(i as int).lemma_filter_push(c, |c: char| (c as u32) <= 0xFFFF);
        }
        if (c as u32) <= 0xFFFF {
            out.push(c);
        }
        i = i + 1;
    }
    assert(cs@.take(cs.len() as int) =~= cs@);
    crate::text::string_from_chars(out.as_slice())
}

} // verus!
