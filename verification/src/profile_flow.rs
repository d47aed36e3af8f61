//! The decisions of the two flows that act on a member's profile page:
//! sending a connection request with a note, and withdrawing a pending
//! request. The flow is a machine: at each stage the browser makes one
//! probe (load the page, check the session, look for or click an element)
//! and reports whether it succeeded; the machine names the next stage or
//! the ending. The browser work itself stays with the caller.
use vstd::prelude::*;
use vstd::string::*;
use crate::error::CustomError;

verus! {

/// Which of the two flows runs.
#[derive(Debug, Clone, Copy, PartialEq, Eq, Structural)]
pub enum FlowKind {
    Connect,
    Withdraw,
}

/// A stage of the flow.
#[derive(Debug, Clone, Copy, PartialEq, Eq, Structural)]
pub enum Stage {
    /// Load the profile; attempts 1 to 4 follow a failed load.
    Open { attempt: u8 },
    /// Check the session after loading; `second` after a refresh.
    Cookie { second: bool },
    MainContainer,
    PageNotFound,
    /// Check the session again once the page is known to exist.
    CookieAgain { second: bool },
    /// Open the profile's "More" menu; `another` with the second button.
    More { another: bool },
    InPool,
    /// A pending request shown on the page or, `dropdown`, in the menu.
    Pending { dropdown: bool },
    Connect { dropdown: bool },
    PopupHow,
    PopupConnect,
    EmailNeeded,
    AddNote,
    NoteInput,
    SendNote,
    PendingAfter { dropdown: bool },
    Limit,
    /// Click the pending request to withdraw it.
    PendingClick { dropdown: bool },
    WithdrawPopup,
    VerifyProfile,
    NotNow,
}

/// How the flow ends.
#[derive(Debug, Clone, Copy, PartialEq, Eq, Structural)]
pub enum Ending {
    NotLoading,
    CookieExpired,
    MainContainerMissing,
    PageMissing,
    MoreMissing,
    InPool,
    Pending,
    ConnectMissing,
    PopupConnectMissing,
    EmailNeeded,
    AddNoteMissing,
    TextInputMissing,
    SendMissing,
    SentPending,
    Limit,
    Sent,
    PendingMissing,
    WithdrawPopupMissing,
    NotNowMissing,
    Withdrawn,
}

/// What follows a stage.
#[derive(Debug, Clone, Copy, PartialEq, Eq, Structural)]
pub enum Next {
    Continue(Stage),
    Finish(Ending),
}

/// The stages shared by both flows, up to the "More" menu and the check
/// whether the member is already a connection.
pub open spec fn common_next(kind: FlowKind, stage: Stage, ok: bool) -> Next {
    match stage {
        Stage::Open { attempt } => if ok {
            Next::Continue(Stage::Cookie { second: false })
        } else if attempt < 4 {
            Next::Continue(Stage::Open { attempt: (attempt + 1) as u8 })
        } else {
            Next::Finish(Ending::NotLoading)
        },
        Stage::Cookie { second } => if ok {
            Next::Continue(Stage::MainContainer)
        } else if !second {
            Next::Continue(Stage::Cookie { second: true })
        } else {
            Next::Finish(Ending::CookieExpired)
        },
        Stage::MainContainer => if ok {
            Next::Continue(Stage::PageNotFound)
        } else {
            Next::Finish(Ending::MainContainerMissing)
        },
        Stage::PageNotFound => if ok {
            Next::Finish(Ending::PageMissing)
        } else {
            Next::Continue(Stage::CookieAgain { second: false })
        },
        Stage::CookieAgain { second } => if ok {
            Next::Continue(Stage::More { another: false })
        } else if !second {
            Next::Continue(Stage::CookieAgain { second: true })
        } else {
            Next::Finish(Ending::CookieExpired)
        },
        Stage::More { another } => if ok {
            Next::Continue(Stage::InPool)
        } else if !another {
            Next::Continue(Stage::More { another: true })
        } else {
            Next::Finish(Ending::MoreMissing)
        },
        _ => if ok {
            Next::Finish(Ending::InPool)
        } else {
            match kind {
                FlowKind::Connect => Next::Continue(Stage::Pending { dropdown: false }),
                FlowKind::Withdraw => Next::Continue(Stage::PendingClick { dropdown: false }),
            }
        },
    }
}

/// The stages of the connection request, after the common ones.
pub open spec fn connect_next(stage: Stage, ok: bool) -> Next {
    match stage {
        Stage::Pending { dropdown } => if ok {
            Next::Finish(Ending::Pending)
        } else if !dropdown {
            Next::Continue(Stage::Pending { dropdown: true })
        } else {
            Next::Continue(Stage::Connect { dropdown: false })
        },
        Stage::Connect { dropdown } => if ok {
            Next::Continue(Stage::PopupHow)
        } else if !dropdown {
            Next::Continue(Stage::Connect { dropdown: true })
        } else {
            Next::Finish(Ending::ConnectMissing)
        },
        Stage::PopupHow => if ok {
            Next::Continue(Stage::PopupConnect)
        } else {
            Next::Continue(Stage::EmailNeeded)
        },
        Stage::PopupConnect => if ok {
            Next::Continue(Stage::EmailNeeded)
        } else {
            Next::Finish(Ending::PopupConnectMissing)
        },
        Stage::EmailNeeded => if ok {
            Next::Finish(Ending::EmailNeeded)
        } else {
            Next::Continue(Stage::AddNote)
        },
        Stage::AddNote => if ok {
            Next::Continue(Stage::NoteInput)
        } else {
            Next::Finish(Ending::AddNoteMissing)
        },
        Stage::NoteInput => if ok {
            Next::Continue(Stage::SendNote)
        } else {
            Next::Finish(Ending::TextInputMissing)
        },
        Stage::SendNote => if ok {
            Next::Continue(Stage::PendingAfter { dropdown: false })
        } else {
            Next::Finish(Ending::SendMissing)
        },
        Stage::PendingAfter { dropdown } => if ok {
            Next::Finish(Ending::SentPending)
        } else if !dropdown {
            Next::Continue(Stage::PendingAfter { dropdown: true })
        } else {
            Next::Continue(Stage::Limit)
        },
        _ => if ok {
            Next::Finish(Ending::Limit)
        } else {
            Next::Finish(Ending::Sent)
        },
    }
}

/// The stages of the withdrawal, after the common ones.
pub open spec fn withdraw_next(stage: Stage, ok: bool) -> Next {
    match stage {
        Stage::PendingClick { dropdown } => if ok {
            Next::Continue(Stage::WithdrawPopup)
        } else if !dropdown {
            Next::Continue(Stage::PendingClick { dropdown: true })
        } else {
            Next::Finish(Ending::PendingMissing)
        },
        Stage::WithdrawPopup => if ok {
            Next::Continue(Stage::VerifyProfile)
        } else {
            Next::Finish(Ending::WithdrawPopupMissing)
        },
        Stage::VerifyProfile => if ok {
            Next::Continue(Stage::NotNow)
        } else {
            Next::Finish(Ending::Withdrawn)
        },
        _ => if ok {
            Next::Finish(Ending::Withdrawn)
        } else {
            Next::Finish(Ending::NotNowMissing)
        },
    }
}

/// The stages that both flows share.
pub open spec fn is_common(stage: Stage) -> bool {
    match stage {
        Stage::Open { .. } | Stage::Cookie { .. } | Stage::MainContainer | Stage::PageNotFound
        | Stage::CookieAgain { .. } | Stage::More { .. } | Stage::InPool => true,
        _ => false,
    }
}

/// The stages of the connection request alone.
pub open spec fn is_connect_stage(stage: Stage) -> bool {
    match stage {
        Stage::Pending { .. } | Stage::Connect { .. } | Stage::PopupHow | Stage::PopupConnect
        | Stage::EmailNeeded | Stage::AddNote | Stage::NoteInput | Stage::SendNote
        | Stage::PendingAfter { .. } | Stage::Limit => true,
        _ => false,
    }
}

/// What follows `stage` in the flow `kind` when its probe succeeded (`ok`)
/// or failed. A stage of the other flow ends the flow as its last check
/// would.
pub open spec fn next_spec(kind: FlowKind, stage: Stage, ok: bool) -> Next {
    if is_common(stage) {
        common_next(kind, stage, ok)
    } else if is_connect_stage(stage) {
        connect_next(stage, ok)
    } else {
        withdraw_next(stage, ok)
    }
}

/// The stage that follows `stage` in the flow `kind`, or the ending.
pub fn next_stage(kind: FlowKind, stage: Stage, ok: bool) -> (r: Next)
    ensures
        r == next_spec(kind, stage, ok),
{
    match stage {
        Stage::Open { attempt } => if ok {
            Next::Continue(Stage::Cookie { second: false })
        } else if attempt < 4 {
            Next::Continue(Stage::Open { attempt: attempt + 1 })
        } else {
            Next::Finish(Ending::NotLoading)
        },
        Stage::Cookie { second } => if ok {
            Next::Continue(Stage::MainContainer)
        } else if !second {
            Next::Continue(Stage::Cookie { second: true })
        } else {
            Next::Finish(Ending::CookieExpired)
        },
        Stage::MainContainer => if ok {
            Next::Continue(Stage::PageNotFound)
        } else {
            Next::Finish(Ending::MainContainerMissing)
        },
        Stage::PageNotFound => if ok {
            Next::Finish(Ending::PageMissing)
        } else {
            Next::Continue(Stage::CookieAgain { second: false })
        },
        Stage::CookieAgain { second } => if ok {
            Next::Continue(Stage::More { another: false })
        } else if !second {
            Next::Continue(Stage::CookieAgain { second: true })
        } else {
            Next::Finish(Ending::CookieExpired)
        },
        Stage::More { another } => if ok {
            Next::Continue(Stage::InPool)
        } else if !another {
            Next::Continue(Stage::More { another: true })
        } else {
            Next::Finish(Ending::MoreMissing)
        },
        Stage::InPool => if ok {
            Next::Finish(Ending::InPool)
        } else {
            match kind {
                FlowKind::Connect => Next::Continue(Stage::Pending { dropdown: false }),
                FlowKind::Withdraw => Next::Continue(Stage::PendingClick { dropdown: false }),
            }
        },
        Stage::Pending { dropdown } => if ok {
            Next::Finish(Ending::Pending)
        } else if !dropdown {
            Next::Continue(Stage::Pending { dropdown: true })
        } else {
            Next::Continue(Stage::Connect { dropdown: false })
        },
        Stage::Connect { dropdown } => if ok {
            Next::Continue(Stage::PopupHow)
        } else if !dropdown {
            Next::Continue(Stage::Connect { dropdown: true })
        } else {
            Next::Finish(Ending::ConnectMissing)
        },
        Stage::PopupHow => if ok {
            Next::Continue(Stage::PopupConnect)
        } else {
            Next::Continue(Stage::EmailNeeded)
        },
        Stage::PopupConnect => if ok {
            Next::Continue(Stage::EmailNeeded)
        } else {
            Next::Finish(Ending::PopupConnectMissing)
        },
        Stage::EmailNeeded => if ok {
            Next::Finish(Ending::EmailNeeded)
        } else {
            Next::Continue(Stage::AddNote)
        },
        Stage::AddNote => if ok {
            Next::Continue(Stage::NoteInput)
        } else {
            Next::Finish(Ending::AddNoteMissing)
        },
        Stage::NoteInput => if ok {
            Next::Continue(Stage::SendNote)
        } else {
            Next::Finish(Ending::TextInputMissing)
        },
        Stage::SendNote => if ok {
            Next::Continue(Stage::PendingAfter { dropdown: false })
        } else {
            Next::Finish(Ending::SendMissing)
        },
        Stage::PendingAfter { dropdown } => if ok {
            Next::Finish(Ending::SentPending)
        } else if !dropdown {
            Next::Continue(Stage::PendingAfter { dropdown: true })
        } else {
            Next::Continue(Stage::Limit)
        },
        Stage::Limit => if ok {
            Next::Finish(Ending::Limit)
        } else {
            Next::Finish(Ending::Sent)
        },
        Stage::PendingClick { dropdown } => if ok {
            Next::Continue(Stage::WithdrawPopup)
        } else if !dropdown {
            Next::Continue(Stage::PendingClick { dropdown: true })
        } else {
            Next::Finish(Ending::PendingMissing)
        },
        Stage::WithdrawPopup => if ok {
            Next::Continue(Stage::VerifyProfile)
        } else {
            Next::Finish(Ending::WithdrawPopupMissing)
        },
        Stage::VerifyProfile => if ok {
            Next::Continue(Stage::NotNow)
        } else {
            Next::Finish(Ending::Withdrawn)
        },
        Stage::NotNow => if ok {
            Next::Finish(Ending::Withdrawn)
        } else {
            Next::Finish(Ending::NotNowMissing)
        },
    }
}

/// The place of a stage in the flow: every step moves to a later place.
pub open spec fn rank(stage: Stage) -> int {
    match stage {
        Stage::Open { attempt } => if attempt <= 4 { attempt as int } else { 4 },
        Stage::Cookie { second } => if second { 6 } else { 5 },
        Stage::MainContainer => 7,
        Stage::PageNotFound => 8,
        Stage::CookieAgain { second } => if second { 10 } else { 9 },
        Stage::More { another } => if another { 12 } else { 11 },
        Stage::InPool => 13,
        Stage::Pending { dropdown } => if dropdown { 15 } else { 14 },
        Stage::Connect { dropdown } => if dropdown { 17 } else { 16 },
        Stage::PopupHow => 18,
        Stage::PopupConnect => 19,
        Stage::EmailNeeded => 20,
        Stage::AddNote => 21,
        Stage::NoteInput => 22,
        Stage::SendNote => 23,
        Stage::PendingAfter { dropdown } => if dropdown { 25 } else { 24 },
        Stage::Limit => 26,
        Stage::PendingClick { dropdown } => if dropdown { 15 } else { 14 },
        Stage::WithdrawPopup => 16,
        Stage::VerifyProfile => 17,
        Stage::NotNow => 18,
    }
}

/// Every step of either flow moves to a later stage, and there are at most
/// 27 places: from any stage the flow ends within 27 probes.
pub proof fn law_flow_moves_forward(kind: FlowKind, stage: Stage, ok: bool)
    requires
        stage matches Stage::Open { attempt } ==> attempt <= 4,
    ensures
        0 <= rank(stage) < 27,
        next_spec(kind, stage, ok) matches Next::Continue(s) ==> rank(s) > rank(stage) && (
        s matches Stage::Open { attempt } ==> attempt <= 4),
{
}

/// Each ending of either flow comes from exactly one kind of probe: the
/// email asked for in the invitation ends the request ("Email needed"), a
/// pending request shown after sending ends it as sent and pending, the
/// weekly limit shown or not after sending ends it as limited or sent, and
/// each missing element ends the flow at the stage that looks for it.
pub proof fn law_each_ending_has_its_stage(kind: FlowKind, stage: Stage, ok: bool)
    ensures
        (next_spec(kind, stage, ok) == Next::Finish(Ending::NotLoading)) <==> (
        stage matches Stage::Open { attempt } && attempt >= 4 && !ok),
        (next_spec(kind, stage, ok) == Next::Finish(Ending::CookieExpired)) <==> ((stage
            == Stage::Cookie { second: true } || stage == Stage::CookieAgain { second: true }) && !ok),
        (next_spec(kind, stage, ok) == Next::Finish(Ending::MainContainerMissing)) <==> (stage
            == Stage::MainContainer && !ok),
        (next_spec(kind, stage, ok) == Next::Finish(Ending::PageMissing)) <==> (stage
            == Stage::PageNotFound && ok),
        (next_spec(kind, stage, ok) == Next::Finish(Ending::MoreMissing)) <==> (stage
            == Stage::More { another: true } && !ok),
        (next_spec(kind, stage, ok) == Next::Finish(Ending::InPool)) <==> (stage == Stage::InPool
            && ok),
        (next_spec(kind, stage, ok) == Next::Finish(Ending::Pending)) <==> (stage is Pending && ok),
        (next_spec(kind, stage, ok) == Next::Finish(Ending::ConnectMissing)) <==> (stage
            == Stage::Connect { dropdown: true } && !ok),
        (next_spec(kind, stage, ok) == Next::Finish(Ending::PopupConnectMissing)) <==> (stage
            == Stage::PopupConnect && !ok),
        (next_spec(kind, stage, ok) == Next::Finish(Ending::EmailNeeded)) <==> (stage
            == Stage::EmailNeeded && ok),
        (next_spec(kind, stage, ok) == Next::Finish(Ending::AddNoteMissing)) <==> (stage
            == Stage::AddNote && !ok),
        (next_spec(kind, stage, ok) == Next::Finish(Ending::TextInputMissing)) <==> (stage
            == Stage::NoteInput && !ok),
        (next_spec(kind, stage, ok) == Next::Finish(Ending::SendMissing)) <==> (stage
            == Stage::SendNote && !ok),
        (next_spec(kind, stage, ok) == Next::Finish(Ending::SentPending)) <==> (stage is PendingAfter
            && ok),
        (next_spec(kind, stage, ok) == Next::Finish(Ending::Limit)) <==> (stage == Stage::Limit && ok),
        (next_spec(kind, stage, ok) == Next::Finish(Ending::Sent)) <==> (stage == Stage::Limit && !ok),
        (next_spec(kind, stage, ok) == Next::Finish(Ending::PendingMissing)) <==> (stage
            == Stage::PendingClick { dropdown: true } && !ok),
        (next_spec(kind, stage, ok) == Next::Finish(Ending::WithdrawPopupMissing)) <==> (stage
            == Stage::WithdrawPopup && !ok),
        (next_spec(kind, stage, ok) == Next::Finish(Ending::Withdrawn)) <==> ((stage
            == Stage::VerifyProfile && !ok) || (stage == Stage::NotNow && ok)),
        (next_spec(kind, stage, ok) == Next::Finish(Ending::NotNowMissing)) <==> (stage
            == Stage::NotNow && !ok),
{
}

/// In the connection request, a popup that asks for the member's email
/// stops the flow: the request is not sent and "Email needed" is reported;
/// without that popup the note is added next.
pub proof fn law_email_popup_stops_the_request(kind: FlowKind, ok: bool)
    ensures
        next_spec(kind, Stage::EmailNeeded, ok) == if ok {
            Next::Finish(Ending::EmailNeeded)
        } else {
            Next::Continue(Stage::AddNote)
        },
        ok ==> next_spec(kind, Stage::EmailNeeded, ok) != Next::Continue(Stage::AddNote),
{
}

/// The end of a flow as its caller carries it out: the result to report,
/// the reason of the screenshot sent first (if any), and whether the
/// browser is closed.
pub struct Outcome {
    pub result: Result<String, CustomError>,
    pub screenshot: Option<String>,
    pub quit: bool,
}

/// The name under which the flow reports its screenshots.
pub open spec fn flow_label(kind: FlowKind) -> Seq<char> {
    match kind {
        FlowKind::Connect => "Send connection"@,
        FlowKind::Withdraw => "Withdraw connection"@,
    }
}

/// The name under which the flow reports its screenshots.
pub fn flow_name(kind: FlowKind) -> (r: String)
    ensures
        r@ == flow_label(kind),
{
    match kind {
        FlowKind::Connect => String::from_str("Send connection"),
        FlowKind::Withdraw => String::from_str("Withdraw connection"),
    }
}

/// The outcome is an error with the message `m`, with a screenshot for the
/// reason `s`, closing the browser when `quit`.
pub open spec fn fails_with(o: Outcome, m: Seq<char>, s: Seq<char>, quit: bool) -> bool {
    &&& o.result matches Err(CustomError::ButtonNotFound(e)) && e@ == m
    &&& o.screenshot matches Some(x) && x@ == s
    &&& o.quit == quit
}

/// The outcome is a success with the message `m`, with a screenshot for
/// the reason `s` when there is one.
pub open spec fn succeeds_with(o: Outcome, m: Seq<char>, s: Option<Seq<char>>, quit: bool) -> bool {
    &&& o.result matches Ok(x) && x@ == m
    &&& match s {
        Some(t) => o.screenshot matches Some(x) && x@ == t,
        None => o.screenshot is None,
    }
    &&& o.quit == quit
}

/// What each ending reports, as the flows report it.
pub open spec fn outcome_spec(kind: FlowKind, e: Ending, o: Outcome) -> bool {
    let connect = kind == FlowKind::Connect;
    match e {
        Ending::NotLoading => if connect {
            fails_with(o, "Candidate page is not loading/Send_connection_message"@, "Candidate page is not loading/Send_connection"@, true)
        } else {
            fails_with(o, "Candidate page is not loading/Withdraw connection"@, "Candidate page is not loading/Withdraw connection"@, true)
        },
        Ending::CookieExpired => o.result matches Err(CustomError::SessionCookieExpired) && o.screenshot matches Some(x)
            && x@ == "Session cookie expired"@ && o.quit,
        Ending::MainContainerMissing => if connect {
            fails_with(o, "Main container not found/Send regular message"@, "Main container not found/Send_connection_message"@, false)
        } else {
            fails_with(o, "Main container not found/Withdraw connection"@, "Main container not found/Send_connection_message"@, false)
        },
        Ending::PageMissing => fails_with(o, "Page does not exist"@, "Page does not exist"@, true),
        Ending::MoreMissing => fails_with(o, "More button not found"@, "More button not found"@, true),
        Ending::InPool => if connect {
            succeeds_with(o, "Candidate in connection pool"@, Some("Candidate in connection pool"@), true)
        } else {
            succeeds_with(o, "Connection accepted; withdrawal not possible"@, Some("Connection accepted; withdrawal not possible"@), true)
        },
        Ending::Pending => succeeds_with(o, "Connection pending"@, Some("Connection pending"@), true),
        Ending::ConnectMissing => fails_with(o, "Connection button missing"@, "Connection button missing"@, true),
        Ending::PopupConnectMissing => fails_with(o, "Connect button in popup_how is not found"@, "Connect button in popup_how is not found"@, true),
        Ending::EmailNeeded => succeeds_with(o, "Email needed"@, Some("Email needed"@), true),
        Ending::AddNoteMissing => fails_with(o, "Add note button not found"@, "Add note button not found"@, true),
        Ending::TextInputMissing => fails_with(o, "Text input not found"@, "Text input not found"@, true),
        Ending::SendMissing => fails_with(o, "Send button in the connection popup is not found"@, "Send button in the connection popup is not found"@, true),
        Ending::SentPending => succeeds_with(o, "Connection was sent"@, Some("Connection pending"@), true),
        Ending::Limit => o.result matches Err(CustomError::ConnectionLimit) && o.screenshot matches Some(x)
            && x@ == "Connection limit"@ && o.quit,
        Ending::Sent => succeeds_with(o, "Connection was sent"@, None, true),
        Ending::PendingMissing => fails_with(o, "Pending button is missing"@, "Pending button is missing"@, true),
        Ending::WithdrawPopupMissing => fails_with(o, "Withdraw popup button is missing"@, "Withdraw popup button is missing"@, true),
        Ending::NotNowMissing => fails_with(o, "Not now button is missing"@, "Not now button is missing"@, true),
        Ending::Withdrawn => succeeds_with(o, "Connection was withdrawn"@, None, false),
    }
}

fn text(s: &str) -> (r: String)
    ensures
        r@ == s@,
{
    String::from_str(s)
}

fn failure(m: &str, s: &str, quit: bool) -> (o: Outcome)
    ensures
        fails_with(o, m@, s@, quit),
{
    Outcome { result: Err(CustomError::ButtonNotFound(text(m))), screenshot: Some(text(s)), quit }
}

fn success(m: &str, s: Option<&str>, quit: bool) -> (o: Outcome)
    ensures
        succeeds_with(o, m@, match s { Some(t) => Some(t@), None => None }, quit),
{
    let screenshot = match s {
        Some(t) => Some(text(t)),
        None => None,
    };
    Outcome { result: Ok(text(m)), screenshot, quit }
}

/// What the flow reports at its end.
pub fn outcome(kind: FlowKind, e: Ending) -> (o: Outcome)
    ensures
        outcome_spec(kind, e, o),
{
    let connect = match kind {
        FlowKind::Connect => true,
        FlowKind::Withdraw => false,
    };
    match e {
        Ending::NotLoading => if connect {
            failure("Candidate page is not loading/Send_connection_message", "Candidate page is not loading/Send_connection", true)
        } else {
            failure("Candidate page is not loading/Withdraw connection", "Candidate page is not loading/Withdraw connection", true)
        },
        Ending::CookieExpired => Outcome {
            result: Err(CustomError::SessionCookieExpired),
            screenshot: Some(text("Session cookie expired")),
            quit: true,
        },
        Ending::MainContainerMissing => if connect {
            failure("Main container not found/Send regular message", "Main container not found/Send_connection_message", false)
        } else {
            failure("Main container not found/Withdraw connection", "Main container not found/Send_connection_message", false)
        },
        Ending::PageMissing => failure("Page does not exist", "Page does not exist", true),
        Ending::MoreMissing => failure("More button not found", "More button not found", true),
        Ending::InPool => if connect {
            success("Candidate in connection pool", Some("Candidate in connection pool"), true)
        } else {
            success("Connection accepted; withdrawal not possible", Some("Connection accepted; withdrawal not possible"), true)
        },
        Ending::Pending => success("Connection pending", Some("Connection pending"), true),
        Ending::ConnectMissing => failure("Connection button missing", "Connection button missing", true),
        Ending::PopupConnectMissing => failure("Connect button in popup_how is not found", "Connect button in popup_how is not found", true),
        Ending::EmailNeeded => success("Email needed", Some("Email needed"), true),
        Ending::AddNoteMissing => failure("Add note button not found", "Add note button not found", true),
        Ending::TextInputMissing => failure("Text input not found", "Text input not found", true),
        Ending::SendMissing => failure("Send button in the connection popup is not found", "Send button in the connection popup is not found", true),
        Ending::SentPending => success("Connection was sent", Some("Connection pending"), true),
        Ending::Limit => Outcome {
            result: Err(CustomError::ConnectionLimit),
            screenshot: Some(text("Connection limit")),
            quit: true,
        },
        Ending::Sent => success("Connection was sent", None, true),
        Ending::PendingMissing => failure("Pending button is missing", "Pending button is missing", true),
        Ending::WithdrawPopupMissing => failure("Withdraw popup button is missing", "Withdraw popup button is missing", true),
        Ending::NotNowMissing => failure("Not now button is missing", "Not now button is missing", true),
        Ending::Withdrawn => success("Connection was withdrawn", None, false),
    }
}

/// Every ending that is an error comes with a screenshot of the page.
pub proof fn law_errors_come_with_a_screenshot(kind: FlowKind, e: Ending, o: Outcome)
    requires
        outcome_spec(kind, e, o),
    ensures
        o.result is Err ==> o.screenshot is Some,
{
}

/// What the browser does at a stage.
#[derive(Debug, Clone, Copy, PartialEq, Eq)]
pub enum Probe {
    /// Load the profile page.
    Load,
    /// Check that the session is logged in.
    Cookie,
    /// Reload the page, then check the session.
    RefreshedCookie,
    /// Whether an element matching the CSS selector is on the page.
    Present(&'static str),
    /// Click the element matching the CSS selector, when there is one.
    Click(&'static str),
    /// In the profile's main box (which must be there), click the element
    /// matching the CSS selector, when there is one.
    ClickInMain(&'static str),
    /// Click the element matching the XPath expression, when there is one.
    ClickXPath(&'static str),
    /// Write the note into the field matching the CSS selector, when there
    /// is one.
    WriteNote(&'static str),
}

/// The probe of each stage.
pub open spec fn probe_spec(stage: Stage) -> Probe {
    match stage {
        Stage::Open { .. } => Probe::Load,
        Stage::Cookie { second } | Stage::CookieAgain { second } => if second {
            Probe::RefreshedCookie
        } else {
            Probe::Cookie
        },
        Stage::MainContainer => Probe::Present("div[class=application-outlet]"),
        Stage::PageNotFound => Probe::Present("header[class='not-found__header not-found__container']"),
        Stage::More { another } => if another {
            Probe::ClickInMain("div.artdeco-dropdown.artdeco-dropdown--placement-bottom.artdeco-dropdown--justification-left.ember-view:has(>button[aria-label='More actions'].artdeco-dropdown__trigger):nth-child(3)")
        } else {
            Probe::ClickInMain("button.artdeco-dropdown__trigger.artdeco-dropdown__trigger--placement-bottom.ember-view.pvs-profile-actions__action.artdeco-button.artdeco-button--secondary.artdeco-button--muted.artdeco-button--2")
        },
        Stage::InPool => Probe::Present("div.artdeco-dropdown__item.artdeco-dropdown__item--is-dropdown.ember-view.full-width.display-flex.align-items-center[aria-label*='Remove your connection']"),
        Stage::Pending { dropdown } | Stage::PendingAfter { dropdown } => if dropdown {
            Probe::Present("div.artdeco-dropdown__item.artdeco-dropdown__item--is-dropdown.ember-view.full-width.display-flex.align-items-center[aria-label*='Pending']")
        } else {
            Probe::Present("button.artdeco-button.artdeco-button--2.artdeco-button--secondary.ember-view.pvs-profile-actions__action[aria-label*='Pending']")
        },
        Stage::PendingClick { dropdown } => if dropdown {
            Probe::Click("div.artdeco-dropdown__item.artdeco-dropdown__item--is-dropdown.ember-view.full-width.display-flex.align-items-center[aria-label*='Pending']")
        } else {
            Probe::Click("button.artdeco-button.artdeco-button--2.artdeco-button--secondary.ember-view.pvs-profile-actions__action[aria-label*='Pending']")
        },
        Stage::Connect { dropdown } => if dropdown {
            Probe::ClickXPath("(//div[contains(@class, 'artdeco-dropdown__item') and contains(@class, 'artdeco-dropdown__item--is-dropdown') and contains(@class, 'ember-view') and contains(@class, 'full-width') and contains(@class, 'display-flex') and contains(@class, 'align-items-center') and contains(@aria-label, 'connect')])[2]")
        } else {
            Probe::Click("button.artdeco-button.artdeco-button--2.artdeco-button--primary.ember-view.pvs-profile-actions__action[aria-label*='connect']")
        },
        Stage::PopupHow => Probe::Click("button[aria-label='Other']"),
        Stage::PopupConnect => Probe::Click("button[aria-label='Connect']"),
        Stage::EmailNeeded => Probe::Present("label[for=email]"),
        Stage::AddNote => Probe::Click("button.artdeco-button.artdeco-button--muted.artdeco-button--2.artdeco-button--secondary.ember-view.mr1"),
        Stage::NoteInput => Probe::WriteNote("textarea[id=custom-message]"),
        Stage::SendNote => Probe::Click("button.artdeco-button.artdeco-button--2.artdeco-button--primary.ember-view.ml1"),
        Stage::Limit => Probe::Present("div[class='artdeco-modal artdeco-modal--layer-default ip-fuse-limit-alert']"),
        Stage::WithdrawPopup => Probe::Click("button.artdeco-button.artdeco-button--2.artdeco-button--primary.ember-view.artdeco-modal__confirm-dialog-btn"),
        Stage::VerifyProfile => Probe::Present("div.artdeco-modal.artdeco-modal--layer-default"),
        Stage::NotNow => Probe::Click("button.artdeco-button.artdeco-button--2.artdeco-button--secondary.ember-view.mr1"),
    }
}

/// The probe of a stage.
pub fn probe(stage: Stage) -> (p: Probe)
    ensures
        p == probe_spec(stage),
{
    match stage {
        Stage::Open { .. } => Probe::Load,
        Stage::Cookie { second } | Stage::CookieAgain { second } => if second {
            Probe::RefreshedCookie
        } else {
            Probe::Cookie
        },
        Stage::MainContainer => Probe::Present("div[class=application-outlet]"),
        Stage::PageNotFound => Probe::Present("header[class='not-found__header not-found__container']"),
        Stage::More { another } => if another {
            Probe::ClickInMain("div.artdeco-dropdown.artdeco-dropdown--placement-bottom.artdeco-dropdown--justification-left.ember-view:has(>button[aria-label='More actions'].artdeco-dropdown__trigger):nth-child(3)")
        } else {
            Probe::ClickInMain("button.artdeco-dropdown__trigger.artdeco-dropdown__trigger--placement-bottom.ember-view.pvs-profile-actions__action.artdeco-button.artdeco-button--secondary.artdeco-button--muted.artdeco-button--2")
        },
        Stage::InPool => Probe::Present("div.artdeco-dropdown__item.artdeco-dropdown__item--is-dropdown.ember-view.full-width.display-flex.align-items-center[aria-label*='Remove your connection']"),
        Stage::Pending { dropdown } | Stage::PendingAfter { dropdown } => if dropdown {
            Probe::Present("div.artdeco-dropdown__item.artdeco-dropdown__item--is-dropdown.ember-view.full-width.display-flex.align-items-center[aria-label*='Pending']")
        } else {
            Probe::Present("button.artdeco-button.artdeco-button--2.artdeco-button--secondary.ember-view.pvs-profile-actions__action[aria-label*='Pending']")
        },
        Stage::PendingClick { dropdown } => if dropdown {
            Probe::Click("div.artdeco-dropdown__item.artdeco-dropdown__item--is-dropdown.ember-view.full-width.display-flex.align-items-center[aria-label*='Pending']")
        } else {
            Probe::Click("button.artdeco-button.artdeco-button--2.artdeco-button--secondary.ember-view.pvs-profile-actions__action[aria-label*='Pending']")
        },
        Stage::Connect { dropdown } => if dropdown {
            Probe::ClickXPath("(//div[contains(@class, 'artdeco-dropdown__item') and contains(@class, 'artdeco-dropdown__item--is-dropdown') and contains(@class, 'ember-view') and contains(@class, 'full-width') and contains(@class, 'display-flex') and contains(@class, 'align-items-center') and contains(@aria-label, 'connect')])[2]")
        } else {
            Probe::Click("button.artdeco-button.artdeco-button--2.artdeco-button--primary.ember-view.pvs-profile-actions__action[aria-label*='connect']")
        },
        Stage::PopupHow => Probe::Click("button[aria-label='Other']"),
        Stage::PopupConnect => Probe::Click("button[aria-label='Connect']"),
        Stage::EmailNeeded => Probe::Present("label[for=email]"),
        Stage::AddNote => Probe::Click("button.artdeco-button.artdeco-button--muted.artdeco-button--2.artdeco-button--secondary.ember-view.mr1"),
        Stage::NoteInput => Probe::WriteNote("textarea[id=custom-message]"),
        Stage::SendNote => Probe::Click("button.artdeco-button.artdeco-button--2.artdeco-button--primary.ember-view.ml1"),
        Stage::Limit => Probe::Present("div[class='artdeco-modal artdeco-modal--layer-default ip-fuse-limit-alert']"),
        Stage::WithdrawPopup => Probe::Click("button.artdeco-button.artdeco-button--2.artdeco-button--primary.ember-view.artdeco-modal__confirm-dialog-btn"),
        Stage::VerifyProfile => Probe::Present("div.artdeco-modal.artdeco-modal--layer-default"),
        Stage::NotNow => Probe::Click("button.artdeco-button.artdeco-button--2.artdeco-button--secondary.ember-view.mr1"),
    }
}

} // verus!
