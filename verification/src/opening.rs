//! How every flow opens a page: the page is loaded, and loaded again up to
//! four times while loading fails; then the session is checked, and
//! checked once more after a reload when the first check fails.
use vstd::prelude::*;
use crate::error::CustomError;

verus! {

/// A step of opening a page.
#[derive(Debug, Clone, Copy, PartialEq, Eq, Structural)]
pub enum Opening {
    /// Load the page; attempts 1 to 4 follow a failed load.
    Load { attempt: u8 },
    /// Check the session; `second` after reloading the page.
    Session { second: bool },
}

/// What follows a step of opening a page.
#[derive(Debug, Clone, Copy, PartialEq, Eq, Structural)]
pub enum OpeningNext {
    Continue(Opening),
    /// The page is loaded and the session is logged in.
    Ready,
    /// No load of the page succeeded.
    NotLoading,
    /// The session failed both checks.
    SessionExpired,
}

/// What follows the step when it succeeded (`ok`) or failed.
pub open spec fn opening_next_spec(step: Opening, ok: bool) -> OpeningNext {
    match step {
        Opening::Load { attempt } => if ok {
            OpeningNext::Continue(Opening::Session { second: false })
        } else if attempt < 4 {
            OpeningNext::Continue(Opening::Load { attempt: (attempt + 1) as u8 })
        } else {
            OpeningNext::NotLoading
        },
        Opening::Session { second } => if ok {
            OpeningNext::Ready
        } else if !second {
            OpeningNext::Continue(Opening::Session { second: true })
        } else {
            OpeningNext::SessionExpired
        },
    }
}

/// What follows a step of opening a page.
pub fn opening_next(step: Opening, ok: bool) -> (r: OpeningNext)
    ensures
        r == opening_next_spec(step, ok),
{
    match step {
        Opening::Load { attempt } => if ok {
            OpeningNext::Continue(Opening::Session { second: false })
        } else if attempt < 4 {
            OpeningNext::Continue(Opening::Load { attempt: attempt + 1 })
        } else {
            OpeningNext::NotLoading
        },
        Opening::Session { second } => if ok {
            OpeningNext::Ready
        } else if !second {
            OpeningNext::Continue(Opening::Session { second: true })
        } else {
            OpeningNext::SessionExpired
        },
    }
}

/// The number of steps that can still follow a step.
pub open spec fn steps_left(step: Opening) -> int {
    match step {
        Opening::Load { attempt } => if attempt <= 4 { 6 - attempt } else { 2 },
        Opening::Session { second } => if second { 0 } else { 1 },
    }
}

/// Opening a page takes at most seven steps: each step leaves fewer to go;
/// a page is given up only after five failed loads, and a session only
/// after two failed checks.
pub proof fn law_opening_ends(step: Opening, ok: bool)
    requires
        step matches Opening::Load { attempt } ==> attempt <= 4,
    ensures
        0 <= steps_left(step) <= 6,
        opening_next_spec(step, ok) matches OpeningNext::Continue(s) ==> steps_left(s) < steps_left(step)
            && (s matches Opening::Load { attempt } ==> attempt <= 4),
        opening_next_spec(step, ok) == OpeningNext::NotLoading <==> (step == (Opening::Load { attempt: 4 }) && !ok),
        opening_next_spec(step, ok) == OpeningNext::SessionExpired <==> (step == (Opening::Session { second: true }) && !ok),
{
}

/// The error a flow reports when opening its page failed: the flow's own
/// text when no load succeeded, an expired session (of Recruiter when the
/// Recruiter session was checked) when both checks failed; none while the
/// page is opening or once it is ready.
pub fn opening_error(n: OpeningNext, not_loading: &str, recruiter: bool) -> (r: Option<CustomError>)
    ensures
        n == OpeningNext::NotLoading ==> (r matches Some(CustomError::ButtonNotFound(m)) && m@ == not_loading@),
        n == OpeningNext::SessionExpired && !recruiter ==> (r matches Some(CustomError::SessionCookieExpired)),
        n == OpeningNext::SessionExpired && recruiter ==> (r matches Some(CustomError::RecruiterSessionCookieExpired)),
        n is Continue || n is Ready ==> r is None,
{
    match n {
        OpeningNext::NotLoading => Some(CustomError::ButtonNotFound(not_loading.to_string())),
        OpeningNext::SessionExpired => if recruiter {
            Some(CustomError::RecruiterSessionCookieExpired)
        } else {
            Some(CustomError::SessionCookieExpired)
        },
        _ => None,
    }
}

} // verus!
