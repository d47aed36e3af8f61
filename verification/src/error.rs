//! The errors that the library's own logic reports.
use vstd::prelude::*;
use vstd::string::*;

verus! {

/// An error of the crawler. The variants that carry an error of an outside
/// crate keep that error's message text.
#[derive(Debug)]
pub enum CustomError {
    ButtonNotFound(String),
    SelectorError(String),
    SessionCookieExpired,
    RecruiterSessionCookieExpired,
    ConnectionLimit,
    ChronoError(String),
}

/// What std's `Debug` formatting writes for a `str` (the text quoted, with
/// the characters escaped that `char::escape_debug` escapes).
pub uninterp spec fn debug_text(s: Seq<char>) -> Seq<char>;

/// `format!("{:?}", s)` for a string slice, std's `Debug for str`; the
/// result is named by `debug_text`.
#[verifier::external_body]
fn debug_string(s: &str) -> (r: String)
    ensures
        r@ == debug_text(s@),
{
    format!("{:?}", s)
}

impl CustomError {
    /// The text that the error displays.
    pub open spec fn message_spec(&self) -> Seq<char> {
        match self {
            CustomError::ButtonNotFound(e) => e@,
            CustomError::SelectorError(e) => "Selector error: "@ + debug_text(e@),
            CustomError::SessionCookieExpired => "Session cookie expired"@,
            CustomError::RecruiterSessionCookieExpired => "Recruiter Session cookie expired"@,
            CustomError::ConnectionLimit => "Connection limit"@,
            CustomError::ChronoError(e) => e@,
        }
    }

    /// The text that the error displays.
    pub fn message(&self) -> (r: String)
        ensures
            r@ == self.message_spec(),
    {
        match self {
            CustomError::ButtonNotFound(e) => e.clone(),
            CustomError::SelectorError(e) => {
                let d = debug_string(e.as_str());
                String::from_str("Selector error: ").concat(d.as_str())
            },
            CustomError::SessionCookieExpired => String::from_str("Session cookie expired"),
            CustomError::RecruiterSessionCookieExpired => String::from_str(
                "Recruiter Session cookie expired",
            ),
            CustomError::ConnectionLimit => String::from_str("Connection limit"),
            CustomError::ChronoError(e) => e.clone(),
        }
    }
}

} // verus!
