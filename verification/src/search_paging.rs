//! The paging of the people searches: which page comes next, what is
//! recorded and reported after each page of a Recruiter search, and how
//! the profile links of a page are sent on, ten at a time, each batch
//! tried again up to five times.
use vstd::prelude::*;
use vstd::string::*;
use crate::error::CustomError;
use crate::projects_page::{decimal, decimal_text};
use crate::text::string_from_chars;

verus! {

/// The next page of a regular search after `done` pages, while there is
/// one among its `pages`.
pub fn regular_next_page(done: usize, pages: i32) -> (r: Option<usize>)
    requires
        done < usize::MAX,
    ensures
        r == (if done + 1 <= pages { Some((done + 1) as usize) } else { None::<usize> }),
{
    if pages >= 1 && done < pages as usize {
        Some(done + 1)
    } else {
        None
    }
}

/// The smaller of two numbers.
pub open spec fn min_of(a: int, b: int) -> int {
    if a <= b { a } else { b }
}

/// The `k`-th batch of ten of `urls` (the last one may be shorter).
pub open spec fn batch_of(urls: Seq<String>, k: int) -> Seq<String> {
    urls.subrange(10 * k, min_of(10 * k + 10, urls.len() as int))
}

/// The profile links split into batches of ten, in order; the last batch
/// holds the rest.
pub fn url_batches(urls: &Vec<String>) -> (r: Vec<Vec<String>>)
    ensures
        r@.len() == (urls@.len() + 9) / 10,
        forall|k: int| 0 <= k < r@.len() ==> (#[trigger] r@[k])@ == batch_of(urls@, k),
{
    let mut out: Vec<Vec<String>> = Vec::new();
    let mut i: usize = 0;
    while i < urls.len()
        invariant
            i <= urls.len(),
            i == min_of(10 * (out@.len() as int), urls@.len() as int),
            out@.len() == (i + 9) / 10,
            forall|k: int| 0 <= k < out@.len() ==> (#[trigger] out@[k])@ == batch_of(urls@, k),
        decreases urls.len() - i,
    {
        let end: usize = if urls.len() - i > 10 { i + 10 } else { urls.len() };
        let mut batch: Vec<String> = Vec::new();
        let mut j: usize = i;
        while j < end
            invariant
                i <= j <= end,
                end <= urls.len(),
                batch@ == urls@.subrange(i as int, j as int),
            decreases end - j,
        {
            batch.push(urls[j].clone());
            j = j + 1;
            assert(batch@ =~= urls@.subrange(i as int, j as int));
        }
        let ghost n = out@.len();
        assert(batch@ == batch_of(urls@, n as int));
        out.push(batch);
        i = end;
    }
    out
}

/// How one post of a batch went.
#[derive(Debug, Clone, Copy, PartialEq, Eq, Structural)]
pub enum PostResult {
    /// The service answered with status 200.
    Accepted,
    /// The service answered with another status.
    Refused,
    /// The post did not reach the service.
    Failed,
}

/// After a post of a batch that was tried `retries` times before: `Ok(None)`
/// when the batch is through, `Ok(Some(n))` to try it again (the `n`-th
/// retry, at most five), or the error that ends the sending.
pub fn post_next(retries: u8, result: PostResult) -> (r: Result<Option<u8>, CustomError>)
    requires
        retries <= 5,
    ensures
        result == PostResult::Accepted ==> r == Ok::<Option<u8>, CustomError>(None),
        result != PostResult::Accepted && retries < 5 ==> r == Ok::<Option<u8>, CustomError>(
            Some((retries + 1) as u8),
        ),
        result == PostResult::Refused && retries == 5 ==> (r matches Err(CustomError::ButtonNotFound(m))
            && m@ == "Send url status is not 200, Status/Scrap Recruiter Search"@),
        result == PostResult::Failed && retries == 5 ==> (r matches Err(CustomError::ButtonNotFound(m))
            && m@ == "Scrap recruiter search send url, Error"@),
{
    match result {
        PostResult::Accepted => Ok(None),
        _ => if retries < 5 {
            Ok(Some(retries + 1))
        } else {
            match result {
                PostResult::Refused => Err(CustomError::ButtonNotFound(
                    String::from_str("Send url status is not 200, Status/Scrap Recruiter Search"),
                )),
                _ => Err(CustomError::ButtonNotFound(String::from_str("Scrap recruiter search send url, Error"))),
            }
        },
    }
}

/// Where a Recruiter search is: the page being read (from 1) and how many
/// profile links of the list have been sent so far.
#[derive(Debug, Clone, Copy, PartialEq, Eq, Structural)]
pub struct RecruiterSearchState {
    pub page: u32,
    pub number: i32,
}

/// The state at the start of a Recruiter search that already sent
/// `urls_scraped` links.
pub fn recruiter_search_start(urls_scraped: i32) -> (r: RecruiterSearchState)
    ensures
        r == (RecruiterSearchState { page: 1, number: urls_scraped }),
{
    RecruiterSearchState { page: 1, number: urls_scraped }
}

/// What the browser reports of a page of a Recruiter search.
#[derive(Debug, Clone, Copy, PartialEq, Eq, Structural)]
pub struct RecruiterPageEvent {
    /// The number of profile links read from the page.
    pub links: usize,
    /// Whether the links were sent on.
    pub sent: bool,
    /// Whether the page has a link to a next page.
    pub has_next: bool,
}

/// What follows a page of a Recruiter search.
pub struct RecruiterPageAction {
    /// A page with fewer than 25 links is shown in a screenshot.
    pub short_page: bool,
    /// The status reported once the batch was sent or not.
    pub batch_status: String,
    /// The count of sent links recorded for the list.
    pub number: i32,
    /// Whether this was the last page.
    pub last_page: bool,
    /// The status reported once the next page is opened.
    pub next_status: String,
}

/// The text of a page number.
pub open spec fn page_text(page: u32) -> Seq<char> {
    decimal(page as nat)
}

/// The step of a Recruiter search after a page: the next page and 25 more
/// links counted, and what to report and record.
pub open spec fn recruiter_step_spec(
    st: RecruiterSearchState,
    ev: RecruiterPageEvent,
    r: (RecruiterSearchState, RecruiterPageAction),
) -> bool {
    &&& r.0 == (RecruiterSearchState { page: (st.page + 1) as u32, number: (st.number + 25) as i32 })
    &&& r.1.short_page == (ev.links < 25)
    &&& r.1.batch_status@ == (if ev.sent {
        "URL batch sent to bubble successfully, page: "@
    } else {
        "Error sending URL batch to bubble, page: "@
    }) + page_text(st.page)
    &&& r.1.number == st.number + 25
    &&& r.1.last_page == !ev.has_next
    &&& r.1.next_status@ == "Started scraping page "@ + page_text((st.page + 1) as u32)
}

fn number_text(n: u32) -> (r: String)
    ensures
        r@ == page_text(n),
{
    let digits = decimal_text(n as usize);
    string_from_chars(digits.as_slice())
}

/// The step of a Recruiter search after a page.
pub fn recruiter_search_step(st: RecruiterSearchState, ev: RecruiterPageEvent) -> (r: (RecruiterSearchState, RecruiterPageAction))
    requires
        st.page < u32::MAX,
        st.number <= i32::MAX - 25,
    ensures
        recruiter_step_spec(st, ev, r),
{
    let mut batch_status = if ev.sent {
        String::from_str("URL batch sent to bubble successfully, page: ")
    } else {
        String::from_str("Error sending URL batch to bubble, page: ")
    };
    let page_no = number_text(st.page);
    batch_status.append(page_no.as_str());
    let next = st.page + 1;
    let mut next_status = String::from_str("Started scraping page ");
    let next_no = number_text(next);
    next_status.append(next_no.as_str());
    let number = st.number + 25;
    (
        RecruiterSearchState { page: next, number },
        RecruiterPageAction {
            short_page: ev.links < 25,
            batch_status,
            number,
            last_page: !ev.has_next,
            next_status,
        },
    )
}

/// The two rounds in which a page still showing placeholder results is
/// scrolled again: the reason of the screenshot of each round, and the
/// reason of the one taken after scrolling back up in the first round.
pub fn rescroll_round(first: bool) -> (r: (&'static str, Option<&'static str>))
    ensures
        first ==> r.0@ == "First Less than 25 urls"@ && (r.1 matches Some(t) && t@
            == "First Less than 25 urls TOP"@),
        !first ==> r.0@ == "Second Less than 25 urls"@ && r.1 is None,
{
    if first {
        ("First Less than 25 urls", Some("First Less than 25 urls TOP"))
    } else {
        ("Second Less than 25 urls", None)
    }
}

} // verus!
