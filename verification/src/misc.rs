//! Splitting of profile captions and the dates of LinkedIn period texts.
use vstd::prelude::*;
use vstd::string::*;
use crate::error::CustomError;
use crate::text::{chars_of, find, law_solid_text_is_one_word, law_words_split_at_a_space, match_at, words, words_chars, views, find_chars, string_from_chars, sub_chars, trim, trim_chars};

verus! {

/// The view of an optional string.
pub open spec fn opt_view(o: Option<String>) -> Option<Seq<char>> {
    match o {
        Some(s) => Some(s@),
        None => None,
    }
}

/// The text before and after the first occurrence of `d`, both trimmed, or
/// neither when `d` does not occur.
pub open spec fn split_around_spec(s: Seq<char>, d: Seq<char>) -> (Option<Seq<char>>, Option<Seq<char>>) {
    match find(s, d) {
        Some(i) => (Some(trim(s.take(i))), Some(trim(s.skip(i + d.len())))),
        None => (None, None),
    }
}

/// The separator `" · "` of LinkedIn captions.
pub open spec fn dot_delimiter() -> Seq<char> {
    seq![' ', '\u{b7}', ' ']
}

/// The separator `", "`.
pub open spec fn comma_delimiter() -> Seq<char> {
    seq![',', ' ']
}

fn split_around(input: &str, d: &[char]) -> (r: (Option<String>, Option<String>))
    ensures
        (opt_view(r.0), opt_view(r.1)) == split_around_spec(input@, d@),
{
    let s = chars_of(input);
    match find_chars(s.as_slice(), d) {
        Some(index) => {
            assert(match_at(s@, d@, index as int));
            assert(index + d@.len() <= s@.len());
            assert(d@.len() == d.len() && s@.len() == s.len());
            let before = sub_chars(s.as_slice(), 0, index);
            let after = sub_chars(s.as_slice(), index + d.len(), s.len());
            let b = trim_chars(before.as_slice());
            let a = trim_chars(after.as_slice());
            proof {
                assert(s@.subrange(0, index as int) =~= s@.take(index as int));
                assert(s@.subrange(index + d@.len(), s@.len() as int) =~= s@.skip(
                    index + d@.len(),
                ));
            }
            (Some(string_from_chars(b.as_slice())), Some(string_from_chars(a.as_slice())))
        },
        None => (None, None),
    }
}

/// Splits `input` around the first `" · "`: the trimmed text before and
/// after it, or `(None, None)` when it does not occur.
pub fn split_around_dot(input: &str) -> (r: (Option<String>, Option<String>))
    ensures
        (opt_view(r.0), opt_view(r.1)) == split_around_spec(input@, dot_delimiter()),
{
    let d = vec![' ', '\u{b7}', ' '];
    assert(d@ =~= dot_delimiter());
    split_around(input, d.as_slice())
}

/// Splits `input` around the first `", "`: the trimmed text before and
/// after it, or `(None, None)` when it does not occur.
pub fn split_around_comma(input: &str) -> (r: (Option<String>, Option<String>))
    ensures
        (opt_view(r.0), opt_view(r.1)) == split_around_spec(input@, comma_delimiter()),
{
    let d = vec![',', ' '];
    assert(d@ =~= comma_delimiter());
    split_around(input, d.as_slice())
}


/// A month and a year of a period, each as the text that LinkedIn's period
/// caption gives or that it maps to.
#[derive(Debug)]
pub struct DateFormat {
    pub month: Option<String>,
    pub year: Option<String>,
}

/// The month and year of a date, as text.
pub type DateText = (Option<Seq<char>>, Option<Seq<char>>);

impl DateFormat {
    pub open spec fn view_text(&self) -> DateText {
        (opt_view(self.month), opt_view(self.year))
    }

    /// A date with neither month nor year.
    pub fn new() -> (r: Self)
        ensures
            r.month is None,
            r.year is None,
    {
        DateFormat { month: None, year: None }
    }
}

pub open spec fn is_word3(w: Seq<char>, a: char, b: char, c: char) -> bool {
    w.len() == 3 && w[0] == a && w[1] == b && w[2] == c
}

/// The number of the month that an English three-letter abbreviation names
/// (`"Jan"` is 1), or 0 for any other word.
pub open spec fn month_number(w: Seq<char>) -> int {
    if is_word3(w, 'J', 'a', 'n') { 1 }
    else if is_word3(w, 'F', 'e', 'b') { 2 }
    else if is_word3(w, 'M', 'a', 'r') { 3 }
    else if is_word3(w, 'A', 'p', 'r') { 4 }
    else if is_word3(w, 'M', 'a', 'y') { 5 }
    else if is_word3(w, 'J', 'u', 'n') { 6 }
    else if is_word3(w, 'J', 'u', 'l') { 7 }
    else if is_word3(w, 'A', 'u', 'g') { 8 }
    else if is_word3(w, 'S', 'e', 'p') { 9 }
    else if is_word3(w, 'O', 'c', 't') { 10 }
    else if is_word3(w, 'N', 'o', 'v') { 11 }
    else if is_word3(w, 'D', 'e', 'c') { 12 }
    else { 0 }
}

/// The decimal digit character of `0 <= d <= 9`.
pub open spec fn digit_char(d: int) -> char {
    if d == 0 { '0' }
    else if d == 1 { '1' }
    else if d == 2 { '2' }
    else if d == 3 { '3' }
    else if d == 4 { '4' }
    else if d == 5 { '5' }
    else if d == 6 { '6' }
    else if d == 7 { '7' }
    else if d == 8 { '8' }
    else { '9' }
}

/// The decimal text of `1 <= n <= 19`, as `to_string` writes it.
pub open spec fn small_number_text(n: int) -> Seq<char> {
    if n < 10 {
        seq![digit_char(n)]
    } else {
        seq!['1', digit_char(n - 10)]
    }
}

pub open spec fn is_digit(c: char) -> bool {
    '0' <= c && c <= '9'
}

pub open spec fn digit_value(c: char) -> int {
    c as int - '0' as int
}

/// The word is one of the years `"1940"` to `"2090"`.
pub open spec fn is_year_word(w: Seq<char>) -> bool {
    &&& w.len() == 4
    &&& is_digit(w[0]) && is_digit(w[1]) && is_digit(w[2]) && is_digit(w[3])
    &&& 1940 <= digit_value(w[0]) * 1000 + digit_value(w[1]) * 100 + digit_value(w[2]) * 10
        + digit_value(w[3]) <= 2090
}

pub open spec fn is_present_word(w: Seq<char>) -> bool {
    w =~= seq!['P', 'r', 'e', 's', 'e', 'n', 't']
}

/// One word of a period caption read: `"Present"` clears the end date and
/// ends the reading; a month fills the start month if it is still empty and
/// the end month otherwise; a year does the same with the years.
pub open spec fn scan_step(st: (DateText, DateText, bool), w: Seq<char>) -> (DateText, DateText, bool) {
    if st.2 {
        st
    } else if is_present_word(w) {
        (st.0, (None, None), true)
    } else {
        let m = month_number(w);
        let after_month: (DateText, DateText) = if m != 0 {
            if st.0.0 is None {
                ((Some(small_number_text(m)), st.0.1), st.1)
            } else {
                (st.0, (Some(small_number_text(m)), st.1.1))
            }
        } else {
            (st.0, st.1)
        };
        let after_year: (DateText, DateText) = if is_year_word(w) {
            if after_month.0.1 is None {
                ((after_month.0.0, Some(w)), after_month.1)
            } else {
                (after_month.0, (after_month.1.0, Some(w)))
            }
        } else {
            after_month
        };
        (after_year.0, after_year.1, false)
    }
}

/// The start and end dates that the words of a period caption give.
pub open spec fn scan_dates(ws: Seq<Seq<char>>) -> (DateText, DateText, bool)
    decreases ws.len(),
{
    if ws.len() == 0 {
        ((None, None), (None, None), false)
    } else {
        scan_step(scan_dates(ws.drop_last()), ws.last())
    }
}

/// `"{year}-{month}-01"`, the month defaulting to 1; `None` without a year.
pub open spec fn date_string_spec(d: DateText) -> Option<Seq<char>> {
    match d.1 {
        None => None,
        Some(y) => {
            let m = match d.0 {
                Some(m) => m,
                None => seq!['1'],
            };
            Some(y + seq!['-'] + m + seq!['-', '0', '1'])
        },
    }
}

proof fn lemma_scan_done(ws: Seq<Seq<char>>, k: int, n: int)
    requires
        0 <= k <= n <= ws.len(),
        scan_dates(ws.take(k)).2,
    ensures
        scan_dates(ws.take(n)) == scan_dates(ws.take(k)),
    decreases n - k,
{
    if n > k {
        lemma_scan_done(ws, k, n - 1);
        assert(ws.take(n).drop_last() =~= ws.take(n - 1));
    }
}

fn word3(w: &[char], a: char, b: char, c: char) -> (r: bool)
    ensures
        r == is_word3(w@, a, b, c),
{
    w.len() == 3 && w[0] == a && w[1] == b && w[2] == c
}

fn month_of(w: &[char]) -> (r: u8)
    ensures
        r as int == month_number(w@),
{
    if word3(w, 'J', 'a', 'n') { 1 }
    else if word3(w, 'F', 'e', 'b') { 2 }
    else if word3(w, 'M', 'a', 'r') { 3 }
    else if word3(w, 'A', 'p', 'r') { 4 }
    else if word3(w, 'M', 'a', 'y') { 5 }
    else if word3(w, 'J', 'u', 'n') { 6 }
    else if word3(w, 'J', 'u', 'l') { 7 }
    else if word3(w, 'A', 'u', 'g') { 8 }
    else if word3(w, 'S', 'e', 'p') { 9 }
    else if word3(w, 'O', 'c', 't') { 10 }
    else if word3(w, 'N', 'o', 'v') { 11 }
    else if word3(w, 'D', 'e', 'c') { 12 }
    else { 0 }
}

pub(crate) fn digit_of(d: u8) -> (c: char)
    requires
        d <= 9,
    ensures
        c == digit_char(d as int),
{
    if d == 0 { '0' }
    else if d == 1 { '1' }
    else if d == 2 { '2' }
    else if d == 3 { '3' }
    else if d == 4 { '4' }
    else if d == 5 { '5' }
    else if d == 6 { '6' }
    else if d == 7 { '7' }
    else if d == 8 { '8' }
    else { '9' }
}

fn small_number_string(n: u8) -> (s: String)
    requires
        1 <= n <= 19,
    ensures
        s@ == small_number_text(n as int),
{
    let mut v: Vec<char> = Vec::new();
    if n < 10 {
        v.push(digit_of(n));
    } else {
        v.push('1');
        v.push(digit_of(n - 10));
    }
    assert(v@ =~= small_number_text(n as int));
    string_from_chars(v.as_slice())
}

fn year_word(w: &[char]) -> (r: bool)
    ensures
        r == is_year_word(w@),
{
    if w.len() != 4 {
        return false;
    }
    if !('0' <= w[0] && w[0] <= '9' && '0' <= w[1] && w[1] <= '9' && '0' <= w[2] && w[2] <= '9'
        && '0' <= w[3] && w[3] <= '9') {
        return false;
    }
    let v: u32 = (w[0] as u32 - '0' as u32) * 1000 + (w[1] as u32 - '0' as u32) * 100 + (w[2] as u32
        - '0' as u32) * 10 + (w[3] as u32 - '0' as u32);
    1940 <= v && v <= 2090
}

fn present_word(w: &[char]) -> (r: bool)
    ensures
        r == is_present_word(w@),
{
    let p = vec!['P', 'r', 'e', 's', 'e', 'n', 't'];
    let r = crate::text::chars_eq(w, p.as_slice());
    proof {
        if r {
            assert(w@ =~= seq!['P', 'r', 'e', 's', 'e', 'n', 't']);
        } else {
            assert(p@ =~= seq!['P', 'r', 'e', 's', 'e', 'n', 't']);
        }
    }
    r
}

/// The start and end dates that the words of a period caption give, read
/// as `get_date` reads them.
pub fn scan_date_words(ws: &Vec<Vec<char>>) -> (r: (DateFormat, DateFormat))
    ensures
        (r.0.view_text(), r.1.view_text()) == (scan_dates(views(ws@)).0, scan_dates(views(ws@)).1),
{
    let ghost wv = views(ws@);
    let mut start = DateFormat::new();
    let mut end = DateFormat::new();
    let mut done = false;
    let mut i: usize = 0;
    while i < ws.len() && !done
        invariant
            i <= ws.len(),
            wv == views(ws@),
            wv.len() == ws.len(),
            (start.view_text(), end.view_text(), done) == scan_dates(wv.take(i as int)),
        decreases ws.len() - i,
    {
        let word = &ws[i];
        assert(word@ == wv[i as int]);
        proof {
            assert(wv.take(i + 1).drop_last() =~= wv.take(i as int));
            assert(wv.take(i + 1).last() == wv[i as int]);
        }
        if present_word(word.as_slice()) {
            end.month = None;
            end.year = None;
            done = true;
        } else {
            let m = month_of(word.as_slice());
            if m != 0 {
                if start.month.is_none() {
                    start.month = Some(small_number_string(m));
                } else {
                    end.month = Some(small_number_string(m));
                }
            }
            if year_word(word.as_slice()) {
                if start.year.is_none() {
                    start.year = Some(string_from_chars(word.as_slice()));
                } else {
                    end.year = Some(string_from_chars(word.as_slice()));
                }
            }
        }
        i = i + 1;
    }
    proof {
        if done {
            lemma_scan_done(wv, i as int, wv.len() as int);
        }
        assert(wv.take(wv.len() as int) =~= wv);
    }
    (start, end)
}

/// The text `"{year}-{month}-01"` of a date, the month defaulting to 1;
/// `None` when the year is missing.
pub fn construct_string(date: DateFormat) -> (r: Option<String>)
    ensures
        opt_view(r) == date_string_spec(date.view_text()),
{
    let ghost dt = date.view_text();
    if date.month.is_none() && date.year.is_none() {
        return None;
    }
    let month = match date.month {
        Some(m) => m,
        None => string_from_chars(vec!['1'].as_slice()),
    };
    let year = match date.year {
        Some(y) => y,
        None => {
            return None;
        },
    };
    let yv = chars_of(year.as_str());
    let mv = chars_of(month.as_str());
    let mut v: Vec<char> = Vec::new();
    let mut k: usize = 0;
    while k < yv.len()
        invariant
            k <= yv.len(),
            v@ == yv@.take(k as int),
        decreases yv.len() - k,
    {
        v.push(yv[k]);
        k = k + 1;
        assert(v@ =~= yv@.take(k as int));
    }
    v.push('-');
    let ghost mid = v@;
    let mut k: usize = 0;
    while k < mv.len()
        invariant
            k <= mv.len(),
            v@ == mid + mv@.take(k as int),
        decreases mv.len() - k,
    {
        v.push(mv[k]);
        k = k + 1;
        assert(v@ =~= mid + mv@.take(k as int));
    }
    v.push('-');
    v.push('0');
    v.push('1');
    proof {
        assert(yv@.take(yv@.len() as int) =~= yv@);
        assert(mv@.take(mv@.len() as int) =~= mv@);
        let m = match dt.0 {
            Some(m) => m,
            None => seq!['1'],
        };
        assert(mv@ == m);
        assert(v@ =~= yv@ + seq!['-'] + m + seq!['-', '0', '1']);
    }
    Some(string_from_chars(v.as_slice()))
}

/// What chrono's `NaiveDate::parse_from_str(s, "%Y-%m-%d")` gives, taken to
/// the timestamp of that day at 00:00:00 UTC, or the text that chrono's
/// `ParseError` displays when the text does not parse.
pub uninterp spec fn ymd_midnight_timestamp(s: Seq<char>) -> Result<i64, Seq<char>>;

/// The value of a four-digit year word.
pub open spec fn year_value(w: Seq<char>) -> int {
    digit_value(w[0]) * 1000 + digit_value(w[1]) * 100 + digit_value(w[2]) * 10 + digit_value(w[3])
}

/// The number of days from 1970-01-01 to the first day of month `m` of
/// year `y` in the proleptic Gregorian calendar (`y >= 1`, `1 <= m <= 12`):
/// the year is counted from March, so that the leap day ends it.
pub open spec fn days_to_month_start(y: int, m: int) -> int {
    let yy = if m <= 2 { y - 1 } else { y };
    let era = yy / 400;
    let yoe = yy - era * 400;
    let mp = if m > 2 { m - 3 } else { m + 9 };
    let doy = (153 * mp + 2) / 5;
    let doe = yoe * 365 + yoe / 4 - yoe / 100 + doy;
    era * 146097 + doe - 719468
}

/// The timestamp of midnight UTC on the first day of month `m` of year `y`.
pub open spec fn month_start_midnight(y: int, m: int) -> int {
    days_to_month_start(y, m) * 86400
}

/// The text `"{year}-{month}-01"` that a period gives for a year word and
/// a month from 1 to 12.
pub open spec fn month_start_text(year: Seq<char>, m: int) -> Seq<char> {
    year + seq!['-'] + small_number_text(m) + seq!['-', '0', '1']
}

/// The text is `"{year}-{month}-01"` for a year word from 1940 to 2090 and a
/// month from 1 to 12.
pub open spec fn is_month_start_text(s: Seq<char>) -> bool {
    exists|y: Seq<char>, m: int| is_year_word(y) && 1 <= m <= 12 && s == #[trigger] month_start_text(y, m)
}

/// A date text parsed to the timestamp `t`.
pub open spec fn parsed_timestamp(t: i64) -> Result<i64, String> {
    Ok(t)
}

/// The timestamp of midnight UTC of the day that such a text names.
pub open spec fn month_start_value(s: Seq<char>) -> int {
    let (y, m) = choose|y: Seq<char>, m: int| is_year_word(y) && 1 <= m <= 12 && s == #[trigger] month_start_text(y, m);
    month_start_midnight(year_value(y), m)
}

/// The number that a month text `"1"` to `"12"` names.
pub open spec fn month_text_value(t: Seq<char>) -> int {
    if t.len() == 1 {
        digit_value(t[0])
    } else {
        10 + digit_value(t[1])
    }
}

/// The timestamp of a date read from a period: midnight UTC on the first
/// day of its month (of January when it has none) of its year; none when it
/// has no year.
pub open spec fn date_timestamp(d: DateText) -> Option<i64> {
    match d.1 {
        None => None,
        Some(y) => Some(
            month_start_midnight(
                year_value(y),
                match d.0 {
                    Some(t) => month_text_value(t),
                    None => 1,
                },
            ) as i64,
        ),
    }
}

/// The start and end timestamps of a period caption: those of the dates
/// that its words give.
pub open spec fn period_timestamps(date: Option<Seq<char>>) -> Seq<Option<i64>> {
    match date {
        None => seq![None, None],
        Some(d) => {
            let st = scan_dates(words(d));
            seq![date_timestamp(st.0), date_timestamp(st.1)]
        },
    }
}

proof fn lemma_month_text_value(m: int)
    requires
        1 <= m <= 12,
    ensures
        month_text_value(small_number_text(m)) == m,
{
}

proof fn lemma_month_start_text_unique(y: Seq<char>, m: int, y2: Seq<char>, m2: int)
    requires
        is_year_word(y),
        is_year_word(y2),
        1 <= m <= 12,
        1 <= m2 <= 12,
        month_start_text(y, m) == month_start_text(y2, m2),
    ensures
        y == y2,
        m == m2,
{
    let s = month_start_text(y, m);
    assert(y =~= s.subrange(0, 4));
    assert(y2 =~= s.subrange(0, 4));
    assert(small_number_text(m) =~= s.subrange(5, s.len() - 3));
    assert(small_number_text(m2) =~= s.subrange(5, s.len() - 3));
    lemma_month_text_value(m);
    lemma_month_text_value(m2);
}

/// chrono: `NaiveDate::parse_from_str(s, "%Y-%m-%d")`, then
/// `and_hms(0, 0, 0).timestamp()`; on failure, the parse error's message.
/// The contract names the result `ymd_midnight_timestamp(s@)`. Of chrono's
/// date arithmetic it states only the dates that periods give: a four-digit
/// year from 1940 to 2090, a month of one or two digits and the day `01`
/// parse, and give midnight UTC of that day, counted in days since
/// 1970-01-01 times 86400.
#[verifier::external_body]
#[allow(deprecated)]
fn parse_ymd_midnight(s: &str) -> (r: Result<i64, String>)
    ensures
        match (r, ymd_midnight_timestamp(s@)) {
            (Ok(a), Ok(b)) => a == b,
            (Err(a), Err(b)) => a@ == b,
            _ => false,
        },
        is_month_start_text(s@) ==> r == parsed_timestamp(month_start_value(s@) as i64),
{
    match chrono::NaiveDate::parse_from_str(s, "%Y-%m-%d") {
        Ok(d) => Ok(d.and_hms(0, 0, 0).timestamp()),
        Err(e) => Err(e.to_string()),
    }
}

/// The timestamp of a date text, `None` when there is no text.
pub open spec fn timestamp_spec(d: Option<Seq<char>>) -> Result<Option<i64>, Seq<char>> {
    match d {
        None => Ok(None),
        Some(s) => match ymd_midnight_timestamp(s) {
            Ok(t) => Ok(Some(t)),
            Err(m) => Err(m),
        },
    }
}

/// The timestamp (seconds since the epoch, at midnight UTC) of a
/// `"{year}-{month}-{day}"` text; `None` when there is no text; chrono's
/// parse error when the text is no such date.
pub fn construct_timestamp(date: Option<String>) -> (r: Result<Option<i64>, CustomError>)
    ensures
        match (r, timestamp_spec(opt_view(date))) {
            (Ok(a), Ok(b)) => a == b,
            (Err(CustomError::ChronoError(a)), Err(b)) => a@ == b,
            _ => false,
        },
        opt_view(date) matches Some(s) ==> (is_month_start_text(s) ==> r == Ok::<Option<i64>, CustomError>(
            Some(month_start_value(s) as i64),
        )),
{
    match date {
        None => Ok(None),
        Some(d) => match parse_ymd_midnight(d.as_str()) {
            Ok(t) => Ok(Some(t)),
            Err(m) => Err(CustomError::ChronoError(m)),
        },
    }
}

/// The prefixes that `get_date` puts before the message of a failed start
/// or end timestamp.
pub open spec fn start_error_prefix() -> Seq<char> {
    "start_date_i64_error "@
}

pub open spec fn end_error_prefix() -> Seq<char> {
    "end_date_i64_error "@
}

/// The pair of timestamps, or the error of the first that failed, its
/// message prefixed as `get_date` reports it.
pub open spec fn combine_spec(
    start: Result<Option<i64>, Seq<char>>,
    end: Result<Option<i64>, Seq<char>>,
) -> Result<Seq<Option<i64>>, Seq<char>> {
    match start {
        Err(m) => Err(start_error_prefix() + m),
        Ok(s) => match end {
            Err(m) => Err(end_error_prefix() + m),
            Ok(e) => Ok(seq![s, e]),
        },
    }
}

/// The view of a timestamp result: the value, or the error's message.
pub open spec fn timestamp_result_view(r: Result<Option<i64>, CustomError>) -> Result<Option<i64>, Seq<char>> {
    match r {
        Ok(t) => Ok(t),
        Err(e) => Err(e.message_spec()),
    }
}

/// Joins the start and end timestamps of a period into the pair that
/// `get_date` returns; a failed timestamp becomes a `ButtonNotFound` error
/// whose message says which end failed and why.
pub fn combine_dates(
    start: Result<Option<i64>, CustomError>,
    end: Result<Option<i64>, CustomError>,
) -> (r: Result<Vec<Option<i64>>, CustomError>)
    ensures
        match combine_spec(timestamp_result_view(start), timestamp_result_view(end)) {
            Ok(v) => r matches Ok(x) && x@ == v,
            Err(m) => r matches Err(CustomError::ButtonNotFound(e)) && e@ == m,
        },
{
    let start_i64 = match start {
        Ok(value) => value,
        Err(e) => {
            let msg = e.message();
            return Err(
                CustomError::ButtonNotFound(
                    String::from_str("start_date_i64_error ").concat(msg.as_str()),
                ),
            );
        },
    };
    let end_i64 = match end {
        Ok(value) => value,
        Err(e) => {
            let msg = e.message();
            return Err(
                CustomError::ButtonNotFound(
                    String::from_str("end_date_i64_error ").concat(msg.as_str()),
                ),
            );
        },
    };
    let mut v: Vec<Option<i64>> = Vec::new();
    v.push(start_i64);
    v.push(end_i64);
    assert(v@ =~= seq![start_i64, end_i64]);
    Ok(v)
}

/// What `get_date` computes: for a period caption, the timestamps of its
/// start and end dates (each `None` when the caption gives no year for it).
pub open spec fn get_date_spec(date: Option<Seq<char>>) -> Result<Seq<Option<i64>>, Seq<char>> {
    match date {
        None => Ok(seq![None, None]),
        Some(d) => {
            let st = scan_dates(words(d));
            combine_spec(
                timestamp_spec(date_string_spec(st.0)),
                timestamp_spec(date_string_spec(st.1)),
            )
        },
    }
}

/// A month text that a period gives: the number of a month from 1 to 12.
pub open spec fn month_text_ok(t: Seq<char>) -> bool {
    exists|m: int| 1 <= m <= 12 && t == #[trigger] small_number_text(m)
}

/// A date read from a period: its year, if any, is a year word from 1940
/// to 2090, and its month, if any, the number of a month.
pub open spec fn date_text_ok(d: DateText) -> bool {
    &&& d.1 matches Some(y) ==> is_year_word(y)
    &&& d.0 matches Some(t) ==> month_text_ok(t)
}

/// A timestamp that `get_date` gives: midnight UTC on the first day of a
/// month of a year from 1940 to 2090.
pub open spec fn is_month_start(t: i64) -> bool {
    exists|y: Seq<char>, m: int|
        is_year_word(y) && 1 <= m <= 12 && t == #[trigger] month_start_midnight(year_value(y), m) as i64
}

proof fn lemma_scan_fields(ws: Seq<Seq<char>>)
    ensures
        date_text_ok(scan_dates(ws).0),
        date_text_ok(scan_dates(ws).1),
    decreases ws.len(),
{
    if ws.len() > 0 {
        lemma_scan_fields(ws.drop_last());
        let w = ws.last();
        let m = month_number(w);
        if m != 0 {
            assert(1 <= m <= 12);
            assert(month_text_ok(small_number_text(m)));
        }
    }
}

/// The timestamp that a date read from a period gives.
proof fn lemma_date_string(d: DateText)
    requires
        date_text_ok(d),
    ensures
        date_string_spec(d) matches Some(s) ==> is_month_start_text(s) && date_timestamp(d) == Some(
            month_start_value(s) as i64,
        ),
        date_string_spec(d) is None ==> date_timestamp(d) is None,
        date_timestamp(d) matches Some(t) ==> is_month_start(t),
{
    if let Some(y) = d.1 {
        let m: int = match d.0 {
            Some(t) => choose|m: int| 1 <= m <= 12 && t == #[trigger] small_number_text(m),
            None => 1,
        };
        assert(small_number_text(1) =~= seq!['1']);
        lemma_month_text_value(m);
        let s = month_start_text(y, m);
        assert(date_string_spec(d) == Some(s));
        let (y2, m2) = choose|y2: Seq<char>, m2: int| is_year_word(y2) && 1 <= m2 <= 12 && s == #[trigger] month_start_text(y2, m2);
        lemma_month_start_text_unique(y, m, y2, m2);
        assert(month_start_value(s) == month_start_midnight(year_value(y), m));
        assert(date_timestamp(d) == Some(month_start_midnight(year_value(y), m) as i64));
    }
}

/// The timestamp of a date text that a period gives is that of the date.
proof fn timestamp_of_date(d: DateText, s: Option<String>, r: Result<Option<i64>, CustomError>)
    requires
        opt_view(s) == date_string_spec(d),
        date_string_spec(d) matches Some(t) ==> is_month_start_text(t) && date_timestamp(d) == Some(
            month_start_value(t) as i64,
        ),
        date_string_spec(d) is None ==> date_timestamp(d) is None,
        s is None ==> r == Ok::<Option<i64>, CustomError>(None),
        opt_view(s) matches Some(t) ==> (is_month_start_text(t) ==> r == Ok::<Option<i64>, CustomError>(
            Some(month_start_value(t) as i64),
        )),
    ensures
        r == Ok::<Option<i64>, CustomError>(date_timestamp(d)),
{
}

/// The start and end timestamps of a LinkedIn period caption such as
/// `"Jan 2019 - Mar 2021"`; `[None, None]` without a caption.
pub fn get_date(date: Option<&str>) -> (r: Result<Vec<Option<i64>>, CustomError>)
    ensures
        match get_date_spec(match date {
            Some(d) => Some(d@),
            None => None,
        }) {
            Ok(v) => r matches Ok(x) && x@ == v,
            Err(m) => r matches Err(CustomError::ButtonNotFound(e)) && e@ == m,
        },
        r matches Ok(v) && v@ == period_timestamps(
            match date {
                Some(d) => Some(d@),
                None => None,
            },
        ),
        r matches Ok(v) && v@.len() == 2 && forall|k: int|
            0 <= k < 2 ==> (#[trigger] v@[k] matches Some(t) ==> is_month_start(t)),
{
    if date.is_none() {
        let mut new_vec: Vec<Option<i64>> = Vec::new();
        new_vec.push(None);
        new_vec.push(None);
        assert(new_vec@ =~= seq![None, None]);
        return Ok(new_vec);
    }
    let date = date.unwrap();
    let dv = chars_of(date);
    let date_vec = words_chars(dv.as_slice());
    let (start_date, end_date) = scan_date_words(&date_vec);
    proof {
        lemma_scan_fields(views(date_vec@));
        lemma_date_string(start_date.view_text());
        lemma_date_string(end_date.view_text());
    }
    let start_date_string = construct_string(start_date);
    let end_date_string = construct_string(end_date);
    let start_date_i64 = construct_timestamp(start_date_string);
    let end_date_i64 = construct_timestamp(end_date_string);
    proof {
        timestamp_of_date(start_date.view_text(), start_date_string, start_date_i64);
        timestamp_of_date(end_date.view_text(), end_date_string, end_date_i64);
    }
    combine_dates(start_date_i64, end_date_i64)
}

/// A caption's words before any `"Present"` leave the reading open.
proof fn lemma_scan_open(ws: Seq<Seq<char>>)
    requires
        forall|k: int| 0 <= k < ws.len() ==> !is_present_word(#[trigger] ws[k]),
    ensures
        !scan_dates(ws).2,
    decreases ws.len(),
{
    if ws.len() > 0 {
        lemma_scan_open(ws.drop_last());
    }
}

/// Once the reading has ended, further words change nothing.
proof fn lemma_scan_ended(a: Seq<Seq<char>>, b: Seq<Seq<char>>)
    requires
        scan_dates(a).2,
    ensures
        scan_dates(a + b) == scan_dates(a),
    decreases b.len(),
{
    if b.len() == 0 {
        assert(a + b =~= a);
    } else {
        lemma_scan_ended(a, b.drop_last());
        assert((a + b).drop_last() =~= a + b.drop_last());
    }
}

/// In a period caption, `"Present"` leaves the end date open and every
/// word after it is ignored: the start date is what the words before it
/// give, and `get_date` gives no end timestamp.
pub proof fn law_words_after_present_are_ignored(d: Seq<char>, before: Seq<Seq<char>>, after: Seq<Seq<char>>)
    requires
        words(d) == before + seq![seq!['P', 'r', 'e', 's', 'e', 'n', 't']] + after,
        forall|k: int| 0 <= k < before.len() ==> !is_present_word(#[trigger] before[k]),
    ensures
        scan_dates(words(d)) == (scan_dates(before).0, (None::<Seq<char>>, None::<Seq<char>>), true),
        get_date_spec(Some(d)) == combine_spec(
            timestamp_spec(date_string_spec(scan_dates(before).0)),
            Ok(None),
        ),
{
    let p = seq!['P', 'r', 'e', 's', 'e', 'n', 't'];
    lemma_scan_open(before);
    let upto = before + seq![p];
    assert(upto.drop_last() =~= before);
    assert(is_present_word(p));
    assert(scan_dates(upto) == (scan_dates(before).0, (None::<Seq<char>>, None::<Seq<char>>), true));
    lemma_scan_ended(upto, after);
}

/// One of the words is a year from 1940 to 2090 with no `"Present"` before
/// it.
pub open spec fn has_start_year(ws: Seq<Seq<char>>) -> bool {
    exists|k: int|
        0 <= k < ws.len() && is_year_word(#[trigger] ws[k]) && forall|j: int|
            0 <= j < k ==> !is_present_word(ws[j])
}

/// The reading of a caption's words ends exactly when one of them is
/// `"Present"`, and then there is no end date.
proof fn lemma_scan_ended_iff(ws: Seq<Seq<char>>)
    ensures
        scan_dates(ws).2 <==> exists|j: int| 0 <= j < ws.len() && is_present_word(#[trigger] ws[j]),
        scan_dates(ws).2 ==> scan_dates(ws).1 == (None::<Seq<char>>, None::<Seq<char>>),
    decreases ws.len(),
{
    if ws.len() > 0 {
        let a = ws.drop_last();
        let w = ws.last();
        lemma_scan_ended_iff(a);
        if scan_dates(a).2 {
            let j = choose|j: int| 0 <= j < a.len() && is_present_word(#[trigger] a[j]);
            assert(ws[j] == a[j]);
        } else if is_present_word(w) {
            assert(ws[ws.len() - 1] == w);
        } else {
            assert forall|j: int| 0 <= j < ws.len() implies !is_present_word(#[trigger] ws[j]) by {
                if j < a.len() {
                    assert(ws[j] == a[j]);
                }
            }
        }
    }
}

proof fn lemma_start_year(ws: Seq<Seq<char>>)
    ensures
        scan_dates(ws).0.1 is Some <==> has_start_year(ws),
    decreases ws.len(),
{
    if ws.len() > 0 {
        let a = ws.drop_last();
        let w = ws.last();
        let n = a.len() as int;
        lemma_start_year(a);
        lemma_scan_ended_iff(a);
        assert forall|k: int| 0 <= k < n implies ws[k] == a[k] by {}
        if has_start_year(a) {
            let k = choose|k: int|
                0 <= k < a.len() && is_year_word(#[trigger] a[k]) && forall|j: int|
                    0 <= j < k ==> !is_present_word(a[j]);
            assert(is_year_word(ws[k]));
            assert forall|j: int| 0 <= j < k implies !is_present_word(ws[j]) by {
                assert(ws[j] == a[j]);
            }
            assert(has_start_year(ws));
        } else {
            if scan_dates(a).2 {
                let j0 = choose|j: int| 0 <= j < a.len() && is_present_word(#[trigger] a[j]);
                if has_start_year(ws) {
                    let k = choose|k: int|
                        0 <= k < ws.len() && is_year_word(#[trigger] ws[k]) && forall|j: int|
                            0 <= j < k ==> !is_present_word(ws[j]);
                    if k < n {
                        assert forall|j: int| 0 <= j < k implies !is_present_word(a[j]) by {
                            assert(ws[j] == a[j]);
                        }
                        assert(is_year_word(a[k]));
                        assert(has_start_year(a));
                    } else {
                        assert(ws[j0] == a[j0]);
                    }
                }
            } else {
                assert forall|j: int| 0 <= j < n implies !is_present_word(#[trigger] a[j]) by {}
                if has_start_year(ws) {
                    let k = choose|k: int|
                        0 <= k < ws.len() && is_year_word(#[trigger] ws[k]) && forall|j: int|
                            0 <= j < k ==> !is_present_word(ws[j]);
                    if k < n {
                        assert forall|j: int| 0 <= j < k implies !is_present_word(a[j]) by {
                            assert(ws[j] == a[j]);
                        }
                        assert(is_year_word(a[k]));
                        assert(has_start_year(a));
                    } else {
                        assert(ws[k] == w);
                        assert(!is_present_word(w));
                    }
                }
                if !is_present_word(w) && is_year_word(w) {
                    assert forall|j: int| 0 <= j < n implies !is_present_word(ws[j]) by {
                        assert(ws[j] == a[j]);
                    }
                    assert(ws[n] == w);
                    assert(has_start_year(ws));
                }
            }
        }
    }
}

/// A period caption gives a start timestamp exactly when one of its words,
/// with no `"Present"` before it, is a year from 1940 to 2090.
pub proof fn law_start_date_needs_a_year(d: Seq<char>)
    ensures
        period_timestamps(Some(d))[0] is Some <==> has_start_year(words(d)),
{
    lemma_start_year(words(d));
}

/// In a caption `a Present b` the start timestamp is that of `a` alone and
/// there is no end timestamp: whatever follows `"Present"` is ignored.
pub proof fn law_caption_after_present_is_ignored(a: Seq<char>, b: Seq<char>)
    ensures
        period_timestamps(Some(a + seq![' ', 'P', 'r', 'e', 's', 'e', 'n', 't', ' '] + b)) == seq![
            period_timestamps(Some(a))[0],
            None::<i64>,
        ],
{
    let p = seq!['P', 'r', 'e', 's', 'e', 'n', 't'];
    let d = a + seq![' ', 'P', 'r', 'e', 's', 'e', 'n', 't', ' '] + b;
    assert(d =~= a + seq![' '] + ((p + seq![' ']) + b));
    law_words_split_at_a_space(a, (p + seq![' ']) + b);
    law_words_split_at_a_space(p, b);
    assert((p + seq![' ']) + b =~= p + seq![' '] + b);
    law_solid_text_is_one_word(p);
    let wa = words(a);
    let wb = words(b);
    assert(words(d) =~= wa + seq![p] + wb);
    lemma_scan_ended_iff(wa);
    if scan_dates(wa).2 {
        assert(wa + seq![p] + wb =~= wa + (seq![p] + wb));
        lemma_scan_ended(wa, seq![p] + wb);
    } else {
        assert forall|k: int| 0 <= k < wa.len() implies !is_present_word(#[trigger] wa[k]) by {}
        law_words_after_present_are_ignored(d, wa, wb);
    }
}

/// The English three-letter abbreviation of month `m`, from `"Jan"` (1) to
/// `"Dec"` (12).
pub open spec fn month_abbreviation(m: int) -> Seq<char> {
    if m == 1 { seq!['J', 'a', 'n'] }
    else if m == 2 { seq!['F', 'e', 'b'] }
    else if m == 3 { seq!['M', 'a', 'r'] }
    else if m == 4 { seq!['A', 'p', 'r'] }
    else if m == 5 { seq!['M', 'a', 'y'] }
    else if m == 6 { seq!['J', 'u', 'n'] }
    else if m == 7 { seq!['J', 'u', 'l'] }
    else if m == 8 { seq!['A', 'u', 'g'] }
    else if m == 9 { seq!['S', 'e', 'p'] }
    else if m == 10 { seq!['O', 'c', 't'] }
    else if m == 11 { seq!['N', 'o', 'v'] }
    else { seq!['D', 'e', 'c'] }
}

/// A caption `"<Mon> <year>"`, such as `"Jul 2019"`, starts at midnight UTC
/// on the first day of that calendar month of that year, and has no end.
pub proof fn law_month_caption_starts_that_month(m: int, y: Seq<char>)
    requires
        1 <= m <= 12,
        is_year_word(y),
    ensures
        period_timestamps(Some(month_abbreviation(m) + seq![' '] + y)) == seq![
            Some(month_start_midnight(year_value(y), m) as i64),
            None::<i64>,
        ],
{
    let a = month_abbreviation(m);
    law_solid_text_is_one_word(a);
    law_solid_text_is_one_word(y);
    law_words_split_at_a_space(a, y);
    let ws = words(a + seq![' '] + y);
    assert(ws =~= seq![a, y]);
    assert(month_number(a) == m);
    assert(!is_present_word(a));
    assert(!is_year_word(a));
    assert(!is_present_word(y));
    assert(month_number(y) == 0);
    assert(ws.drop_last() =~= seq![a]);
    assert(seq![a].drop_last() =~= Seq::<Seq<char>>::empty());
    let one = seq![a];
    assert(scan_dates(one.drop_last()) == (
        (None::<Seq<char>>, None::<Seq<char>>),
        (None::<Seq<char>>, None::<Seq<char>>),
        false,
    ));
    assert(one.last() == a);
    let s1 = scan_dates(one);
    assert(s1 == scan_step(scan_dates(one.drop_last()), a));
    assert(s1 == ((Some(small_number_text(m)), None::<Seq<char>>), (None::<Seq<char>>, None::<Seq<char>>), false));
    assert(ws.last() == y);
    let st = scan_dates(ws);
    assert(st == scan_step(s1, y));
    assert(st.0 == (Some(small_number_text(m)), Some(y)));
    assert(st.1 == (None::<Seq<char>>, None::<Seq<char>>));
    lemma_month_text_value(m);
}

/// Every timestamp that `get_date` gives is a midnight, on or after the
/// first of January 1940 and on or before the first of December 2090.
pub proof fn law_month_starts_are_midnights(t: i64)
    requires
        is_month_start(t),
    ensures
        t % 86400 == 0,
        -946771200 <= t <= 3815769600,
{
    let (y, m) = choose|y: Seq<char>, m: int|
        is_year_word(y) && 1 <= m <= 12 && t == #[trigger] month_start_midnight(year_value(y), m) as i64;
    let yv = year_value(y);
    assert(1940 <= yv <= 2090);
    lemma_month_start_range(yv, m);
}

proof fn lemma_month_start_range(y: int, m: int)
    requires
        1940 <= y <= 2090,
        1 <= m <= 12,
    ensures
        -10958 <= days_to_month_start(y, m) <= 44164,
        month_start_midnight(y, m) % 86400 == 0,
        -946771200 <= month_start_midnight(y, m) <= 3815769600,
        month_start_midnight(y, m) as i64 == month_start_midnight(y, m),
{
    let yy = if m <= 2 { y - 1 } else { y };
    assert(1939 <= yy <= 2090);
    let era = yy / 400;
    assert(4 <= era <= 5);
    let yoe = yy - era * 400;
    assert(0 <= yoe < 400);
    let mp = if m > 2 { m - 3 } else { m + 9 };
    assert(0 <= mp <= 11);
    let doy = (153 * mp + 2) / 5;
    assert(0 <= doy <= 337);
    let d = days_to_month_start(y, m);
    // the day count grows with the year and the month; its ends are those
    // of January 1940 and December 2090
    assert(-10958 <= d <= 44164) by (nonlinear_arith)
        requires
            1939 <= yy <= 2090,
            era == yy / 400,
            yoe == yy - era * 400,
            0 <= mp <= 11,
            doy == (153 * mp + 2) / 5,
            d == era * 146097 + (yoe * 365 + yoe / 4 - yoe / 100 + doy) - 719468,
            mp >= 10 ==> yy >= 1939 && yy <= 2089,
            mp <= 9 ==> yy >= 1940,
    ;
    assert((d * 86400) % 86400 == 0) by (nonlinear_arith);
}

} // verus!
