//! Decisions of the CI tool that rebuilds the scripts.
use vstd::prelude::*;
use std::fmt::Write;
use crate::text::{cat, char_views, chars_of, join, join_chars, string_of, string_views, text_of};

verus! {

/// The directories that are searched, innermost first, for the marker file of the scripts'
/// top directory, given the components of an absolute working directory: the directory
/// itself and each of its ancestors, down to but not including the root.
pub open spec fn search_dirs(components: Seq<Seq<char>>) -> Seq<Seq<char>> {
    Seq::new(
        components.len(),
        |i: int| "/"@ + join(components.take(components.len() - i), "/"@),
    )
}

/// The file whose presence marks the scripts' top directory, relative to it.
pub open spec fn marker_file() -> Seq<char> {
    "build-android/.gitignore"@
}

/// The file whose presence marks the scripts' top directory.
pub fn script_dir_marker() -> (r: String)
    ensures
        r@ == marker_file(),
{
    text_of("build-android/.gitignore")
}

/// The directories to search for the scripts' top directory, innermost first, given the
/// components of the absolute working directory.
pub fn script_dir_candidates(components: &Vec<String>) -> (r: Vec<String>)
    ensures
        string_views(r@) == search_dirs(string_views(components@)),
{
    let ghost cs = string_views(components@);
    let n = components.len();
    let mut parts: Vec<Vec<char>> = Vec::new();
    let mut k: usize = 0;
    while k < n
        invariant
            k <= n == components.len(),
            cs == string_views(components@),
            char_views(parts@) == cs.take(k as int),
        decreases n - k,
    {
        let ghost before = parts@;
        parts.push(chars_of(components[k].as_str()));
        assert(char_views(parts@) =~= char_views(before).push(cs[k as int]));
        assert(cs.take(k + 1) =~= cs.take(k as int).push(cs[k as int]));
        k = k + 1;
    }
    assert(cs.take(n as int) =~= cs);
    let slash = chars_of("/");
    let mut out: Vec<String> = Vec::new();
    let mut m: usize = n;
    while m > 0
        invariant
            m <= n == components.len(),
            cs == string_views(components@),
            char_views(parts@) == cs,
            slash@ == "/"@,
            string_views(out@) == search_dirs(cs).take(n - m),
        decreases m,
    {
        let mut prefix: Vec<Vec<char>> = Vec::new();
        let mut j: usize = 0;
        while j < m
            invariant
                j <= m <= n == parts.len(),
                char_views(parts@) == cs,
                char_views(prefix@) == cs.take(j as int),
            decreases m - j,
        {
            let ghost before = prefix@;
            prefix.push(crate::text::copy_range(&parts[j], 0, parts[j].len()));
            assert(parts@[j as int]@.subrange(0, parts@[j as int]@.len() as int) =~= parts@[j as int]@);
            assert(char_views(prefix@) =~= char_views(before).push(cs[j as int]));
            assert(cs.take(j + 1) =~= cs.take(j as int).push(cs[j as int]));
            j = j + 1;
        }
        let joined = join_chars(&prefix, &slash);
        let dir = cat("/", string_of(&joined).as_str());
        let ghost before = out@;
        out.push(dir);
        assert(search_dirs(cs)[(n - m) as int] == "/"@ + join(cs.take(m as int), "/"@));
        assert(string_views(out@) =~= string_views(before).push(dir@));
        assert(string_views(out@) =~= search_dirs(cs).take(n - m + 1));
        m = m - 1;
    }
    assert(search_dirs(cs).take(n as int) =~= search_dirs(cs));
    out
}

/// The scripts that the CI tool rebuilds, in order.
pub open spec fn ci_script_names() -> Seq<Seq<char>> {
    seq!["build-android"@, "emoji"@, "fork-aosp"@, "manage"@, "update-checkout"@]
}

/// The scripts that the CI tool rebuilds, in order.
pub fn ci_scripts() -> (r: Vec<String>)
    ensures
        string_views(r@) == ci_script_names(),
{
    let r = vec![
        text_of("build-android"),
        text_of("emoji"),
        text_of("fork-aosp"),
        text_of("manage"),
        text_of("update-checkout"),
    ];
    assert(string_views(r@) =~= ci_script_names());
    r
}

/// The commit message for rebuilt scripts, with the date stamp `stamp`.
pub fn commit_message_for(stamp: &str) -> (r: String)
    ensures
        r@ == "rebuilt scripts "@ + stamp@,
{
    cat("rebuilt scripts ", stamp)
}

/// The decimal digit `d`, for `0 <= d <= 9`.
pub open spec fn digit(d: int) -> char {
    seq!['0', '1', '2', '3', '4', '5', '6', '7', '8', '9'][d]
}

/// `n` in decimal, without leading zeros.
pub open spec fn decimal(n: nat) -> Seq<char>
    decreases n,
{
    if n < 10 {
        seq![digit(n as int)]
    } else {
        decimal(n / 10).push(digit((n % 10) as int))
    }
}

/// The year `y` (at least 1000) as `"%Y"` writes it: its digits, with a `+` before a year
/// past 9999.
pub open spec fn year_text(y: int) -> Seq<char> {
    if y <= 9999 {
        decimal(y as nat)
    } else {
        "+"@ + decimal(y as nat)
    }
}

/// `n` (below 100) in two digits, zero-padded.
pub open spec fn two_digits(n: int) -> Seq<char> {
    seq![digit(n / 10), digit(n % 10)]
}

/// The date stamp `"%Y%m%d"` of year `y`, month `m` and day `d`.
pub open spec fn date_stamp(y: int, m: int, d: int) -> Seq<char> {
    year_text(y) + two_digits(m) + two_digits(d)
}

/// Whether `y` is a leap year of the Gregorian calendar.
pub open spec fn is_leap(y: int) -> bool {
    (y % 4 == 0 && y % 100 != 0) || y % 400 == 0
}

/// The number of days of month `m` (1 to 12) of year `y`.
pub open spec fn month_days(y: int, m: int) -> int {
    if m == 2 {
        if is_leap(y) {
            29
        } else {
            28
        }
    } else if m == 4 || m == 6 || m == 9 || m == 11 {
        30
    } else {
        31
    }
}

/// Whether month `m` of year `y` has a day `d`.
pub open spec fn valid_date(y: int, m: int, d: int) -> bool {
    1 <= m <= 12 && 1 <= d <= month_days(y, m)
}

/// The number of days from 1970-01-01 to the first day of year `y` (from 1970 on).
pub open spec fn days_before_year(y: int) -> int
    decreases y - 1970,
{
    if y <= 1970 {
        0
    } else {
        days_before_year(y - 1) + if is_leap(y - 1) {
            366int
        } else {
            365int
        }
    }
}

/// The number of days of year `y` before the first day of month `m`.
pub open spec fn days_before_month(y: int, m: int) -> int
    decreases m,
{
    if m <= 1 {
        0
    } else {
        days_before_month(y, m - 1) + month_days(y, m - 1)
    }
}

/// The number of days from 1970-01-01 to the date `y`-`m`-`d`.
pub open spec fn days_since_epoch(y: int, m: int, d: int) -> int {
    days_before_year(y) + days_before_month(y, m) + d - 1
}

/// Whether `s` is the `"%Y%m%d"` stamp of the UTC date `secs` (at least 0) seconds after the
/// Unix epoch: the date from 1970 on that lies `secs / 86400` whole days after 1970-01-01.
pub open spec fn is_utc_stamp_of(s: Seq<char>, secs: int) -> bool {
    exists|y: int, m: int, d: int|
        #![trigger date_stamp(y, m, d)]
        1970 <= y && valid_date(y, m, d) && days_since_epoch(y, m, d) == secs / 86400 && s
            == date_stamp(y, m, d)
}

/// Reads the clock with `std::time::UNIX_EPOCH.elapsed()` and gives the time since the Unix
/// epoch as whole seconds and the nanoseconds past them, or `None` where the clock reads
/// before the epoch (the `Err` of `elapsed`). The time depends on the clock, so the contract
/// claims only what `Duration::subsec_nanos` documents: fewer than a billion nanoseconds.
#[verifier::external_body]
fn time_since_epoch() -> (r: Option<(u64, u32)>)
    ensures
        r matches Some(t) ==> t.1 < 1_000_000_000,
{
    match std::time::UNIX_EPOCH.elapsed() {
        Ok(d) => Some((d.as_secs(), d.subsec_nanos())),
        Err(_) => None,
    }
}

/// What chrono writes for the UTC date `secs` seconds after the Unix epoch with the format
/// string `fmt`.
pub uninterp spec fn utc_date_formatted(secs: int, fmt: Seq<char>) -> Seq<char>;

/// Calls `chrono::DateTime::from_timestamp(secs, nanos)` and writes the date of the result
/// with the format string `fmt` (`NaiveDate::format`). It gives `None` where chrono cannot
/// represent that time or the format cannot be written (the `Err` of `write!`). The result is
/// named `utc_date_formatted`, a function of `secs` and `fmt` (the date does not depend on the
/// nanoseconds). For `"%Y%m%d"` the source shows more, which is stated: every time from the
/// epoch through the end of the year 9999 with fewer than a billion nanoseconds is
/// represented, and the text is the Gregorian date's year in its digits (a `+` before a year
/// past 9999), then the month and the day in two zero-padded digits.
#[verifier::external_body]
fn utc_date_text(secs: i64, nanos: u32, fmt: &str) -> (r: Option<String>)
    ensures
        r matches Some(s) ==> s@ == utc_date_formatted(secs as int, fmt@),
        fmt@ == "%Y%m%d"@ && 0 <= secs <= 253_402_300_799 && nanos < 1_000_000_000 ==> r is Some,
        fmt@ == "%Y%m%d"@ && secs >= 0 ==> (r matches Some(s) ==> is_utc_stamp_of(
            s@,
            secs as int,
        )),
{
    match chrono::DateTime::from_timestamp(secs, nanos) {
        Some(t) => {
            let mut out = String::new();
            match write!(out, "{}", t.date_naive().format(fmt)) {
                Ok(()) => Some(out),
                Err(_) => None,
            }
        },
        None => None,
    }
}

/// The commit message for scripts rebuilt `secs` seconds and `nanos` nanoseconds after the
/// Unix epoch: "rebuilt scripts " and that UTC date as `"%Y%m%d"`. It is `None` only where the
/// time is past what an `i64` holds or what chrono can represent, which no time through the
/// end of the year 9999 is.
pub fn commit_message_at(secs: u64, nanos: u32) -> (r: Option<String>)
    ensures
        secs > i64::MAX ==> r is None,
        secs <= 253_402_300_799 && nanos < 1_000_000_000 ==> r is Some,
        r matches Some(m) ==> m@ == "rebuilt scripts "@ + utc_date_formatted(
            secs as int,
            "%Y%m%d"@,
        ),
        r matches Some(m) ==> exists|y: int, mo: int, d: int|
            #![trigger date_stamp(y, mo, d)]
            1970 <= y && valid_date(y, mo, d) && days_since_epoch(y, mo, d) == secs / 86400
                && m@ == "rebuilt scripts "@ + date_stamp(y, mo, d),
{
    if secs > 9_223_372_036_854_775_807u64 {
        return None;
    }
    let s: i64 = secs as i64;
    match utc_date_text(s, nanos, "%Y%m%d") {
        Some(stamp) => {
            let m = commit_message_for(stamp.as_str());
            proof {
                let (y, mo, d) = choose|y: int, mo: int, d: int|
                    #![trigger date_stamp(y, mo, d)]
                    1970 <= y && valid_date(y, mo, d) && days_since_epoch(y, mo, d) == secs
                        / 86400 && stamp@ == date_stamp(y, mo, d);
                assert(m@ == "rebuilt scripts "@ + date_stamp(y, mo, d));
            }
            Some(m)
        },
        None => None,
    }
}

/// The commit message for scripts rebuilt now: "rebuilt scripts " and today's UTC date, or
/// `None` where the clock reads before the Unix epoch or past what chrono can represent.
pub fn rebuild_commit_message() -> (r: Option<String>)
    ensures
        r matches Some(m) ==> exists|y: int, mo: int, d: int|
            #![trigger date_stamp(y, mo, d)]
            1970 <= y && valid_date(y, mo, d) && m@ == "rebuilt scripts "@ + date_stamp(y, mo, d),
{
    match time_since_epoch() {
        Some((secs, nanos)) => commit_message_at(secs, nanos),
        None => None,
    }
}

/// The first of `candidates` whose flag in `marked` is set, where both lists reach.
pub fn first_marked_dir(candidates: &Vec<String>, marked: &Vec<bool>) -> (r: Option<String>)
    ensures
        r is None <==> forall|i: int|
            0 <= i < candidates.len() && i < marked.len() ==> !marked[i],
        r matches Some(s) ==> exists|i: int|
            0 <= i < candidates.len() && i < marked.len() && marked[i] && s@ == candidates[i]@
                && forall|j: int| 0 <= j < i ==> !marked[j],
{
    let mut k: usize = 0;
    while k < candidates.len() && k < marked.len()
        invariant
            k <= candidates.len(),
            forall|j: int| 0 <= j < k && j < marked.len() ==> !marked[j],
        decreases candidates.len() - k,
    {
        if marked[k] {
            let s = text_of(candidates[k].as_str());
            assert(forall|j: int| 0 <= j < k ==> !marked[j]);
            return Some(s);
        }
        k = k + 1;
    }
    None
}

} // verus!
