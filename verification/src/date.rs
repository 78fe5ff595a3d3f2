//! Calendar dates as the forms type them and as records store them.
//! Parsing is chrono's; the two spellings the application writes —
//! `YYYY-MM-DD` in storage and filenames, `DD.MM.YYYY` in forms — are
//! stated and built here.
use vstd::prelude::*;

use chrono::Datelike;

use crate::text::{nat_digits, push_u64_digits, spec_trim, trim};

verus! {

/// A date chrono can hold: a month in 1..=12 and a day in 1..=31.
pub open spec fn is_calendar_date(d: (i32, u32, u32)) -> bool {
    1 <= d.1 <= 12 && 1 <= d.2 <= 31
}

/// What `chrono::NaiveDate::parse_from_str(s, fmt)` yields, read as
/// `(year, month, day)`.
pub uninterp spec fn chrono_parse_date(s: Seq<char>, fmt: Seq<char>) -> Option<(i32, u32, u32)>;

/// Calls `chrono::NaiveDate::parse_from_str(s, fmt)` and reads the parsed
/// date's year, month and day. The result is `chrono_parse_date` of the
/// arguments; a parsed date's month is in 1..=12 and its day in 1..=31, as
/// chrono documents `month()` and `day()`.
#[verifier::external_body]
fn parse_date_with(s: &str, fmt: &str) -> (r: Option<(i32, u32, u32)>)
    ensures
        r == chrono_parse_date(s@, fmt@),
        r matches Some(d) ==> is_calendar_date(d),
{
    match chrono::NaiveDate::parse_from_str(s, fmt) {
        Ok(d) => Some((d.year(), d.month(), d.day())),
        Err(_) => None,
    }
}

/// Calls `chrono::Local::now()` and reads the local date's year, month
/// and day. Only the ranges of month and day are claimed: the date itself
/// depends on the clock and the machine's time zone.
#[verifier::external_body]
pub(crate) fn local_today() -> (r: (i32, u32, u32))
    ensures
        is_calendar_date(r),
{
    let d = chrono::Local::now().date_naive();
    (d.year(), d.month(), d.day())
}

/// The date a typed date input denotes, if any: the trimmed input read
/// as `DD.MM.YYYY`, else as `YYYY-MM-DD`.
pub open spec fn spec_parse_date_input(s: Seq<char>) -> Option<(i32, u32, u32)> {
    let t = spec_trim(s);
    match chrono_parse_date(t, "%d.%m.%Y"@) {
        Some(d) => Some(d),
        None => chrono_parse_date(t, "%Y-%m-%d"@),
    }
}

/// Parses a date as typed into a form: `DD.MM.YYYY` (the form's own
/// spelling) or `YYYY-MM-DD` (a stored date put back into the field),
/// ignoring surrounding whitespace.
pub fn parse_date_input(s: &str) -> (r: Option<(i32, u32, u32)>)
    ensures
        r == spec_parse_date_input(s@),
        r matches Some(d) ==> is_calendar_date(d),
{
    let t = trim(s);
    proof {
        reveal_strlit("%d.%m.%Y");
        reveal_strlit("%Y-%m-%d");
    }
    match parse_date_with(t, "%d.%m.%Y") {
        Some(d) => Some(d),
        None => parse_date_with(t, "%Y-%m-%d"),
    }
}

/// `n` zero-padded to two digits, as chrono's `%m` and `%d` write it.
pub open spec fn pad2(n: nat) -> Seq<char> {
    if n < 10 {
        "0"@ + nat_digits(n)
    } else {
        nat_digits(n)
    }
}

/// `n` zero-padded to four digits.
pub open spec fn pad4(n: nat) -> Seq<char> {
    if n < 10 {
        "000"@ + nat_digits(n)
    } else if n < 100 {
        "00"@ + nat_digits(n)
    } else if n < 1000 {
        "0"@ + nat_digits(n)
    } else {
        nat_digits(n)
    }
}

/// The year as chrono's `%Y` writes it: four zero-padded digits for years
/// 0..=9999, and an explicit sign before them otherwise.
pub open spec fn year4(y: i32) -> Seq<char> {
    if 0 <= y <= 9999 {
        pad4(y as nat)
    } else if y < 0 {
        "-"@ + pad4((-y) as nat)
    } else {
        "+"@ + pad4(y as nat)
    }
}

/// `YYYY-MM-DD`, chrono's `%Y-%m-%d`.
pub open spec fn spec_iso_date(d: (i32, u32, u32)) -> Seq<char> {
    year4(d.0) + "-"@ + pad2(d.1 as nat) + "-"@ + pad2(d.2 as nat)
}

/// `DD.MM.YYYY`, chrono's `%d.%m.%Y`.
pub open spec fn spec_dotted_date(d: (i32, u32, u32)) -> Seq<char> {
    pad2(d.2 as nat) + "."@ + pad2(d.1 as nat) + "."@ + year4(d.0)
}

fn push_pad2(out: &mut String, n: u32)
    ensures
        final(out)@ == old(out)@ + pad2(n as nat),
{
    if n < 10 {
        out.append("0");
        proof { reveal_strlit("0"); }
    }
    push_u64_digits(out, n as u64);
    assert(out@ =~= old(out)@ + pad2(n as nat));
}

fn push_pad4(out: &mut String, n: u64)
    ensures
        final(out)@ == old(out)@ + pad4(n as nat),
{
    proof {
        reveal_strlit("000");
        reveal_strlit("00");
        reveal_strlit("0");
    }
    if n < 10 {
        out.append("000");
    } else if n < 100 {
        out.append("00");
    } else if n < 1000 {
        out.append("0");
    }
    push_u64_digits(out, n);
    assert(out@ =~= old(out)@ + pad4(n as nat));
}

fn push_year(out: &mut String, y: i32)
    ensures
        final(out)@ == old(out)@ + year4(y),
{
    proof {
        reveal_strlit("-");
        reveal_strlit("+");
    }
    if 0 <= y && y <= 9999 {
        push_pad4(out, y as u64);
    } else if y < 0 {
        out.append("-");
        let m: u64 = (-(y as i64)) as u64;
        push_pad4(out, m);
    } else {
        out.append("+");
        push_pad4(out, y as u64);
    }
    assert(out@ =~= old(out)@ + year4(y));
}

/// Writes a date as `YYYY-MM-DD`, the spelling records are stored and
/// documents are filed under.
pub fn iso_date(d: (i32, u32, u32)) -> (s: String)
    ensures
        s@ == spec_iso_date(d),
{
    proof { reveal_strlit("-"); }
    let mut s = String::new();
    push_year(&mut s, d.0);
    s.append("-");
    push_pad2(&mut s, d.1);
    s.append("-");
    push_pad2(&mut s, d.2);
    assert(s@ =~= spec_iso_date(d));
    s
}

/// Writes a date as `DD.MM.YYYY`, the spelling the forms show.
pub fn dotted_date(d: (i32, u32, u32)) -> (s: String)
    ensures
        s@ == spec_dotted_date(d),
{
    proof { reveal_strlit("."); }
    let mut s = String::new();
    push_pad2(&mut s, d.2);
    s.append(".");
    push_pad2(&mut s, d.1);
    s.append(".");
    push_year(&mut s, d.0);
    assert(s@ =~= spec_dotted_date(d));
    s
}

/// Normalises a typed date to `YYYY-MM-DD` for storage, or reports it
/// as invalid.
pub fn parse_date(s: &str) -> (r: Result<String, String>)
    ensures
        match spec_parse_date_input(s@) {
            Some(d) => r matches Ok(t) && t@ == spec_iso_date(d),
            None => r matches Err(e) && e@ == "invalid date: "@ + crate::text::str_debug(s@),
        },
{
    match parse_date_input(s) {
        Some(d) => Ok(iso_date(d)),
        None => {
            let mut e = String::from_str("invalid date: ");
            let q = crate::text::debug_quoted(s);
            e.append(q.as_str());
            Err(e)
        },
    }
}

} // verus!
