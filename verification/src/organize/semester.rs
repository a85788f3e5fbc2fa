//! Period labels from file modification times.
//!
//! A modification time is mapped to the local calendar year and month; the
//! month falls into a period of `months_per_period` months, and the label is
//! the folder-name template with `{year}`, `{period}` and `{roman}` replaced.

use chrono::Datelike;
use chrono::TimeZone;
use vstd::prelude::*;
use vstd::string::*;

use crate::text::{
    dec_int, dec_nat, i64_to_decimal, lemma_dec_nat_digits, lemma_replace_all_keep_prefix,
    lemma_replace_all_match, lemma_replace_all_short, replace_all, replace_str, u64_to_decimal,
};

verus! {

/// `std::time::SystemTime`, carried opaquely.
#[verifier::external_type_specification]
#[verifier::external_body]
pub struct ExSystemTime(std::time::SystemTime);

/// `SystemTime::duration_since(UNIX_EPOCH)` in whole seconds, `None` for a
/// time before the epoch. Nothing is stated of the value: the time is opaque.
#[verifier::external_body]
fn seconds_since_epoch(t: &std::time::SystemTime) -> Option<u64> {
    t.duration_since(std::time::UNIX_EPOCH).ok().map(|d| d.as_secs())
}

/// `chrono::Local.timestamp_opt(secs, 0).earliest()`, as its year and month.
/// The result depends on the machine's time zone; claimed only: a month is
/// in `1..=12` (chrono's `Datelike::month`).
#[verifier::external_body]
fn local_year_month(secs: i64) -> (r: Option<(i32, u32)>)
    ensures
        r matches Some((_, m)) ==> 1 <= m <= 12,
{
    chrono::Local.timestamp_opt(secs, 0).earliest().map(|d| (d.year(), d.month()))
}

/// `chrono::Local::now()`, as its year and month. The result depends on the
/// clock and the time zone; claimed only: the month is in `1..=12`.
#[verifier::external_body]
fn local_year_month_now() -> (r: (i32, u32))
    ensures
        1 <= r.1 <= 12,
{
    let now = chrono::Local::now();
    (now.year(), now.month())
}

/// The 1-based period that `month` falls in.
pub open spec fn period_of(month: u32, months_per_period: u32) -> nat {
    ((month - 1) / (months_per_period as int) + 1) as nat
}

/// The Roman numeral of `n` for `1 <= n <= 12`, and `?` otherwise.
pub open spec fn roman_of(n: nat) -> Seq<char> {
    if n == 1 {
        "I"@
    } else if n == 2 {
        "II"@
    } else if n == 3 {
        "III"@
    } else if n == 4 {
        "IV"@
    } else if n == 5 {
        "V"@
    } else if n == 6 {
        "VI"@
    } else if n == 7 {
        "VII"@
    } else if n == 8 {
        "VIII"@
    } else if n == 9 {
        "IX"@
    } else if n == 10 {
        "X"@
    } else if n == 11 {
        "XI"@
    } else if n == 12 {
        "XII"@
    } else {
        "?"@
    }
}

/// The folder-name template with `{year}`, then `{period}`, then `{roman}`
/// replaced.
pub open spec fn label_text(format: Seq<char>, year: int, period: nat) -> Seq<char> {
    replace_all(
        replace_all(replace_all(format, "{year}"@, dec_int(year)), "{period}"@, dec_nat(period)),
        "{roman}"@,
        roman_of(period),
    )
}

/// No `{` occurs in the decimal rendering of a number.
proof fn lemma_dec_int_no_brace(year: int)
    ensures
        forall|i: int| 0 <= i < dec_int(year).len() ==> #[trigger] dec_int(year)[i] != '{',
{
    if year < 0 {
        lemma_dec_nat_digits((-year) as nat);
        let d = dec_nat((-year) as nat);
        assert forall|i: int| 0 <= i < dec_int(year).len() implies #[trigger] dec_int(year)[i] != '{' by {
            if i > 0 {
                assert(dec_int(year)[i] == d[i - 1]);
            }
        }
    } else {
        lemma_dec_nat_digits(year as nat);
    }
}

/// With the default settings (six-month periods, `{year}-{roman}`), January
/// to June gives `{year}-I` and July to December gives `{year}-II`.
pub proof fn law_half_year_label(year: i32, month: u32)
    requires
        1 <= month <= 12,
    ensures
        label_text("{year}-{roman}"@, year as int, period_of(month, 6)) == dec_int(year as int)
            + "-"@ + (if month <= 6 {
            "I"@
        } else {
            "II"@
        }),
{
    reveal_strlit("{year}-{roman}");
    reveal_strlit("{year}");
    reveal_strlit("{period}");
    reveal_strlit("{roman}");
    reveal_strlit("-");
    reveal_strlit("I");
    reveal_strlit("II");
    let y = dec_int(year as int);
    let p = period_of(month, 6);
    let dash = "-"@;
    let roman = "{roman}"@;
    let fmt = "{year}-{roman}"@;
    assert(fmt =~= "{year}"@ + (dash + roman));
    // {year}
    lemma_replace_all_match(dash + roman, "{year}"@, y);
    lemma_replace_all_keep_prefix(dash, roman, "{year}"@, y);
    let tail = roman.drop_first();
    assert(roman =~= seq!['{'] + tail);
    assert(roman.take(6)[1] != "{year}"@[1]);
    assert(replace_all(roman, "{year}"@, y) == seq!['{'] + replace_all(tail, "{year}"@, y));
    assert(tail =~= tail + Seq::<char>::empty());
    lemma_replace_all_keep_prefix(tail, Seq::<char>::empty(), "{year}"@, y);
    assert(replace_all(roman, "{year}"@, y) =~= roman);
    let step1 = replace_all(fmt, "{year}"@, y);
    assert(step1 =~= (y + dash) + roman);
    // {period}
    lemma_dec_int_no_brace(year as int);
    assert forall|i: int| 0 <= i < (y + dash).len() implies #[trigger] (y + dash)[i]
        != "{period}"@[0] by {
        if i < y.len() {
            assert((y + dash)[i] == y[i]);
        }
    }
    lemma_replace_all_keep_prefix(y + dash, roman, "{period}"@, dec_nat(p));
    lemma_replace_all_short(roman, "{period}"@, dec_nat(p));
    let step2 = replace_all(step1, "{period}"@, dec_nat(p));
    assert(step2 =~= (y + dash) + roman);
    // {roman}
    assert forall|i: int| 0 <= i < (y + dash).len() implies #[trigger] (y + dash)[i] != roman[0] by {
        if i < y.len() {
            assert((y + dash)[i] == y[i]);
        }
    }
    lemma_replace_all_keep_prefix(y + dash, roman, roman, roman_of(p));
    assert(roman =~= roman + Seq::<char>::empty());
    lemma_replace_all_match(Seq::<char>::empty(), roman, roman_of(p));
    assert(replace_all(Seq::<char>::empty(), roman, roman_of(p)) =~= Seq::<char>::empty());
    assert(replace_all(step2, roman, roman_of(p)) =~= (y + dash) + roman_of(p));
    assert(month <= 6 ==> p == 1);
    assert(month > 6 ==> p == 2);
}

/// The Roman numeral of `n` (1–12), `?` for any other number.
pub fn to_roman(n: u32) -> (r: &'static str)
    ensures
        r@ == roman_of(n as nat),
{
    match n {
        1 => "I",
        2 => "II",
        3 => "III",
        4 => "IV",
        5 => "V",
        6 => "VI",
        7 => "VII",
        8 => "VIII",
        9 => "IX",
        10 => "X",
        11 => "XI",
        12 => "XII",
        _ => "?",
    }
}

/// The label of the period that `month` of `year` falls in.
pub fn period_label(year: i32, month: u32, months_per_period: u32, folder_format: &str) -> (r:
    String)
    requires
        1 <= month <= 12,
        months_per_period > 0,
    ensures
        r@ == label_text(folder_format@, year as int, period_of(month, months_per_period)),
{
    let period: u32 = (month - 1) / months_per_period + 1;
    let year_text = i64_to_decimal(year as i64);
    let period_text = u64_to_decimal(period as u64);
    proof {
        reveal_strlit("{year}");
        reveal_strlit("{period}");
        reveal_strlit("{roman}");
    }
    let with_year = replace_str(folder_format, "{year}", year_text.as_str());
    let with_period = replace_str(with_year.as_str(), "{period}", period_text.as_str());
    replace_str(with_period.as_str(), "{roman}", to_roman(period))
}

/// The local year and month of a modification time: `None` for a time
/// before the Unix epoch or one that the local time zone cannot represent.
/// Which date it is, the machine's time zone decides.
pub fn file_local_date(modified: &std::time::SystemTime) -> (r: Option<(i32, u32)>)
    ensures
        r matches Some((_, m)) ==> 1 <= m <= 12,
{
    match seconds_since_epoch(modified) {
        Some(secs) => local_year_month(secs as i64),
        None => None,
    }
}

/// The label of the period of a file's local date `file_date` (year and
/// month); a file without one is labelled by today's local date instead.
pub fn label_from_local_date(
    file_date: Option<(i32, u32)>,
    months_per_period: u32,
    folder_format: &str,
) -> (r: String)
    requires
        months_per_period > 0,
        file_date matches Some((_, m)) ==> 1 <= m <= 12,
    ensures
        file_date matches Some((y, m)) ==> r@ == label_text(
            folder_format@,
            y as int,
            period_of(m, months_per_period),
        ),
        file_date is None ==> exists|year: i32, month: u32|
            1 <= month <= 12 && r@ == label_text(
                folder_format@,
                year as int,
                period_of(month, months_per_period),
            ),
{
    let date = match file_date {
        Some(d) => d,
        None => local_year_month_now(),
    };
    period_label(date.0, date.1, months_per_period, folder_format)
}

/// Compute a period label from a file's modification time, in local time:
/// the label of [`file_local_date`], or of today when the time is before the
/// Unix epoch or the local time zone cannot represent it (see
/// [`label_from_local_date`]).
pub fn semester_label(
    modified: &std::time::SystemTime,
    months_per_period: u32,
    folder_format: &str,
) -> (r: String)
    requires
        months_per_period > 0,
    ensures
        exists|year: i32, month: u32|
            1 <= month <= 12 && r@ == label_text(
                folder_format@,
                year as int,
                period_of(month, months_per_period),
            ),
{
    let file_date = file_local_date(modified);
    label_from_local_date(file_date, months_per_period, folder_format)
}

/// The half-year label `{year}-I` / `{year}-II` of a modification time.
pub fn semester_from_time(modified: &std::time::SystemTime) -> (r: String)
    ensures
        exists|year: i32, month: u32|
            1 <= month <= 12 && r@ == label_text("{year}-{roman}"@, year as int, period_of(month, 6)),
{
    semester_label(modified, 6, "{year}-{roman}")
}

} // verus!
