//! Calendar helpers for the weekly report: the days of an ISO week, the
//! report's running week and year numbers, hour labels, and the timestamp
//! form in which dates travel to clients.

use vstd::prelude::*;

use crate::model::Date;

verus! {

/// The day number of the Monday of ISO week `week` of `year`, or `None`
/// where that week does not exist.
pub uninterp spec fn iso_week_monday(year: i32, week: u32) -> Option<i32>;

/// Relies on chrono::NaiveDate::from_isoywd_opt (with Weekday::Mon) and
/// Datelike::num_days_from_ce: the Monday that opens an ISO week, as a day
/// number, or `None` for a week that the year does not have. No year has a
/// week 0 or more than 53 weeks; every year strictly inside chrono's range
/// (-262143 to 262142) has weeks 1 to 52, and its days lie within a hundred
/// million days of the epoch of the count. It steps to the year before or
/// after, which overflows at the two ends of `i32`.
#[verifier::external_body]
fn monday_of_iso_week(year: i32, week: u32) -> (r: Option<i32>)
    requires
        i32::MIN < year < i32::MAX,
    ensures
        r == iso_week_monday(year, week),
        week == 0 || week > 53 ==> r is None,
        -262143 < year < 262142 && 1 <= week <= 52 ==> r is Some,
        r matches Some(d) ==> -100_000_000 <= d <= 100_000_000,
{
    match chrono::NaiveDate::from_isoywd_opt(year, week, chrono::Weekday::Mon) {
        Some(d) => Some(chrono::Datelike::num_days_from_ce(&d)),
        None => None,
    }
}

/// The seven days of the week that starts on day `monday`, Monday first;
/// `None` where no such Monday was found or the Sunday would leave the day
/// range.
pub open spec fn week_days_spec(monday: Option<i32>) -> Option<Seq<Date>> {
    match monday {
        Some(m) => if m + 6 <= i32::MAX {
            Some(Seq::new(7, |k: int| Date { days_from_ce: (m + k) as i32 }))
        } else {
            None
        },
        None => None,
    }
}

/// The seven days, Monday to Sunday, of the week that starts on `monday`.
pub fn week_days_from(monday: Option<i32>) -> (r: Option<Vec<Date>>)
    ensures
        match r {
            Some(v) => week_days_spec(monday) == Some(v@),
            None => week_days_spec(monday) is None,
        },
{
    let m = match monday {
        Some(m) => m,
        None => {
            return None;
        },
    };
    if m > i32::MAX - 6 {
        return None;
    }
    let mut days: Vec<Date> = Vec::new();
    let mut k: i32 = 0;
    while k < 7
        invariant
            0 <= k <= 7,
            m + 6 <= i32::MAX,
            days@.len() == k,
            forall|i: int| 0 <= i < k ==> days@[i] == (Date { days_from_ce: (m + i) as i32 }),
        decreases 7 - k,
    {
        days.push(Date { days_from_ce: m + k });
        k = k + 1;
    }
    assert(days@ =~= Seq::new(7, |k: int| Date { days_from_ce: (m + k) as i32 }));
    Some(days)
}

/// The days of ISO week `week` of `year`, if the week exists. The two
/// extreme `i32` years lie far outside any calendar and have no weeks.
pub open spec fn iso_week_days(year: i32, week: u32) -> Option<Seq<Date>> {
    if year == i32::MIN || year == i32::MAX {
        None
    } else {
        week_days_spec(iso_week_monday(year, week))
    }
}

/// The days of ISO week `week` of `year`, Monday to Sunday; `None` for a
/// week that the year does not have.
pub fn to_week_days(year: i32, week: u32) -> (r: Option<Vec<Date>>)
    ensures
        match r {
            Some(v) => iso_week_days(year, week) == Some(v@),
            None => iso_week_days(year, week) is None,
        },
        week == 0 || week > 53 ==> r is None,
        -262143 < year < 262142 && 1 <= week <= 52 ==> r is Some,
{
    if year == i32::MIN || year == i32::MAX {
        return None;
    }
    week_days_from(monday_of_iso_week(year, week))
}

/// Division that rounds toward zero, as machine integers divide.
pub open spec fn trunc_div(a: int, b: int) -> int {
    if a >= 0 {
        a / b
    } else {
        -((-a) / b)
    }
}

/// The day the reports count from: Monday, 2 September 2019.
pub const REPORT_START_DAY: i32 = 737304;

/// The running numbers printed on a weekly report.
#[derive(Clone, Copy, Debug, PartialEq, Eq)]
pub struct ReportWeek {
    /// The week's number, counting the first report week as 1.
    pub number: i64,
    /// The report year, counting blocks of 52 weeks from 1.
    pub year: i64,
}

/// The whole weeks from the report start to `first_day`, rounded toward
/// zero.
pub open spec fn weeks_since_start(first_day: Date) -> int {
    trunc_div(first_day.days_from_ce - REPORT_START_DAY, 7)
}

/// The running numbers of the report whose week starts on `first_day`.
pub fn report_week(first_day: Date) -> (r: ReportWeek)
    ensures
        r.number == weeks_since_start(first_day) + 1,
        r.year == trunc_div(weeks_since_start(first_day), 52) + 1,
{
    let diff: i64 = first_day.days_from_ce as i64 - REPORT_START_DAY as i64;
    let weeks: i64 = if diff >= 0 {
        diff / 7
    } else {
        -((-diff) / 7)
    };
    let years: i64 = if weeks >= 0 {
        weeks / 52
    } else {
        -((-weeks) / 52)
    };
    ReportWeek { number: weeks + 1, year: years + 1 }
}

/// The decimal digit character for a value below ten.
pub open spec fn digit_char(d: nat) -> char {
    (d + 48) as char
}

/// The decimal digits of a natural number, most significant first.
pub open spec fn digits_of(n: nat) -> Seq<char>
    decreases n,
{
    if n < 10 {
        seq![digit_char(n)]
    } else {
        digits_of(n / 10) + seq![digit_char(n % 10)]
    }
}

/// The decimal text of an integer, with a leading minus when negative.
pub open spec fn decimal_text(n: int) -> Seq<char> {
    if n < 0 {
        seq!['-'] + digits_of((-n) as nat)
    } else {
        digits_of(n as nat)
    }
}

/// The one-character text of a decimal digit.
fn digit_text(d: u64) -> (r: &'static str)
    requires
        d < 10,
    ensures
        r@ == seq![digit_char(d as nat)],
{
    proof {
        reveal_strlit("0");
        reveal_strlit("1");
        reveal_strlit("2");
        reveal_strlit("3");
        reveal_strlit("4");
        reveal_strlit("5");
        reveal_strlit("6");
        reveal_strlit("7");
        reveal_strlit("8");
        reveal_strlit("9");
    }
    match d {
        0 => "0",
        1 => "1",
        2 => "2",
        3 => "3",
        4 => "4",
        5 => "5",
        6 => "6",
        7 => "7",
        8 => "8",
        _ => "9",
    }
}

/// Appends the decimal digits of `n` to `out`.
fn write_digits(n: u64, out: &mut String)
    ensures
        final(out)@ == old(out)@ + digits_of(n as nat),
    decreases n,
{
    if n < 10 {
        out.append(digit_text(n));
    } else {
        write_digits(n / 10, out);
        out.append(digit_text(n % 10));
        assert(out@ =~= old(out)@ + digits_of(n as nat));
    }
}

/// The decimal text of an integer.
pub fn decimal(n: i64) -> (r: String)
    ensures
        r@ == decimal_text(n as int),
{
    let mut out = String::new();
    if n < 0 {
        proof {
            reveal_strlit("-");
        }
        out.append("-");
        let magnitude: u64 = if n == i64::MIN {
            9223372036854775808
        } else {
            (-n) as u64
        };
        write_digits(magnitude, &mut out);
    } else {
        write_digits(n as u64, &mut out);
    }
    out
}

/// The label of a duration given in minutes: its whole hours (rounded
/// toward zero) and "Stunde" for exactly one hour, "Stunden" otherwise.
pub open spec fn hours_label(minutes: int) -> Seq<char> {
    let h = trunc_div(minutes, 60);
    decimal_text(h) + if h == 1 {
        " Stunde"@
    } else {
        " Stunden"@
    }
}

/// Writes the hour label of a duration given in minutes.
pub fn to_hours(minutes: i64) -> (r: String)
    ensures
        r@ == hours_label(minutes as int),
{
    let hours: i64 = if minutes >= 0 {
        minutes / 60
    } else if minutes == i64::MIN {
        -(i64::MAX / 60)
    } else {
        -((-minutes) / 60)
    };
    assert(hours == trunc_div(minutes as int, 60)) by {
        if minutes == i64::MIN {
            assert(i64::MAX / 60 == (-(minutes as int)) / 60);
        }
    }
    let mut label = decimal(hours);
    if hours == 1 {
        label.append(" Stunde");
    } else {
        label.append(" Stunden");
    }
    label
}

/// The day number of 1 January 1970.
pub const UNIX_EPOCH_DAY: i32 = 719163;

/// The seconds from the Unix epoch to the start of a day.
pub open spec fn timestamp_of(d: Date) -> int {
    (d.days_from_ce - UNIX_EPOCH_DAY) * 86400
}

/// The day that lies a number of milliseconds from the Unix epoch, counting
/// whole days only (rounded toward zero), if its day number fits.
pub open spec fn day_of_millis(millis: int) -> Option<Date> {
    let day = UNIX_EPOCH_DAY + trunc_div(millis, 86400000);
    if millis != i64::MIN && i32::MIN <= day <= i32::MAX {
        Some(Date { days_from_ce: day as i32 })
    } else {
        None
    }
}

/// A date in the form clients receive it: the seconds from the Unix epoch to
/// the start of the day.
pub fn serialize(date: &Date) -> (r: i64)
    ensures
        r == timestamp_of(*date),
{
    (date.days_from_ce as i64 - UNIX_EPOCH_DAY as i64) * 86400
}

/// A date in the form clients send it: milliseconds from the Unix epoch,
/// of which whole days count. `None` for `i64::MIN`, which is no valid
/// duration, and where the day leaves the day range.
pub fn deserialize(millis: i64) -> (r: Option<Date>)
    ensures
        r == day_of_millis(millis as int),
{
    if millis == i64::MIN {
        return None;
    }
    let days: i64 = if millis >= 0 {
        millis / 86400000
    } else {
        -((-millis) / 86400000)
    };
    let day: i64 = UNIX_EPOCH_DAY as i64 + days;
    if day < i32::MIN as i64 || day > i32::MAX as i64 {
        return None;
    }
    Some(Date { days_from_ce: day as i32 })
}

} // verus!
