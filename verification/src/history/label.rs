//! When downloads finished, as shown in the list.
use crate::text;
use vstd::prelude::*;

verus! {

/// A date and time of day where the user is.
#[derive(Debug, Clone, Copy, PartialEq, Eq, Structural)]
pub struct LocalMoment {
    pub year: i32,
    pub month: u32,
    pub day: u32,
    pub hour: u32,
    pub minute: u32,
}

/// The last millisecond since the Unix epoch that a date can be given for.
pub const MAX_MILLIS: u64 = 8_210_266_876_799_999;

/// The last millisecond for which the date is within range in every time zone.
pub const MAX_ZONED_MILLIS: u64 = 8_210_266_790_399_999;

pub open spec fn is_leap(year: int) -> bool {
    year % 4 == 0 && (year % 100 != 0 || year % 400 == 0)
}

pub open spec fn month_days(year: int, month: int) -> int {
    if month == 2 {
        if is_leap(year) {
            29
        } else {
            28
        }
    } else if month == 4 || month == 6 || month == 9 || month == 11 {
        30
    } else {
        31
    }
}

pub open spec fn valid_date(year: int, month: int, day: int) -> bool {
    -262143 <= year <= 262142 && 1 <= month <= 12 && 1 <= day <= month_days(year, month)
}

/// The days of a year before a month.
pub open spec fn days_before_month(year: int, month: int) -> int
    decreases month,
{
    if month <= 1 {
        0
    } else {
        days_before_month(year, month - 1) + month_days(year, month - 1)
    }
}

/// The days from the first day of 1970 to a day.
pub open spec fn day_number(year: int, month: int, day: int) -> int {
    let before = year - 1;
    365 * (year - 1970) + (before / 4 - before / 100 + before / 400) - 477 + days_before_month(
        year,
        month,
    ) + day - 1
}

/// The calendar day before a day, if there is one in range.
pub open spec fn day_before(year: int, month: int, day: int) -> Option<(int, int, int)> {
    if day > 1 {
        Some((year, month, day - 1))
    } else if month > 1 {
        Some((year, month - 1, month_days(year, month - 1)))
    } else if year > -262143 {
        Some((year - 1, 12, 31))
    } else {
        None
    }
}

impl LocalMoment {
    pub open spec fn valid(self) -> bool {
        valid_date(self.year as int, self.month as int, self.day as int) && self.hour < 24
            && self.minute < 60
    }

    /// The minutes from the start of 1970 to the moment, on the same clock.
    pub open spec fn minutes(self) -> int {
        1440 * day_number(self.year as int, self.month as int, self.day as int) + 60 * self.hour
            + self.minute
    }

    pub open spec fn same_day(self, other: LocalMoment) -> bool {
        self.year == other.year && self.month == other.month && self.day == other.day
    }
}

/// `chrono::Local::now`: the date and time where the user is. Which one it is depends on the
/// clock and the machine's time zone.
#[verifier::external_body]
fn local_now() -> (r: LocalMoment)
    ensures
        r.valid(),
{
    let now = chrono::Local::now().naive_local();
    LocalMoment {
        year: chrono::Datelike::year(&now),
        month: chrono::Datelike::month(&now),
        day: chrono::Datelike::day(&now),
        hour: chrono::Timelike::hour(&now),
        minute: chrono::Timelike::minute(&now),
    }
}

/// `chrono::DateTime::from_timestamp_millis`, `with_timezone` for the machine's time zone, and
/// `NaiveDateTime::checked_add_offset`: a moment as date and time where the user is, or nothing
/// where that is out of range. The clock there is less than a day ahead or behind. Which date it
/// is depends on the time zone.
#[verifier::external_body]
fn local_moment(millis: i64) -> (r: Option<LocalMoment>)
    requires
        0 <= millis,
    ensures
        millis <= MAX_ZONED_MILLIS ==> r is Some,
        millis > MAX_MILLIS ==> r is None,
        r matches Some(moment) ==> moment.valid() && 1969 <= moment.year && millis / 60_000 - 1440
            <= moment.minutes() <= millis / 60_000 + 1440,
{
    let utc = chrono::DateTime::<chrono::Utc>::from_timestamp_millis(millis)?;
    let offset = *utc.with_timezone(&chrono::Local).offset();
    let local = utc.naive_utc().checked_add_offset(offset)?;
    Some(
        LocalMoment {
            year: chrono::Datelike::year(&local),
            month: chrono::Datelike::month(&local),
            day: chrono::Datelike::day(&local),
            hour: chrono::Timelike::hour(&local),
            minute: chrono::Timelike::minute(&local),
        },
    )
}

fn is_leap_year(year: i32) -> (r: bool)
    ensures
        r == is_leap(year as int),
{
    // Exact division has no remainder whichever way a negative quotient is rounded.
    year % 4 == 0 && (year % 100 != 0 || year % 400 == 0)
}

fn days_in(year: i32, month: u32) -> (r: u32)
    requires
        1 <= month <= 12,
    ensures
        r == month_days(year as int, month as int),
{
    if month == 2 {
        if is_leap_year(year) {
            29
        } else {
            28
        }
    } else if month == 4 || month == 6 || month == 9 || month == 11 {
        30
    } else {
        31
    }
}

/// The views of an optional date.
pub open spec fn date_view(date: Option<(i32, u32, u32)>) -> Option<(int, int, int)> {
    match date {
        Some((year, month, day)) => Some((year as int, month as int, day as int)),
        None => None,
    }
}

/// The calendar day before a day.
fn previous_day(year: i32, month: u32, day: u32) -> (r: Option<(i32, u32, u32)>)
    requires
        valid_date(year as int, month as int, day as int),
    ensures
        date_view(r) == day_before(year as int, month as int, day as int),
{
    if day > 1 {
        Some((year, month, day - 1))
    } else if month > 1 {
        Some((year, month - 1, days_in(year, month - 1)))
    } else if year > -262143 {
        Some((year - 1, 12, 31))
    } else {
        None
    }
}

/// A number of two digits.
pub open spec fn two_digits(n: int) -> Seq<char> {
    seq![text::digit_char(n / 10), text::digit_char(n % 10)]
}

/// A year of four digits, or with a plus sign where it has more.
pub open spec fn year_text(year: int) -> Seq<char> {
    if year < 10000 {
        two_digits(year / 100) + two_digits(year % 100)
    } else {
        "+"@ + text::decimal(year as nat)
    }
}

pub open spec fn month_name(month: int) -> Seq<char> {
    if month == 1 {
        "Jan"@
    } else if month == 2 {
        "Feb"@
    } else if month == 3 {
        "Mar"@
    } else if month == 4 {
        "Apr"@
    } else if month == 5 {
        "May"@
    } else if month == 6 {
        "Jun"@
    } else if month == 7 {
        "Jul"@
    } else if month == 8 {
        "Aug"@
    } else if month == 9 {
        "Sep"@
    } else if month == 10 {
        "Oct"@
    } else if month == 11 {
        "Nov"@
    } else {
        "Dec"@
    }
}

/// The time of day of a moment.
pub open spec fn clock_text(moment: LocalMoment) -> Seq<char> {
    two_digits(moment.hour as int) + ":"@ + two_digits(moment.minute as int)
}

/// What a pattern of the list shows of a moment.
pub open spec fn shown_by(moment: LocalMoment, pattern: Seq<char>) -> Seq<char> {
    let day = two_digits(moment.day as int);
    let month = month_name(moment.month as int);
    if pattern == "Today %H:%M"@ {
        "Today "@ + clock_text(moment)
    } else if pattern == "Yesterday %H:%M"@ {
        "Yesterday "@ + clock_text(moment)
    } else if pattern == "%b %d %H:%M"@ {
        month + " "@ + day + " "@ + clock_text(moment)
    } else if pattern == "%b %d, %Y"@ {
        month + " "@ + day + ", "@ + year_text(moment.year as int)
    } else {
        year_text(moment.year as int) + "-"@ + two_digits(moment.month as int) + "-"@ + day + " "@
            + clock_text(moment)
    }
}

/// A pattern that the list uses.
pub open spec fn is_pattern(pattern: Seq<char>) -> bool {
    ||| pattern == "Today %H:%M"@
    ||| pattern == "Yesterday %H:%M"@
    ||| pattern == "%b %d %H:%M"@
    ||| pattern == "%b %d, %Y"@
    ||| pattern == "%Y-%m-%d %H:%M"@
}

/// `chrono::NaiveDateTime::format`: a moment in one of the patterns of the list. Numbers have two
/// digits and months their short English names; a year has four digits, or a plus sign and more.
#[verifier::external_body]
fn format_moment(moment: LocalMoment, pattern: &str) -> (r: String)
    requires
        moment.valid(),
        moment.year >= 0,
        is_pattern(pattern@),
    ensures
        r@ == shown_by(moment, pattern@),
{
    chrono::NaiveDate::from_ymd_opt(moment.year, moment.month, moment.day)
        .and_then(|date| date.and_hms_opt(moment.hour, moment.minute, 0))
        .map(|time| time.format(pattern).to_string())
        .unwrap_or_default()
}

/// What the list shows for a finished download: the time of day for today and yesterday, the day
/// for this year, and the year for older ones.
pub open spec fn completed_text(completed: Option<LocalMoment>, now: LocalMoment) -> Seq<char> {
    match completed {
        None => "Unknown"@,
        Some(local) => if local.same_day(now) {
            shown_by(local, "Today %H:%M"@)
        } else if day_before(now.year as int, now.month as int, now.day as int) == Some(
            (local.year as int, local.month as int, local.day as int),
        ) {
            shown_by(local, "Yesterday %H:%M"@)
        } else if local.year == now.year {
            shown_by(local, "%b %d %H:%M"@)
        } else {
            shown_by(local, "%b %d, %Y"@)
        },
    }
}

/// What the list shows for a download that finished at one moment, at another.
pub fn format_completed_label(completed: Option<LocalMoment>, now: LocalMoment) -> (r: String)
    requires
        now.valid(),
        completed matches Some(local) ==> local.valid() && local.year >= 0,
    ensures
        r@ == completed_text(completed, now),
{
    proof {
        lemma_patterns_differ();
    }
    let local = match completed {
        Some(local) => local,
        None => {
            return "Unknown".to_string();
        },
    };
    if local.year == now.year && local.month == now.month && local.day == now.day {
        return format_moment(local, "Today %H:%M");
    }
    let is_yesterday = match previous_day(now.year, now.month, now.day) {
        Some((year, month, day)) => local.year == year && local.month == month && local.day == day,
        None => false,
    };
    if is_yesterday {
        format_moment(local, "Yesterday %H:%M")
    } else if local.year == now.year {
        format_moment(local, "%b %d %H:%M")
    } else {
        format_moment(local, "%b %d, %Y")
    }
}

proof fn lemma_patterns_differ()
    ensures
        "Today %H:%M"@ != "Yesterday %H:%M"@,
        "Today %H:%M"@ != "%b %d %H:%M"@,
        "%b %d %H:%M"@ != "%b %d, %Y"@,
        "Yesterday %H:%M"@ != "%b %d %H:%M"@,
        "Yesterday %H:%M"@ != "%b %d, %Y"@,
        "Today %H:%M"@ != "%b %d, %Y"@,
        "%Y-%m-%d %H:%M"@ != "Today %H:%M"@,
        "%Y-%m-%d %H:%M"@ != "Yesterday %H:%M"@,
        "%Y-%m-%d %H:%M"@ != "%b %d %H:%M"@,
        "%Y-%m-%d %H:%M"@ != "%b %d, %Y"@,
{
    reveal_strlit("Today %H:%M");
    reveal_strlit("Yesterday %H:%M");
    reveal_strlit("%b %d %H:%M");
    reveal_strlit("%b %d, %Y");
    reveal_strlit("%Y-%m-%d %H:%M");
    assert("Today %H:%M"@[0] == 'T' && "Yesterday %H:%M"@[0] == 'Y' && "%b %d %H:%M"@[0] == '%');
    assert("%b %d, %Y"@[5] == ',' && "%b %d %H:%M"@[5] == ' ');
    assert("%Y-%m-%d %H:%M"@[1] == 'Y' && "%b %d %H:%M"@[1] == 'b' && "%b %d, %Y"@[1] == 'b');
}

/// Whether a time since the Unix epoch is a date and time where the user is, or out of range
/// there.
pub closed spec fn is_local_time(unix_ms: u64, local: Option<LocalMoment>) -> bool {
    if unix_ms > i64::MAX {
        local is None
    } else {
        call_ensures(local_moment, (unix_ms as i64,), local)
    }
}

/// Whether a date and time where the user is was read from the clock.
pub closed spec fn is_present(now: LocalMoment) -> bool {
    call_ensures(local_now, (), now)
}

/// Law: a time that can be dated in every zone is, one beyond the calendar is not, and the local
/// clock is less than a day and a minute away from the time itself.
pub proof fn law_local_times_are_within_a_day(unix_ms: u64, local: Option<LocalMoment>)
    requires
        is_local_time(unix_ms, local),
    ensures
        unix_ms <= MAX_ZONED_MILLIS ==> local is Some,
        unix_ms > MAX_MILLIS ==> local is None,
        local matches Some(moment) ==> moment.valid() && moment.year >= 0 && unix_ms / 60_000 - 1440
            <= moment.minutes() <= unix_ms / 60_000 + 1440,
{
}

fn moment_at(unix_ms: u64) -> (r: Option<LocalMoment>)
    ensures
        is_local_time(unix_ms, r),
        r matches Some(moment) ==> moment.valid() && moment.year >= 0,
{
    if unix_ms > i64::MAX as u64 {
        return None;
    }
    local_moment(unix_ms as i64)
}

/// Whether the list may show a label for a download that finished at a time: its local time as
/// seen from the present, or `Unknown` where that is out of range.
pub open spec fn may_show(completed_unix_ms: u64, label: Seq<char>) -> bool {
    exists|local: Option<LocalMoment>, now: LocalMoment|
        is_local_time(completed_unix_ms, local) && is_present(now) && label
            == #[trigger] completed_text(local, now)
}

/// When a download finished, in local time, as shown in the list.
pub fn downloaded_label(completed_unix_ms: u64) -> (r: String)
    ensures
        may_show(completed_unix_ms, r@),
{
    let local = moment_at(completed_unix_ms);
    let now = local_now();
    format_completed_label(local, now)
}

/// The local date and time of a moment, or `Unknown` where it is out of range.
pub open spec fn tried_text(local: Option<LocalMoment>) -> Seq<char> {
    match local {
        Some(local) => shown_by(local, "%Y-%m-%d %H:%M"@),
        None => "Unknown"@,
    }
}

/// The local date and time of a moment, or `Unknown` where it is out of range.
pub fn last_try_label(unix_ms: u64) -> (r: String)
    ensures
        exists|local: Option<LocalMoment>|
            is_local_time(unix_ms, local) && r@ == #[trigger] tried_text(local),
{
    let local = moment_at(unix_ms);
    let r = match local {
        Some(local) => format_moment(local, "%Y-%m-%d %H:%M"),
        None => "Unknown".to_string(),
    };
    assert(r@ == tried_text(local));
    r
}

/// `std::time::SystemTime`, a reading of the system clock.
#[verifier::external_type_specification]
#[verifier::external_body]
pub struct ExSystemTime(std::time::SystemTime);

/// `std::time::SystemTimeError`, for a time before the one it is measured from.
#[verifier::external_type_specification]
#[verifier::external_body]
pub struct ExSystemTimeError(std::time::SystemTimeError);

/// `SystemTime::now` reads the clock. Nothing is claimed of the reading.
pub assume_specification[ std::time::SystemTime::now ]() -> std::time::SystemTime;

/// `SystemTime::duration_since` is the span from an earlier time, or an error. How long it is, and
/// when it is an error, is left unsaid.
pub assume_specification[ std::time::SystemTime::duration_since ](
    time: &std::time::SystemTime,
    earlier: std::time::SystemTime,
) -> Result<std::time::Duration, std::time::SystemTimeError>;

/// `Duration::as_millis` is a span in whole milliseconds. How many there are is left unsaid.
pub assume_specification[ std::time::Duration::as_millis ](span: &std::time::Duration) -> u128;

/// `std::time::UNIX_EPOCH`, the time that milliseconds are counted from. Nothing is claimed of it.
#[verifier::external_body]
fn unix_epoch() -> std::time::SystemTime {
    std::time::UNIX_EPOCH
}

/// Whether a time is the one that milliseconds are counted from.
pub closed spec fn is_unix_epoch(time: std::time::SystemTime) -> bool {
    call_ensures(unix_epoch, (), time)
}

/// Whether a time lies some whole milliseconds after another one, as the clock's own arithmetic
/// measures it, or before it where there are none.
pub open spec fn lies_after(
    time: std::time::SystemTime,
    earlier: std::time::SystemTime,
    elapsed: Option<u128>,
) -> bool {
    exists|span: Result<std::time::Duration, std::time::SystemTimeError>| #[trigger]
        call_ensures(std::time::SystemTime::duration_since, (&time, earlier), span) && match span {
            Ok(span) => elapsed matches Some(millis) && call_ensures(
                std::time::Duration::as_millis,
                (&span,),
                millis,
            ),
            Err(_) => elapsed is None,
        }
}

/// Whether the clock was read some whole milliseconds after the Unix epoch, or before it.
pub open spec fn clock_reads(elapsed: Option<u128>) -> bool {
    exists|now: std::time::SystemTime, epoch: std::time::SystemTime|
        call_ensures(std::time::SystemTime::now, (), now) && is_unix_epoch(epoch)
            && #[trigger] lies_after(now, epoch, elapsed)
}

/// Elapsed milliseconds, as many as fit, or 0 where there are none.
pub open spec fn fitting_millis(elapsed: Option<u128>) -> u64 {
    match elapsed {
        None => 0,
        Some(millis) => if millis > u64::MAX {
            u64::MAX
        } else {
            millis as u64
        },
    }
}

/// Milliseconds since the Unix epoch, as many as fit, or 0 for a clock before it.
pub fn millis_or_zero(elapsed: Option<u128>) -> (r: u64)
    ensures
        r == fitting_millis(elapsed),
{
    match elapsed {
        None => 0,
        Some(millis) => if millis > u64::MAX as u128 {
            u64::MAX
        } else {
            millis as u64
        },
    }
}

/// Milliseconds since the Unix epoch, or 0 when the system clock is before it. Which reading it
/// is depends on the clock.
pub fn now_unix_ms() -> (r: u64)
    ensures
        exists|elapsed: Option<u128>| #[trigger]
            clock_reads(elapsed) && r == fitting_millis(elapsed),
{
    let now = std::time::SystemTime::now();
    let epoch = unix_epoch();
    let span = now.duration_since(epoch);
    let elapsed: Option<u128> = match span {
        Ok(span) => Some(span.as_millis()),
        Err(_) => None,
    };
    assert(lies_after(now, epoch, elapsed));
    assert(clock_reads(elapsed));
    millis_or_zero(elapsed)
}

/// Law: the day before a day is a day of the calendar, and exactly one day earlier.
pub proof fn law_the_day_before_is_one_day_earlier(year: int, month: int, day: int)
    requires
        valid_date(year, month, day),
    ensures
        day_before(year, month, day) matches Some((y, m, d)) ==> valid_date(y, m, d) && day_number(
            y,
            m,
            d,
        ) + 1 == day_number(year, month, day),
        day_before(year, month, day) is None ==> year == -262143 && month == 1 && day == 1,
{
    if day == 1 && month == 1 && year > -262143 {
        reveal_with_fuel(days_before_month, 13);
        let y = year - 1;
        assert(days_before_month(y, 12) + 31 == (if is_leap(y) {
            366int
        } else {
            365int
        }));
    }
}

/// Law: what is shown of a finished download tells when it finished: the time of day for the same
/// day and for the day before, the date for another day of the year, the year for any other.
pub proof fn law_labels_tell_how_long_ago(local: LocalMoment, now: LocalMoment)
    requires
        local.valid() && now.valid(),
        local.year >= 0,
    ensures
        local.year == now.year && local.month == now.month && local.day == now.day
            ==> completed_text(Some(local), now) == "Today "@ + clock_text(local),
        day_before(now.year as int, now.month as int, now.day as int) == Some(
            (local.year as int, local.month as int, local.day as int),
        ) ==> completed_text(Some(local), now) == "Yesterday "@ + clock_text(local),
        completed_text(None, now) == "Unknown"@,
        local.year != now.year && local.minutes() + 2 * 1440 < now.minutes() ==> completed_text(
            Some(local),
            now,
        ) == month_name(local.month as int) + " "@ + two_digits(local.day as int) + ", "@
            + year_text(local.year as int),
        local.year == now.year && local.minutes() + 2 * 1440 < now.minutes() ==> completed_text(
            Some(local),
            now,
        ) == month_name(local.month as int) + " "@ + two_digits(local.day as int) + " "@
            + clock_text(local),
{
    lemma_patterns_differ();
    law_the_day_before_is_one_day_earlier(now.year as int, now.month as int, now.day as int);
}

/// Law: a time of day is written as its hour and its minute, two digits each.
pub proof fn law_clocks_show_hour_and_minute(moment: LocalMoment)
    requires
        moment.valid(),
    ensures
        clock_text(moment).len() == 5,
        text::digits_value(clock_text(moment).take(2)) == moment.hour,
        clock_text(moment)[2] == ':',
        text::digits_value(clock_text(moment).skip(3)) == moment.minute,
        text::all_digits(clock_text(moment).take(2)) && text::all_digits(
            clock_text(moment).skip(3),
        ),
{
    reveal_strlit(":");
    let t = clock_text(moment);
    lemma_two_digits(moment.hour as int);
    lemma_two_digits(moment.minute as int);
    assert(t.take(2) =~= two_digits(moment.hour as int));
    assert(t.skip(3) =~= two_digits(moment.minute as int));
}

proof fn lemma_two_digits(n: int)
    requires
        0 <= n < 100,
    ensures
        text::digits_value(two_digits(n)) == n,
        text::all_digits(two_digits(n)),
        two_digits(n).len() == 2,
{
    let d = two_digits(n);
    let e = d.drop_last();
    assert(d.last() as u32 == 48 + n % 10);
    assert(e.last() as u32 == 48 + n / 10);
    assert(e.drop_last() =~= Seq::<char>::empty());
    assert(text::digits_value(e.drop_last()) == 0);
    assert(text::digits_value(e) == n / 10);
}

/// Law: months have different names.
pub proof fn law_month_names_are_unique(a: int, b: int)
    requires
        1 <= a <= 12,
        1 <= b <= 12,
        month_name(a) == month_name(b),
    ensures
        a == b,
{
    reveal_strlit("Jan");
    reveal_strlit("Feb");
    reveal_strlit("Mar");
    reveal_strlit("Apr");
    reveal_strlit("May");
    reveal_strlit("Jun");
    reveal_strlit("Jul");
    reveal_strlit("Aug");
    reveal_strlit("Sep");
    reveal_strlit("Oct");
    reveal_strlit("Nov");
    reveal_strlit("Dec");
    assert("Jan"@[0] == 'J' && "Jan"@[1] == 'a' && "Jan"@[2] == 'n');
    assert("Feb"@[0] == 'F' && "Feb"@[1] == 'e' && "Feb"@[2] == 'b');
    assert("Mar"@[0] == 'M' && "Mar"@[1] == 'a' && "Mar"@[2] == 'r');
    assert("Apr"@[0] == 'A' && "Apr"@[1] == 'p' && "Apr"@[2] == 'r');
    assert("May"@[0] == 'M' && "May"@[1] == 'a' && "May"@[2] == 'y');
    assert("Jun"@[0] == 'J' && "Jun"@[1] == 'u' && "Jun"@[2] == 'n');
    assert("Jul"@[0] == 'J' && "Jul"@[1] == 'u' && "Jul"@[2] == 'l');
    assert("Aug"@[0] == 'A' && "Aug"@[1] == 'u' && "Aug"@[2] == 'g');
    assert("Sep"@[0] == 'S' && "Sep"@[1] == 'e' && "Sep"@[2] == 'p');
    assert("Oct"@[0] == 'O' && "Oct"@[1] == 'c' && "Oct"@[2] == 't');
    assert("Nov"@[0] == 'N' && "Nov"@[1] == 'o' && "Nov"@[2] == 'v');
    assert("Dec"@[0] == 'D' && "Dec"@[1] == 'e' && "Dec"@[2] == 'c');
    assert(month_name(a)[0] == month_name(b)[0]);
    assert(month_name(a)[1] == month_name(b)[1]);
    assert(month_name(a)[2] == month_name(b)[2]);
}

/// Law: elapsed milliseconds are kept as they are while they fit, later times never count less, and
/// a clock before the epoch counts nothing.
pub proof fn law_elapsed_millis_are_kept(earlier: u128, later: u128)
    ensures
        earlier <= u64::MAX ==> fitting_millis(Some(earlier)) == earlier,
        earlier <= later ==> fitting_millis(Some(earlier)) <= fitting_millis(Some(later)),
        fitting_millis(None) == 0,
{
}

} // verus!
