use vstd::prelude::*;
use chrono::Datelike;
use crate::text::{digits_of, digits_value, digits_vec, is_digit, is_white, push_char};

verus! {

/// Leap years of the proleptic Gregorian calendar.
pub open spec fn is_leap_year(y: int) -> bool {
    (y % 4 == 0 && y % 100 != 0) || y % 400 == 0
}

/// The number of days of year `y`.
pub open spec fn days_in_year(y: int) -> int {
    if is_leap_year(y) {
        366
    } else {
        365
    }
}

/// The number of days of month `m` (1 to 12) of year `y`.
pub open spec fn days_in_month(y: int, m: int) -> int {
    if m == 2 {
        if is_leap_year(y) {
            29
        } else {
            28
        }
    } else if m == 4 || m == 6 || m == 9 || m == 11 {
        30
    } else {
        31
    }
}

/// `y-m-d` is a day of the proleptic Gregorian calendar.
pub open spec fn valid_date(y: int, m: int, d: int) -> bool {
    1 <= m <= 12 && 1 <= d <= days_in_month(y, m)
}

/// The first year of chrono's date range.
pub open spec fn min_year() -> int {
    -262143
}

/// The last year of chrono's date range.
pub open spec fn max_year() -> int {
    262142
}

/// `y-m-d` is a day that chrono's `NaiveDate` can hold.
pub open spec fn in_date_range(y: int, m: int, d: int) -> bool {
    min_year() <= y <= max_year() && valid_date(y, m, d)
}

/// The number of days from 1970-01-01 to the first day of year `y`
/// (negative before 1970).
pub open spec fn days_before_year(y: int) -> int
    decreases (if y >= 1970 {
        y - 1970
    } else {
        1970 - y
    }),
{
    if y == 1970 {
        0
    } else if y > 1970 {
        days_before_year(y - 1) + days_in_year(y - 1)
    } else {
        days_before_year(y + 1) - days_in_year(y)
    }
}

/// The number of days of year `y` before the first day of month `m`.
pub open spec fn days_before_month(y: int, m: int) -> int
    decreases m,
{
    if m <= 1 {
        0
    } else {
        days_before_month(y, m - 1) + days_in_month(y, m - 1)
    }
}

/// The day number of `y-m-d`: days since 1970-01-01 (negative before it).
pub open spec fn epoch_day(y: int, m: int, d: int) -> int {
    days_before_year(y) + days_before_month(y, m) + d - 1
}

/// `y-m-d` is a date chrono can hold, and its day number is `n`.
pub open spec fn is_date_of_day(y: int, m: int, d: int, n: int) -> bool {
    in_date_range(y, m, d) && epoch_day(y, m, d) == n
}

/// The day numbers that chrono's dates cover.
pub open spec fn day_in_range(n: int) -> bool {
    epoch_day(min_year(), 1, 1) <= n <= epoch_day(max_year(), 12, 31)
}

/// `ds` padded on the left with zeros to at least `w` characters.
pub open spec fn zero_pad(ds: Seq<char>, w: nat) -> Seq<char> {
    if ds.len() >= w {
        ds
    } else {
        Seq::new((w - ds.len()) as nat, |i: int| '0') + ds
    }
}

/// A year as chrono's `%Y` writes it: four digits for years 0 to 9999,
/// otherwise a sign and at least four digits.
pub open spec fn year_text(y: int) -> Seq<char> {
    if 0 <= y <= 9999 {
        zero_pad(digits_of(y as nat), 4)
    } else if y < 0 {
        seq!['-'] + zero_pad(digits_of((-y) as nat), 4)
    } else {
        seq!['+'] + zero_pad(digits_of(y as nat), 4)
    }
}

/// A date as chrono's `%Y-%m-%d` writes it.
pub open spec fn ymd_text(y: int, m: int, d: int) -> Seq<char> {
    year_text(y) + seq!['-'] + zero_pad(digits_of(m as nat), 2) + seq!['-'] + zero_pad(
        digits_of(d as nat),
        2,
    )
}

/// A date chrono can hold and a valid time of day (no leap second).
pub open spec fn valid_unix_time(y: int, m: int, d: int, h: int, mi: int, s: int) -> bool {
    in_date_range(y, m, d) && 0 <= h < 24 && 0 <= mi < 60 && 0 <= s < 60
}

/// Seconds since 1970-01-01 00:00:00 UTC of a date and time of day.
pub open spec fn unix_time(y: int, m: int, d: int, h: int, mi: int, s: int) -> int {
    epoch_day(y, m, d) * 86400 + h * 3600 + mi * 60 + s
}

/// `text` is how chrono writes `y-m-d`, a valid date of the years 0 to 9999.
pub open spec fn canonical_ymd(text: Seq<char>, y: i32, m: u32, d: u32) -> bool {
    0 <= y <= 9999 && valid_date(y as int, m as int, d as int) && text == ymd_text(y as int, m as int, d as int)
}

/// `text` has the shape `DDDD-DD-DD`: four digits, `-`, two digits, `-`,
/// two digits, and nothing else.
pub open spec fn ymd_shape(text: Seq<char>) -> bool {
    &&& text.len() == 10
    &&& is_digit(text[0]) && is_digit(text[1]) && is_digit(text[2]) && is_digit(text[3])
    &&& text[4] == '-'
    &&& is_digit(text[5]) && is_digit(text[6])
    &&& text[7] == '-'
    &&& is_digit(text[8]) && is_digit(text[9])
}

/// The year, month and day that a text of shape `DDDD-DD-DD` spells.
pub open spec fn shape_ymd(text: Seq<char>) -> (int, int, int) {
    (
        digits_value(text.subrange(0, 4)),
        digits_value(text.subrange(5, 7)),
        digits_value(text.subrange(8, 10)),
    )
}

/// What chrono's parse gives for a text of shape `DDDD-DD-DD`: the date it
/// spells when that is a valid date, else nothing.
pub open spec fn shape_parse(text: Seq<char>) -> Option<(i32, u32, u32)> {
    let (y, m, d) = shape_ymd(text);
    if valid_date(y, m, d) {
        Some((y as i32, m as u32, d as u32))
    } else {
        None
    }
}

/// `text` cannot begin a year as chrono's `%Y` reads one: it is empty, or its
/// first character is neither an ASCII digit, a sign nor white space.
pub open spec fn no_year_start(text: Seq<char>) -> bool {
    text.len() == 0 || !(is_digit(text[0]) || text[0] == '+' || text[0] == '-' || is_white(text[0]))
}

/// What chrono's `NaiveDate::parse_from_str(text, "%Y-%m-%d")` gives, as
/// year, month and day.
pub uninterp spec fn chrono_ymd_parse(text: Seq<char>) -> Option<(i32, u32, u32)>;

/// Calls chrono's `NaiveDate::parse_from_str` with the format `%Y-%m-%d` and
/// reads the year, month and day of the date it gives. Claimed: the result is
/// the named `chrono_ymd_parse` of the text; a date it gives is one chrono can
/// hold; the text chrono's `%Y-%m-%d` writes for a date of the years 0 to
/// 9999 parses back to that date; and a text of the shape `DDDD-DD-DD` gives
/// the date it spells exactly when that date is valid; a text that cannot
/// begin a year (see `no_year_start`) gives nothing. Which other texts parse
/// (signs, fewer digits, leading white space) is not stated.
#[verifier::external_body]
fn chrono_parse_ymd(text: &str) -> (r: Option<(i32, u32, u32)>)
    ensures
        r == chrono_ymd_parse(text@),
        r matches Some((y, m, d)) ==> in_date_range(y as int, m as int, d as int),
        forall|y: i32, m: u32, d: u32| #[trigger] canonical_ymd(text@, y, m, d) ==> r == Some((y, m, d)),
        ymd_shape(text@) ==> r == shape_parse(text@),
        no_year_start(text@) ==> r is None,
{
    match chrono::NaiveDate::parse_from_str(text, "%Y-%m-%d") {
        Ok(d) => Some((d.year(), d.month(), d.day())),
        Err(_) => None,
    }
}

/// Calls chrono's `DateTime::from_timestamp_millis` and reads the year, month
/// and day of the UTC date it gives. Claimed: a date comes exactly when the
/// day number `ms / 86_400_000` (rounded down) is within chrono's range, and
/// it is the date of that day number.
#[verifier::external_body]
fn chrono_date_of_millis(ms: i64) -> (r: Option<(i32, u32, u32)>)
    ensures
        r is Some <==> day_in_range(ms as int / 86_400_000),
        r matches Some((y, m, d)) ==> is_date_of_day(y as int, m as int, d as int, ms as int / 86_400_000),
{
    match chrono::DateTime::from_timestamp_millis(ms) {
        Some(t) => Some((t.year(), t.month(), t.day())),
        None => None,
    }
}

/// Calls chrono's `NaiveDate::from_ymd_opt`, then `and_hms_opt`, `and_utc` and
/// `timestamp`: the Unix time of a date and time of day in UTC. Claimed: a
/// time comes exactly for a date chrono can hold and a valid time of day, and
/// it counts the seconds since 1970-01-01 00:00:00.
#[verifier::external_body]
fn chrono_unix_seconds(
    year: i32,
    month: u32,
    day: u32,
    hour: u32,
    min: u32,
    sec: u32,
) -> (r: Option<i64>)
    ensures
        r is Some <==> valid_unix_time(year as int, month as int, day as int, hour as int, min as int, sec as int),
        r matches Some(t) ==> t == unix_time(year as int, month as int, day as int, hour as int, min as int, sec as int),
{
    let t = chrono::NaiveDate::from_ymd_opt(year, month, day)?.and_hms_opt(hour, min, sec)?;
    Some(t.and_utc().timestamp())
}

proof fn lemma_year_step(y: int)
    ensures
        days_before_year(y + 1) == days_before_year(y) + days_in_year(y),
{
    reveal_with_fuel(days_before_year, 2);
}

proof fn lemma_years_grow(y1: int, y2: int)
    requires
        y1 < y2,
    ensures
        days_before_year(y1) + days_in_year(y1) <= days_before_year(y2),
    decreases y2 - y1,
{
    lemma_year_step(y1);
    if y1 + 1 < y2 {
        lemma_years_grow(y1 + 1, y2);
    }
}

proof fn lemma_months_grow(y: int, m1: int, m2: int)
    requires
        1 <= m1 < m2,
    ensures
        days_before_month(y, m1) + days_in_month(y, m1) <= days_before_month(y, m2),
    decreases m2 - m1,
{
    if m1 + 1 < m2 {
        lemma_months_grow(y, m1 + 1, m2);
    }
}

proof fn lemma_day_within_year(y: int, m: int, d: int)
    requires
        valid_date(y, m, d),
    ensures
        0 <= days_before_month(y, m) + d - 1 < days_in_year(y),
{
    reveal_with_fuel(days_before_month, 13);
    if m < 12 {
        lemma_months_grow(y, m, 12);
    }
    assert(days_before_month(y, 12) + days_in_month(y, 12) == days_in_year(y));
}

/// A day number names one date: two dates with the same day number are the
/// same date.
pub proof fn law_day_names_one_date(y1: int, m1: int, d1: int, y2: int, m2: int, d2: int)
    requires
        valid_date(y1, m1, d1),
        valid_date(y2, m2, d2),
        epoch_day(y1, m1, d1) == epoch_day(y2, m2, d2),
    ensures
        y1 == y2 && m1 == m2 && d1 == d2,
{
    lemma_day_within_year(y1, m1, d1);
    lemma_day_within_year(y2, m2, d2);
    if y1 < y2 {
        lemma_years_grow(y1, y2);
    } else if y2 < y1 {
        lemma_years_grow(y2, y1);
    }
    if m1 < m2 {
        lemma_months_grow(y1, m1, m2);
    } else if m2 < m1 {
        lemma_months_grow(y1, m2, m1);
    }
}

proof fn lemma_in_range_day(y: int, m: int, d: int)
    requires
        in_date_range(y, m, d),
    ensures
        day_in_range(epoch_day(y, m, d)),
{
    lemma_day_within_year(y, m, d);
    lemma_day_within_year(max_year(), 12, 31);
    if y > min_year() {
        lemma_years_grow(min_year(), y);
    }
    if y < max_year() {
        lemma_years_grow(y, max_year());
    }
    reveal_with_fuel(days_before_month, 13);
}

/// What `timestamp_ms_to_date` writes for a day of the years 0 to 9999 is the
/// text that `parse_date` reads back as that day.
pub proof fn law_date_text_reads_back(t: Seq<char>, ms: int, y: int, m: int, d: int)
    requires
        is_date_text_of_millis(t, ms),
        is_date_of_day(y, m, d, ms / 86_400_000),
        0 <= y <= 9999,
    ensures
        canonical_ymd(t, y as i32, m as u32, d as u32),
{
    lemma_in_range_day(y, m, d);
    let (y2, m2, d2) = choose|y2: int, m2: int, d2: int|
        is_date_of_day(y2, m2, d2, ms / 86_400_000) && t == #[trigger] ymd_text(y2, m2, d2);
    law_day_names_one_date(y, m, d, y2, m2, d2);
}

/// The number of leap years before year `y`, counted from year 1.
spec fn leaps_before(y: int) -> int {
    (y - 1) / 4 - (y - 1) / 100 + (y - 1) / 400
}

proof fn lemma_leap_step(y: int)
    requires
        y >= 1,
    ensures
        leaps_before(y + 1) == leaps_before(y) + if is_leap_year(y) {
            1int
        } else {
            0int
        },
{
}

proof fn lemma_days_before_year_from_epoch(y: int)
    requires
        y >= 1970,
    ensures
        days_before_year(y) == 365 * (y - 1970) + leaps_before(y) - leaps_before(1970),
    decreases y - 1970,
{
    if y > 1970 {
        lemma_days_before_year_from_epoch(y - 1);
        lemma_year_step(y - 1);
        lemma_leap_step(y - 1);
    }
}

/// The UTC date of a Unix time in milliseconds from 0 up to
/// 253_402_300_799_999 (the last millisecond of 9999-12-31) is written as the
/// text that `parse_date` reads back as the day `ms / 86_400_000` after
/// 1970-01-01.
pub proof fn law_millis_date_reads_back(t: Seq<char>, ms: int)
    requires
        is_date_text_of_millis(t, ms),
        0 <= ms <= 253_402_300_799_999,
    ensures
        exists|y: i32, m: u32, d: u32|
            #[trigger] canonical_ymd(t, y, m, d) && epoch_day(y as int, m as int, d as int) == ms
                / 86_400_000,
{
    let n = ms / 86_400_000;
    assert(0 <= n <= 2_932_896);
    lemma_days_before_year_from_epoch(10000);
    assert(days_before_year(10000) == 2_932_897);
    lemma_years_grow(min_year(), 1970);
    lemma_years_grow(10000, max_year());
    lemma_day_within_year(max_year(), 12, 31);
    assert(day_in_range(n));
    let (y, m, d) = choose|y: int, m: int, d: int|
        is_date_of_day(y, m, d, n) && t == #[trigger] ymd_text(y, m, d);
    lemma_day_within_year(y, m, d);
    if y < 1970 {
        lemma_years_grow(y, 1970);
    }
    if y > 10000 {
        lemma_years_grow(10000, y);
    }
    assert(0 <= y <= 9999);
    law_date_text_reads_back(t, ms, y, m, d);
    assert(canonical_ymd(t, y as i32, m as u32, d as u32));
}

/// Appends the digits of `n`, padded with zeros to at least `w` characters.
fn push_padded(s: &mut String, n: u64, w: usize)
    ensures
        final(s)@ == old(s)@ + zero_pad(digits_of(n as nat), w as nat),
{
    let ds = digits_vec(n);
    let ghost start = s@;
    let mut z: usize = 0;
    let zeros: usize = if ds.len() < w {
        w - ds.len()
    } else {
        0
    };
    while z < zeros
        invariant
            z <= zeros,
            s@ == start + Seq::new(z as nat, |i: int| '0'),
        decreases zeros - z,
    {
        push_char(s, '0');
        z = z + 1;
        assert(s@ =~= start + Seq::new(z as nat, |i: int| '0'));
    }
    let ghost mid = s@;
    let mut k: usize = 0;
    while k < ds.len()
        invariant
            k <= ds@.len(),
            s@ == mid + ds@.take(k as int),
        decreases ds@.len() - k,
    {
        push_char(s, ds[k]);
        k = k + 1;
        assert(s@ =~= mid + ds@.take(k as int));
    }
    assert(ds@.take(ds@.len() as int) =~= ds@);
    if ds.len() < w {
        assert(s@ =~= start + zero_pad(digits_of(n as nat), w as nat));
    } else {
        assert(Seq::new(0nat, |i: int| '0') =~= Seq::<char>::empty());
        assert(s@ =~= start + zero_pad(digits_of(n as nat), w as nat));
    }
}

/// Writes a date as chrono's `%Y-%m-%d` does.
pub fn format_ymd(y: i32, m: u32, d: u32) -> (s: String)
    ensures
        s@ == ymd_text(y as int, m as int, d as int),
{
    let mut s = String::new();
    if 0 <= y && y <= 9999 {
        push_padded(&mut s, y as u64, 4);
    } else if y < 0 {
        push_char(&mut s, '-');
        let mag: u64 = (-(y as i64)) as u64;
        push_padded(&mut s, mag, 4);
    } else {
        push_char(&mut s, '+');
        push_padded(&mut s, y as u64, 4);
    }
    push_char(&mut s, '-');
    push_padded(&mut s, m as u64, 2);
    push_char(&mut s, '-');
    push_padded(&mut s, d as u64, 2);
    assert(s@ =~= ymd_text(y as int, m as int, d as int));
    s
}

/// The text `timestamp_ms_to_date` gives for a Unix time in milliseconds:
/// empty when the day lies outside chrono's range, else the text of some date
/// of that day (there is just one: see `law_day_names_one_date`).
pub open spec fn is_date_text_of_millis(t: Seq<char>, ms: int) -> bool {
    if day_in_range(ms / 86_400_000) {
        exists|y: int, m: int, d: int|
            is_date_of_day(y, m, d, ms / 86_400_000) && t == #[trigger] ymd_text(y, m, d)
    } else {
        t == Seq::<char>::empty()
    }
}

/// The UTC date of a Unix time in milliseconds, written `YYYY-MM-DD`; the
/// empty string when chrono cannot represent that time.
pub fn timestamp_ms_to_date(ms: i64) -> (s: String)
    ensures
        is_date_text_of_millis(s@, ms as int),
{
    match chrono_date_of_millis(ms) {
        Some((y, m, d)) => {
            let s = format_ymd(y, m, d);
            assert(is_date_of_day(y as int, m as int, d as int, ms as int / 86_400_000));
            s
        },
        None => String::new(),
    }
}

/// A calendar date that chrono can hold.
#[derive(Debug, Clone, Copy, PartialEq, Eq)]
pub struct Date {
    year: i32,
    month: u32,
    day: u32,
}

impl Date {
    /// Only dates within chrono's range exist.
    #[verifier::type_invariant]
    pub closed spec fn wf(self) -> bool {
        in_date_range(self.year as int, self.month as int, self.day as int)
    }

    /// The year.
    pub closed spec fn y(self) -> int {
        self.year as int
    }

    /// The month, 1 to 12.
    pub closed spec fn m(self) -> int {
        self.month as int
    }

    /// The day of the month, from 1.
    pub closed spec fn d(self) -> int {
        self.day as int
    }

    /// The year.
    pub fn year(&self) -> (r: i32)
        ensures
            r == self.y(),
    {
        self.year
    }

    /// The month, 1 to 12.
    pub fn month(&self) -> (r: u32)
        ensures
            r == self.m(),
    {
        self.month
    }

    /// The day of the month, from 1.
    pub fn day(&self) -> (r: u32)
        ensures
            r == self.d(),
    {
        self.day
    }

    /// Unix time of this date at `hour:min:sec` UTC.
    pub fn unix_seconds_at(&self, hour: u32, min: u32, sec: u32) -> (t: i64)
        requires
            hour < 24,
            min < 60,
            sec < 60,
        ensures
            t == unix_time(self.y(), self.m(), self.d(), hour as int, min as int, sec as int),
    {
        proof {
            use_type_invariant(self);
        }
        match chrono_unix_seconds(self.year, self.month, self.day, hour, min, sec) {
            Some(t) => t,
            None => {
                assert(false);
                0
            },
        }
    }
}

/// `r` holds the date `y-m-d`.
pub open spec fn is_date(r: Option<Date>, y: int, m: int, d: int) -> bool {
    r matches Some(date) && date.y() == y && date.m() == m && date.d() == d
}

/// Parses a `YYYY-MM-DD` date with chrono's `%Y-%m-%d`.
pub fn parse_date(text: &str) -> (r: Option<Date>)
    ensures
        match chrono_ymd_parse(text@) {
            Some((y, m, d)) => is_date(r, y as int, m as int, d as int),
            None => r is None,
        },
        r matches Some(date) ==> in_date_range(date.y(), date.m(), date.d()),
        forall|y: i32, m: u32, d: u32|
            #[trigger] canonical_ymd(text@, y, m, d) ==> is_date(r, y as int, m as int, d as int),
        ymd_shape(text@) ==> match shape_parse(text@) {
            Some((y, m, d)) => is_date(r, y as int, m as int, d as int),
            None => r is None,
        },
        no_year_start(text@) ==> r is None,
{
    match chrono_parse_ymd(text) {
        Some((year, month, day)) => Some(Date { year, month, day }),
        None => None,
    }
}

} // verus!
