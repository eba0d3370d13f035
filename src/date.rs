//! HTTP dates, read as seconds since 1970-01-01T00:00:00Z. The preferred
//! IMF-fixdate form (`Sun, 06 Nov 1994 08:49:37 GMT`) and the two obsolete
//! forms that recipients must still accept, RFC 850
//! (`Sunday, 06-Nov-94 08:49:37 GMT`) and asctime (`Sun Nov  6 08:49:37 1994`).
use vstd::prelude::*;
use crate::text::{bytes_eq, is_digit, trim, trim_bytes, COMMA, SPACE};

verus! {

/// `:`
pub const COLON: u8 = 58;

/// `-`
pub const HYPHEN: u8 = 45;

/// `Jan`
pub const JAN: [u8; 3] = [74, 97, 110];

/// `Feb`
pub const FEB: [u8; 3] = [70, 101, 98];

/// `Mar`
pub const MAR: [u8; 3] = [77, 97, 114];

/// `Apr`
pub const APR: [u8; 3] = [65, 112, 114];

/// `May`
pub const MAY: [u8; 3] = [77, 97, 121];

/// `Jun`
pub const JUN: [u8; 3] = [74, 117, 110];

/// `Jul`
pub const JUL: [u8; 3] = [74, 117, 108];

/// `Aug`
pub const AUG: [u8; 3] = [65, 117, 103];

/// `Sep`
pub const SEP: [u8; 3] = [83, 101, 112];

/// `Oct`
pub const OCT: [u8; 3] = [79, 99, 116];

/// `Nov`
pub const NOV: [u8; 3] = [78, 111, 118];

/// `Dec`
pub const DEC: [u8; 3] = [68, 101, 99];

/// `Mon`
pub const MON: [u8; 3] = [77, 111, 110];

/// `Tue`
pub const TUE: [u8; 3] = [84, 117, 101];

/// `Wed`
pub const WED: [u8; 3] = [87, 101, 100];

/// `Thu`
pub const THU: [u8; 3] = [84, 104, 117];

/// `Fri`
pub const FRI: [u8; 3] = [70, 114, 105];

/// `Sat`
pub const SAT: [u8; 3] = [83, 97, 116];

/// `Sun`
pub const SUN: [u8; 3] = [83, 117, 110];

/// `GMT`
pub const GMT: [u8; 3] = [71, 77, 84];

/// `Monday`
pub const MONDAY: [u8; 6] = [77, 111, 110, 100, 97, 121];

/// `Tuesday`
pub const TUESDAY: [u8; 7] = [84, 117, 101, 115, 100, 97, 121];

/// `Wednesday`
pub const WEDNESDAY: [u8; 9] = [87, 101, 100, 110, 101, 115, 100, 97, 121];

/// `Thursday`
pub const THURSDAY: [u8; 8] = [84, 104, 117, 114, 115, 100, 97, 121];

/// `Friday`
pub const FRIDAY: [u8; 6] = [70, 114, 105, 100, 97, 121];

/// `Saturday`
pub const SATURDAY: [u8; 8] = [83, 97, 116, 117, 114, 100, 97, 121];

/// `Sunday`
pub const SUNDAY: [u8; 6] = [83, 117, 110, 100, 97, 121];

/// Month number 1 to 12 of a three-letter English month name, else 0.
pub open spec fn month_of(t: Seq<u8>) -> int {
    if t == JAN@ {
        1
    } else if t == FEB@ {
        2
    } else if t == MAR@ {
        3
    } else if t == APR@ {
        4
    } else if t == MAY@ {
        5
    } else if t == JUN@ {
        6
    } else if t == JUL@ {
        7
    } else if t == AUG@ {
        8
    } else if t == SEP@ {
        9
    } else if t == OCT@ {
        10
    } else if t == NOV@ {
        11
    } else if t == DEC@ {
        12
    } else {
        0
    }
}

pub open spec fn is_day_name(t: Seq<u8>) -> bool {
    t == MON@ || t == TUE@ || t == WED@ || t == THU@ || t == FRI@ || t == SAT@ || t == SUN@
}

pub open spec fn is_full_day_name(t: Seq<u8>) -> bool {
    t == MONDAY@ || t == TUESDAY@ || t == WEDNESDAY@ || t == THURSDAY@ || t == FRIDAY@ || t
        == SATURDAY@ || t == SUNDAY@
}

pub open spec fn is_leap(y: int) -> bool {
    y % 4 == 0 && (y % 100 != 0 || y % 400 == 0)
}

pub open spec fn days_in_month(y: int, m: int) -> int {
    if m == 2 {
        if is_leap(y) {
            29
        } else {
            28
        }
    } else if m == 4 || m == 6 || m == 9 || m == 11 {
        30
    } else {
        31
    }
}

/// Days from 1970-01-01 to the first day of year `y`.
pub open spec fn days_before_year(y: int) -> int
    decreases y - 1970,
{
    if y <= 1970 {
        0
    } else {
        days_before_year(y - 1) + if is_leap(y - 1) {
            366int
        } else {
            365int
        }
    }
}

/// Days from the first of January of year `y` to the first day of month `m`.
pub open spec fn days_before_month(y: int, m: int) -> int
    decreases m,
{
    if m <= 1 {
        0
    } else {
        days_before_month(y, m - 1) + days_in_month(y, m - 1)
    }
}

pub open spec fn digit_at(s: Seq<u8>, i: int) -> int {
    s[i] - 48
}

pub open spec fn two_digits_at(s: Seq<u8>, i: int) -> int {
    digit_at(s, i) * 10 + digit_at(s, i + 1)
}

pub open spec fn four_digits_at(s: Seq<u8>, i: int) -> int {
    two_digits_at(s, i) * 100 + two_digits_at(s, i + 2)
}

/// Seconds since the epoch of a date and time of day (UTC); `None` where
/// the day does not exist, the time lies past 23:59:60, or the year lies
/// outside 1970 to 9999.
pub open spec fn civil_seconds(y: int, m: int, d: int, hh: int, mm: int, ss: int) -> Option<int> {
    if 1970 <= y <= 9999 && 1 <= m <= 12 && 1 <= d <= days_in_month(y, m) && 0 <= hh <= 23 && 0
        <= mm <= 59 && 0 <= ss <= 60 {
        Some(
            (days_before_year(y) + days_before_month(y, m) + d - 1) * 86400 + hh * 3600 + mm * 60
                + ss,
        )
    } else {
        None
    }
}

/// `hh:mm:ss` starting at `i`.
pub open spec fn clock_layout(s: Seq<u8>, i: int) -> bool {
    is_digit(s[i]) && is_digit(s[i + 1]) && s[i + 2] == COLON && is_digit(s[i + 3]) && is_digit(
        s[i + 4],
    ) && s[i + 5] == COLON && is_digit(s[i + 6]) && is_digit(s[i + 7])
}

/// `Sun, 06 Nov 1994 08:49:37 GMT`: the right bytes in the right places,
/// digits where numbers go.
pub open spec fn fixdate_layout(s: Seq<u8>) -> bool {
    &&& s.len() == 29
    &&& is_day_name(s.subrange(0, 3))
    &&& s[3] == COMMA && s[4] == SPACE && is_digit(s[5]) && is_digit(s[6]) && s[7] == SPACE
    &&& s[11] == SPACE && is_digit(s[12]) && is_digit(s[13]) && is_digit(s[14]) && is_digit(s[15])
    &&& s[16] == SPACE && clock_layout(s, 17) && s[25] == SPACE
    &&& s.subrange(26, 29) == GMT@
}

pub open spec fn fixdate_seconds(s: Seq<u8>) -> Option<int> {
    civil_seconds(
        four_digits_at(s, 12),
        month_of(s.subrange(8, 11)),
        two_digits_at(s, 5),
        two_digits_at(s, 17),
        two_digits_at(s, 20),
        two_digits_at(s, 23),
    )
}

/// `Sun Nov  6 08:49:37 1994`, the day of the month padded with a space.
pub open spec fn asctime_layout(s: Seq<u8>) -> bool {
    &&& s.len() == 24
    &&& is_day_name(s.subrange(0, 3))
    &&& s[3] == SPACE && s[7] == SPACE && (s[8] == SPACE || is_digit(s[8])) && is_digit(s[9])
    &&& s[10] == SPACE && clock_layout(s, 11) && s[19] == SPACE
    &&& is_digit(s[20]) && is_digit(s[21]) && is_digit(s[22]) && is_digit(s[23])
}

pub open spec fn asctime_seconds(s: Seq<u8>) -> Option<int> {
    civil_seconds(
        four_digits_at(s, 20),
        month_of(s.subrange(4, 7)),
        if s[8] == SPACE {
            digit_at(s, 9)
        } else {
            two_digits_at(s, 8)
        },
        two_digits_at(s, 11),
        two_digits_at(s, 14),
        two_digits_at(s, 17),
    )
}

/// Length of the day name of an RFC 850 date.
pub open spec fn rfc850_name_len(s: Seq<u8>) -> int {
    s.len() - 24
}

/// `Sunday, 06-Nov-94 08:49:37 GMT`.
pub open spec fn rfc850_layout(s: Seq<u8>) -> bool {
    let k = rfc850_name_len(s);
    &&& 30 <= s.len() <= 33
    &&& is_full_day_name(s.subrange(0, k))
    &&& s[k] == COMMA && s[k + 1] == SPACE && is_digit(s[k + 2]) && is_digit(s[k + 3])
    &&& s[k + 4] == HYPHEN && s[k + 8] == HYPHEN && is_digit(s[k + 9]) && is_digit(s[k + 10])
    &&& s[k + 11] == SPACE && clock_layout(s, k + 12) && s[k + 20] == SPACE
    &&& s.subrange(k + 21, k + 24) == GMT@
}

/// A two-digit year below 70 lies in the 2000s, any other in the 1900s.
pub open spec fn full_year(yy: int) -> int {
    if yy < 70 {
        2000 + yy
    } else {
        1900 + yy
    }
}

pub open spec fn rfc850_seconds(s: Seq<u8>) -> Option<int> {
    let k = rfc850_name_len(s);
    civil_seconds(
        full_year(two_digits_at(s, k + 9)),
        month_of(s.subrange(k + 5, k + 8)),
        two_digits_at(s, k + 2),
        two_digits_at(s, k + 12),
        two_digits_at(s, k + 15),
        two_digits_at(s, k + 18),
    )
}

/// The date that a header value holds, surrounding whitespace allowed;
/// `None` where it is none of the three forms or names no real moment
/// from 1970 on.
pub open spec fn http_date(v: Seq<u8>) -> Option<int> {
    let t = trim(v);
    if fixdate_layout(t) {
        fixdate_seconds(t)
    } else if asctime_layout(t) {
        asctime_seconds(t)
    } else if rfc850_layout(t) {
        rfc850_seconds(t)
    } else {
        None
    }
}

fn month_number(t: &[u8]) -> (r: u64)
    ensures
        r == month_of(t@),
{
    if bytes_eq(t, &JAN) {
        1
    } else if bytes_eq(t, &FEB) {
        2
    } else if bytes_eq(t, &MAR) {
        3
    } else if bytes_eq(t, &APR) {
        4
    } else if bytes_eq(t, &MAY) {
        5
    } else if bytes_eq(t, &JUN) {
        6
    } else if bytes_eq(t, &JUL) {
        7
    } else if bytes_eq(t, &AUG) {
        8
    } else if bytes_eq(t, &SEP) {
        9
    } else if bytes_eq(t, &OCT) {
        10
    } else if bytes_eq(t, &NOV) {
        11
    } else if bytes_eq(t, &DEC) {
        12
    } else {
        0
    }
}

fn day_name(t: &[u8]) -> (r: bool)
    ensures
        r == is_day_name(t@),
{
    bytes_eq(t, &MON) || bytes_eq(t, &TUE) || bytes_eq(t, &WED) || bytes_eq(t, &THU) || bytes_eq(
        t,
        &FRI,
    ) || bytes_eq(t, &SAT) || bytes_eq(t, &SUN)
}

fn full_day_name(t: &[u8]) -> (r: bool)
    ensures
        r == is_full_day_name(t@),
{
    bytes_eq(t, &MONDAY) || bytes_eq(t, &TUESDAY) || bytes_eq(t, &WEDNESDAY) || bytes_eq(
        t,
        &THURSDAY,
    ) || bytes_eq(t, &FRIDAY) || bytes_eq(t, &SATURDAY) || bytes_eq(t, &SUNDAY)
}

fn digit(b: u8) -> (r: bool)
    ensures
        r == is_digit(b),
{
    48 <= b && b <= 57
}

fn two_digits(s: &[u8], i: usize) -> (r: u64)
    requires
        i + 1 < s@.len(),
        is_digit(s@[i as int]),
        is_digit(s@[i + 1]),
    ensures
        r == two_digits_at(s@, i as int),
        r <= 99,
{
    ((s[i] - 48) as u64) * 10 + ((s[i + 1] - 48) as u64)
}

fn clock(s: &[u8], i: usize) -> (r: bool)
    requires
        i + 8 <= s@.len(),
    ensures
        r == clock_layout(s@, i as int),
{
    digit(s[i]) && digit(s[i + 1]) && s[i + 2] == COLON && digit(s[i + 3]) && digit(s[i + 4])
        && s[i + 5] == COLON && digit(s[i + 6]) && digit(s[i + 7])
}

/// Whether `s[a..a + 3]` is `t`.
fn three_at(s: &[u8], a: usize, t: &[u8; 3]) -> (r: bool)
    requires
        a + 3 <= s@.len(),
    ensures
        r == (s@.subrange(a as int, a + 3) == t@),
{
    let n = s.len();
    assert(a + 3 <= n);
    let part = crate::text::copy_range(s, a, a + 3);
    bytes_eq(part.as_slice(), t)
}

fn month_at(s: &[u8], a: usize) -> (r: u64)
    requires
        a + 3 <= s@.len(),
    ensures
        r == month_of(s@.subrange(a as int, a + 3)),
        r <= 12,
{
    let n = s.len();
    assert(a + 3 <= n);
    let part = crate::text::copy_range(s, a, a + 3);
    month_number(part.as_slice())
}

proof fn lemma_days_before_year_bounds(y: int)
    requires
        1970 <= y,
    ensures
        0 <= days_before_year(y) <= (y - 1970) * 366,
    decreases y - 1970,
{
    if y > 1970 {
        lemma_days_before_year_bounds(y - 1);
    }
}

proof fn lemma_days_before_month_bounds(y: int, m: int)
    requires
        1 <= m <= 12,
    ensures
        0 <= days_before_month(y, m) <= (m - 1) * 31,
    decreases m,
{
    if m > 1 {
        lemma_days_before_month_bounds(y, m - 1);
    }
}

fn leap(y: u64) -> (r: bool)
    ensures
        r == is_leap(y as int),
{
    y % 4 == 0 && (y % 100 != 0 || y % 400 == 0)
}

fn month_length(y: u64, m: u64) -> (r: u64)
    ensures
        r == days_in_month(y as int, m as int),
{
    if m == 2 {
        if leap(y) {
            29
        } else {
            28
        }
    } else if m == 4 || m == 6 || m == 9 || m == 11 {
        30
    } else {
        31
    }
}

/// See `civil_seconds`.
fn civil(y: u64, m: u64, d: u64, hh: u64, mm: u64, ss: u64) -> (r: Option<u64>)
    requires
        y <= 9999,
        m <= 12,
        d <= 99,
        hh <= 99,
        mm <= 99,
        ss <= 99,
    ensures
        r matches Some(n) ==> civil_seconds(
            y as int,
            m as int,
            d as int,
            hh as int,
            mm as int,
            ss as int,
        ) == Some(n as int),
        r is None ==> civil_seconds(
            y as int,
            m as int,
            d as int,
            hh as int,
            mm as int,
            ss as int,
        ) is None,
{
    if !(1970 <= y && 1 <= m && 1 <= d && d <= month_length(y, m) && hh <= 23 && mm <= 59 && ss
        <= 60) {
        return None;
    }
    let mut days: u64 = 0;
    let mut k: u64 = 1970;
    while k < y
        invariant
            1970 <= k <= y <= 9999,
            days == days_before_year(k as int),
        decreases y - k,
    {
        proof {
            lemma_days_before_year_bounds(k as int);
        }
        days = days + if leap(k) {
            366
        } else {
            365
        };
        k += 1;
    }
    let mut mo: u64 = 1;
    let mut in_year: u64 = 0;
    while mo < m
        invariant
            1 <= mo <= m <= 12,
            in_year == days_before_month(y as int, mo as int),
        decreases m - mo,
    {
        proof {
            lemma_days_before_month_bounds(y as int, mo as int);
        }
        in_year = in_year + month_length(y, mo);
        mo += 1;
    }
    proof {
        lemma_days_before_year_bounds(y as int);
        lemma_days_before_month_bounds(y as int, m as int);
    }
    Some((days + in_year + d - 1) * 86400 + hh * 3600 + mm * 60 + ss)
}

fn fixdate(s: &[u8]) -> (r: Option<u64>)
    ensures
        r matches Some(n) ==> fixdate_layout(s@) && fixdate_seconds(s@) == Some(n as int),
        r is None ==> !fixdate_layout(s@) || fixdate_seconds(s@) is None,
{
    if s.len() != 29 {
        return None;
    }
    let name = crate::text::copy_range(s, 0, 3);
    if !(day_name(name.as_slice()) && s[3] == COMMA && s[4] == SPACE && digit(s[5]) && digit(s[6])
        && s[7] == SPACE && s[11] == SPACE && digit(s[12]) && digit(s[13]) && digit(s[14])
        && digit(s[15]) && s[16] == SPACE && clock(s, 17) && s[25] == SPACE && three_at(
        s,
        26,
        &GMT,
    )) {
        return None;
    }
    let y = two_digits(s, 12) * 100 + two_digits(s, 14);
    civil(
        y,
        month_at(s, 8),
        two_digits(s, 5),
        two_digits(s, 17),
        two_digits(s, 20),
        two_digits(s, 23),
    )
}

fn asctime(s: &[u8]) -> (r: Option<u64>)
    ensures
        r matches Some(n) ==> asctime_layout(s@) && asctime_seconds(s@) == Some(n as int),
        r is None ==> !asctime_layout(s@) || asctime_seconds(s@) is None,
{
    if s.len() != 24 {
        return None;
    }
    let name = crate::text::copy_range(s, 0, 3);
    if !(day_name(name.as_slice()) && s[3] == SPACE && s[7] == SPACE && (s[8] == SPACE || digit(
        s[8],
    )) && digit(s[9]) && s[10] == SPACE && clock(s, 11) && s[19] == SPACE && digit(s[20])
        && digit(s[21]) && digit(s[22]) && digit(s[23])) {
        return None;
    }
    let d = if s[8] == SPACE {
        (s[9] - 48) as u64
    } else {
        two_digits(s, 8)
    };
    let y = two_digits(s, 20) * 100 + two_digits(s, 22);
    civil(y, month_at(s, 4), d, two_digits(s, 11), two_digits(s, 14), two_digits(s, 17))
}

fn rfc850(s: &[u8]) -> (r: Option<u64>)
    ensures
        r matches Some(n) ==> rfc850_layout(s@) && rfc850_seconds(s@) == Some(n as int),
        r is None ==> !rfc850_layout(s@) || rfc850_seconds(s@) is None,
{
    if s.len() < 30 || s.len() > 33 {
        return None;
    }
    let k = s.len() - 24;
    let name = crate::text::copy_range(s, 0, k);
    if !(full_day_name(name.as_slice()) && s[k] == COMMA && s[k + 1] == SPACE && digit(s[k + 2])
        && digit(s[k + 3]) && s[k + 4] == HYPHEN && s[k + 8] == HYPHEN && digit(s[k + 9]) && digit(
        s[k + 10],
    ) && s[k + 11] == SPACE && clock(s, k + 12) && s[k + 20] == SPACE && three_at(
        s,
        k + 21,
        &GMT,
    )) {
        return None;
    }
    let yy = two_digits(s, k + 9);
    let y = if yy < 70 {
        2000 + yy
    } else {
        1900 + yy
    };
    civil(
        y,
        month_at(s, k + 5),
        two_digits(s, k + 2),
        two_digits(s, k + 12),
        two_digits(s, k + 15),
        two_digits(s, k + 18),
    )
}

/// Reads an HTTP date in any of its three forms; see `http_date`.
pub fn parse_http_date(v: &[u8]) -> (r: Option<u64>)
    ensures
        r matches Some(n) ==> http_date(v@) == Some(n as int),
        r is None ==> http_date(v@) is None,
{
    let t = trim_bytes(v);
    let s = t.as_slice();
    if s.len() == 29 {
        fixdate(s)
    } else if s.len() == 24 {
        asctime(s)
    } else {
        rfc850(s)
    }
}

} // verus!
