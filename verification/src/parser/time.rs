//! time handles xsd:dateTime values: a calendar date and time of day,
//! an optional fraction of a second, and an optional UTC offset. Values
//! are normalized to UTC when read, as the data model asks.

use vstd::prelude::*;
use vstd::string::*;

use crate::errors::{ErrS, GpxError, GpxResult};
use crate::events::EventS;
use crate::parser::{consume_post, Context, PStep};
use crate::parser::string::p_string;
use crate::text::{
    char_digit, char_is_digit, digit_char_of, digit_of, digit_str, digits_val, is_digit,
};

verus! {

/// An instant in UTC: a proleptic Gregorian calendar date and a time of
/// day with nanosecond fraction.
#[derive(Clone, Copy, Debug, PartialEq, Eq, PartialOrd, Ord, Hash, Structural)]
pub struct Time {
    pub year: u16,
    pub month: u8,
    pub day: u8,
    pub hour: u8,
    pub minute: u8,
    pub second: u8,
    pub nanosecond: u32,
}

impl DeepView for Time {
    type V = Time;

    open spec fn deep_view(&self) -> Time {
        *self
    }
}

pub open spec fn is_leap_year(y: int) -> bool {
    y % 4 == 0 && (y % 100 != 0 || y % 400 == 0)
}

pub open spec fn days_in_month(y: int, m: int) -> int {
    if m == 2 {
        if is_leap_year(y) {
            29
        } else {
            28
        }
    } else if m == 4 || m == 6 || m == 9 || m == 11 {
        30
    } else {
        31
    }
}

/// A valid instant: fields within their calendar and clock ranges.
pub open spec fn time_wf(t: Time) -> bool {
    &&& t.year <= 9999
    &&& 1 <= t.month <= 12
    &&& 1 <= t.day && t.day as int <= days_in_month(t.year as int, t.month as int)
    &&& t.hour < 24
    &&& t.minute < 60
    &&& t.second < 60
    &&& t.nanosecond < 1_000_000_000
}

/// Two digit characters read as a number.
pub open spec fn d2(s: Seq<char>, i: int) -> int {
    10 * digit_of(s[i]) + digit_of(s[i + 1])
}

/// Four digit characters read as a number.
pub open spec fn d4(s: Seq<char>, i: int) -> int {
    1000 * digit_of(s[i]) + 100 * digit_of(s[i + 1]) + 10 * digit_of(s[i + 2]) + digit_of(
        s[i + 3],
    )
}

/// `n` digit characters stand at position `i`.
pub open spec fn digits_at(s: Seq<char>, i: int, n: int) -> bool {
    forall|k: int| i <= k < i + n ==> is_digit(#[trigger] s[k])
}

/// First position at or after `i` that does not hold a digit.
pub open spec fn digits_end(s: Seq<char>, i: int) -> int
    decreases s.len() - i,
{
    if i < 0 || i >= s.len() {
        s.len() as int
    } else if !is_digit(s[i]) {
        i
    } else {
        digits_end(s, i + 1)
    }
}

pub open spec fn pow10(e: int) -> int
    decreases e,
{
    if e <= 0 {
        1
    } else {
        10 * pow10(e - 1)
    }
}

/// The day before a date, or `None` at the calendar's lower edge.
pub open spec fn prev_day(y: int, mo: int, da: int) -> Option<(int, int, int)> {
    if da > 1 {
        Some((y, mo, da - 1))
    } else if mo > 1 {
        Some((y, mo - 1, days_in_month(y, mo - 1)))
    } else if y > 0 {
        Some((y - 1, 12, 31))
    } else {
        None
    }
}

/// The day after a date, or `None` at the calendar's upper edge.
pub open spec fn next_day(y: int, mo: int, da: int) -> Option<(int, int, int)> {
    if da < days_in_month(y, mo) {
        Some((y, mo, da + 1))
    } else if mo < 12 {
        Some((y, mo + 1, 1))
    } else if y < 9999 {
        Some((y + 1, 1, 1))
    } else {
        None
    }
}

pub open spec fn mk_time(y: int, mo: int, da: int, hh: int, mi: int, ss: int, ns: int) -> Option<
    Time,
> {
    Some(
        Time {
            year: y as u16,
            month: mo as u8,
            day: da as u8,
            hour: hh as u8,
            minute: mi as u8,
            second: ss as u8,
            nanosecond: ns as u32,
        },
    )
}

/// Applies the written UTC offset, in minutes, shifting the date by at
/// most one day.
pub open spec fn time_normalize(
    y: int,
    mo: int,
    da: int,
    hh: int,
    mi: int,
    ss: int,
    ns: int,
    off: int,
) -> Option<Time> {
    let tod = hh * 60 + mi - off;
    if tod < 0 {
        match prev_day(y, mo, da) {
            Some(d) => mk_time(d.0, d.1, d.2, (tod + 1440) / 60, (tod + 1440) % 60, ss, ns),
            None => None,
        }
    } else if tod >= 1440 {
        match next_day(y, mo, da) {
            Some(d) => mk_time(d.0, d.1, d.2, (tod - 1440) / 60, (tod - 1440) % 60, ss, ns),
            None => None,
        }
    } else {
        mk_time(y, mo, da, tod / 60, tod % 60, ss, ns)
    }
}

/// The offset part of the grammar: nothing, `Z`, or a signed
/// hours-and-minutes pair ending the text.
pub open spec fn time_finish(
    s: Seq<char>,
    p: int,
    y: int,
    mo: int,
    da: int,
    hh: int,
    mi: int,
    ss: int,
    ns: int,
) -> Option<Time> {
    if p == s.len() {
        time_normalize(y, mo, da, hh, mi, ss, ns, 0)
    } else if p + 1 == s.len() && s[p] == 'Z' {
        time_normalize(y, mo, da, hh, mi, ss, ns, 0)
    } else if p + 6 == s.len() && (s[p] == '+' || s[p] == '-') && digits_at(s, p + 1, 2) && s[p
        + 3] == ':' && digits_at(s, p + 4, 2) {
        let oh = d2(s, p + 1);
        let om = d2(s, p + 4);
        if oh <= 23 && om <= 59 {
            let off = if s[p] == '-' {
                -(oh * 60 + om)
            } else {
                oh * 60 + om
            };
            time_normalize(y, mo, da, hh, mi, ss, ns, off)
        } else {
            None
        }
    } else {
        None
    }
}

/// The optional seconds and fraction of the grammar.
pub open spec fn time_parse_tail(
    s: Seq<char>,
    p: int,
    y: int,
    mo: int,
    da: int,
    hh: int,
    mi: int,
) -> Option<Time> {
    if p < s.len() && s[p] == ':' {
        if p + 3 <= s.len() && digits_at(s, p + 1, 2) {
            let ss = d2(s, p + 1);
            if ss <= 59 {
                if p + 3 < s.len() && s[p + 3] == '.' {
                    let q = digits_end(s, p + 4);
                    let cnt = q - (p + 4);
                    if 1 <= cnt <= 9 {
                        let ns = digits_val(s.subrange(p + 4, q)) * pow10(9 - cnt);
                        time_finish(s, q, y, mo, da, hh, mi, ss, ns)
                    } else {
                        None
                    }
                } else {
                    time_finish(s, p + 3, y, mo, da, hh, mi, ss, 0)
                }
            } else {
                None
            }
        } else {
            None
        }
    } else {
        time_finish(s, p, y, mo, da, hh, mi, 0, 0)
    }
}

/// The date-time grammar: `YYYY-MM-DDThh:mm`, optional `:ss` with an
/// optional fraction of one to nine digits, and an optional offset,
/// normalized to UTC.
pub open spec fn time_parse(s: Seq<char>) -> Option<Time> {
    if s.len() >= 16 && digits_at(s, 0, 4) && s[4] == '-' && digits_at(s, 5, 2) && s[7] == '-'
        && digits_at(s, 8, 2) && s[10] == 'T' && digits_at(s, 11, 2) && s[13] == ':' && digits_at(
        s,
        14,
        2,
    ) {
        let y = d4(s, 0);
        let mo = d2(s, 5);
        let da = d2(s, 8);
        let hh = d2(s, 11);
        let mi = d2(s, 14);
        if 1 <= mo <= 12 && 1 <= da <= days_in_month(y, mo) && hh <= 23 && mi <= 59 {
            time_parse_tail(s, 16, y, mo, da, hh, mi)
        } else {
            None
        }
    } else {
        None
    }
}

/// Zero-padded rendering of `n` in `k` digits.
pub open spec fn pad(n: int, k: int) -> Seq<char>
    decreases k,
{
    if k <= 0 {
        Seq::<char>::empty()
    } else {
        pad(n / 10, k - 1).push(digit_char_of(n % 10))
    }
}

/// The canonical UTC rendering of an instant.
pub open spec fn time_text(t: Time) -> Seq<char> {
    pad(t.year as int, 4) + seq!['-'] + pad(t.month as int, 2) + seq!['-'] + pad(t.day as int, 2)
        + seq!['T'] + pad(t.hour as int, 2) + seq![':'] + pad(t.minute as int, 2) + seq![':'] + pad(
        t.second as int,
        2,
    ) + (if t.nanosecond > 0 {
        seq!['.'] + pad(t.nanosecond as int, 9)
    } else {
        Seq::<char>::empty()
    }) + seq!['Z']
}

impl Time {
    /// Builds an instant from its parts; `None` if any part is out of
    /// range.
    pub fn from_parts(
        year: u16,
        month: u8,
        day: u8,
        hour: u8,
        minute: u8,
        second: u8,
        nanosecond: u32,
    ) -> (r: Option<Time>)
        ensures
            ({
                let t = Time { year, month, day, hour, minute, second, nanosecond };
                if time_wf(t) {
                    r == Some(t)
                } else {
                    r is None
                }
            }),
    {
        let t = Time { year, month, day, hour, minute, second, nanosecond };
        if year <= 9999 && 1 <= month && month <= 12 && 1 <= day && (day as u64) <= days_in_month_exec(
            year,
            month,
        ) as u64 && hour < 24 && minute < 60 && second < 60 && nanosecond < 1_000_000_000 {
            Some(t)
        } else {
            None
        }
    }

    /// The instant's fields are within their ranges, as `time_wf` says.
    pub fn is_well_formed(&self) -> (r: bool)
        ensures
            r == time_wf(*self),
    {
        self.year <= 9999 && 1 <= self.month && self.month <= 12 && 1 <= self.day && (self.day
            as u64) <= days_in_month_exec(self.year, self.month) as u64 && self.hour < 24
            && self.minute < 60 && self.second < 60 && self.nanosecond < 1_000_000_000
    }

    /// Render the instant in its ISO 8601 UTC form.
    ///
    /// An out-of-range value cannot be rendered and reports
    /// `Rfc3339ErrorWriting`.
    pub fn format(&self) -> (r: GpxResult<String>)
        ensures
            time_wf(*self) ==> (r matches Ok(out) && out@ == time_text(*self)),
            !time_wf(*self) ==> r == GpxResult::<String>::Err(GpxError::Rfc3339ErrorWriting),
    {
        let t = *self;
        if !(t.year <= 9999 && 1 <= t.month && t.month <= 12 && 1 <= t.day && (t.day as u64)
            <= days_in_month_exec(t.year, t.month) as u64 && t.hour < 24 && t.minute < 60
            && t.second < 60 && t.nanosecond < 1_000_000_000) {
            return Err(GpxError::Rfc3339ErrorWriting);
        }
        let mut r = format_padded(t.year as u64, 4);
        r.append("-");
        r.append(format_padded(t.month as u64, 2).as_str());
        r.append("-");
        r.append(format_padded(t.day as u64, 2).as_str());
        r.append("T");
        r.append(format_padded(t.hour as u64, 2).as_str());
        r.append(":");
        r.append(format_padded(t.minute as u64, 2).as_str());
        r.append(":");
        r.append(format_padded(t.second as u64, 2).as_str());
        if t.nanosecond > 0 {
            r.append(".");
            r.append(format_padded(t.nanosecond as u64, 9).as_str());
        }
        r.append("Z");
        proof {
            reveal_strlit("-");
            reveal_strlit("T");
            reveal_strlit(":");
            reveal_strlit(".");
            reveal_strlit("Z");
            assert(r@ =~= time_text(t));
        }
        Ok(r)
    }
}

pub fn days_in_month_exec(y: u16, m: u8) -> (r: u8)
    ensures
        r as int == days_in_month(y as int, m as int),
{
    if m == 2 {
        if y % 4 == 0 && (y % 100 != 0 || y % 400 == 0) {
            29
        } else {
            28
        }
    } else if m == 4 || m == 6 || m == 9 || m == 11 {
        30
    } else {
        31
    }
}

proof fn lemma_pow10_pos(e: int)
    ensures
        pow10(e) >= 1,
    decreases e,
{
    if e > 0 {
        lemma_pow10_pos(e - 1);
    }
}

proof fn lemma_pow10_mono(a: int, b: int)
    requires
        a <= b,
    ensures
        pow10(a) <= pow10(b),
    decreases b - a,
{
    if a < b {
        lemma_pow10_mono(a, b - 1);
        lemma_pow10_pos(b - 1);
    }
}

fn pow10_exec(e: usize) -> (r: u32)
    requires
        e <= 9,
    ensures
        r as int == pow10(e as int),
{
    proof {
        reveal_with_fuel(pow10, 10);
    }
    match e {
        0 => 1,
        1 => 10,
        2 => 100,
        3 => 1_000,
        4 => 10_000,
        5 => 100_000,
        6 => 1_000_000,
        7 => 10_000_000,
        8 => 100_000_000,
        _ => 1_000_000_000,
    }
}

fn read2(s: &str, i: usize) -> (r: Option<u8>)
    requires
        i + 2 <= s@.len(),
        s@.len() <= usize::MAX,
    ensures
        digits_at(s@, i as int, 2) ==> r == Some(d2(s@, i as int) as u8),
        !digits_at(s@, i as int, 2) ==> r is None,
{
    let c0 = s.get_char(i);
    let c1 = s.get_char(i + 1);
    if char_is_digit(c0) && char_is_digit(c1) {
        proof {
            assert forall|k: int| i <= k < i + 2 implies is_digit(#[trigger] s@[k]) by {
                assert(k == i || k == i + 1);
            }
        }
        Some(10 * char_digit(c0) + char_digit(c1))
    } else {
        None
    }
}

fn read4(s: &str, i: usize) -> (r: Option<u16>)
    requires
        i + 4 <= s@.len(),
        s@.len() <= usize::MAX,
    ensures
        digits_at(s@, i as int, 4) ==> r == Some(d4(s@, i as int) as u16),
        !digits_at(s@, i as int, 4) ==> r is None,
{
    let c0 = s.get_char(i);
    let c1 = s.get_char(i + 1);
    let c2 = s.get_char(i + 2);
    let c3 = s.get_char(i + 3);
    if char_is_digit(c0) && char_is_digit(c1) && char_is_digit(c2) && char_is_digit(c3) {
        proof {
            assert forall|k: int| i <= k < i + 4 implies is_digit(#[trigger] s@[k]) by {
                assert(k == i || k == i + 1 || k == i + 2 || k == i + 3);
            }
        }
        Some(
            1000 * (char_digit(c0) as u16) + 100 * (char_digit(c1) as u16) + 10 * (char_digit(c2)
                as u16) + (char_digit(c3) as u16),
        )
    } else {
        None
    }
}

fn prev_day_exec(y: u16, mo: u8, da: u8) -> (r: Option<(u16, u8, u8)>)
    requires
        y <= 9999,
        1 <= mo <= 12,
        1 <= da,
        da as int <= days_in_month(y as int, mo as int),
    ensures
        match r {
            Some(t) => prev_day(y as int, mo as int, da as int) == Some(
                (t.0 as int, t.1 as int, t.2 as int),
            ) && t.0 <= 9999 && 1 <= t.1 <= 12 && 1 <= t.2 && t.2 as int <= days_in_month(
                t.0 as int,
                t.1 as int,
            ),
            None => prev_day(y as int, mo as int, da as int) is None,
        },
{
    if da > 1 {
        Some((y, mo, da - 1))
    } else if mo > 1 {
        Some((y, mo - 1, days_in_month_exec(y, mo - 1)))
    } else if y > 0 {
        Some((y - 1, 12, 31))
    } else {
        None
    }
}

fn next_day_exec(y: u16, mo: u8, da: u8) -> (r: Option<(u16, u8, u8)>)
    requires
        y <= 9999,
        1 <= mo <= 12,
        1 <= da,
        da as int <= days_in_month(y as int, mo as int),
    ensures
        match r {
            Some(t) => next_day(y as int, mo as int, da as int) == Some(
                (t.0 as int, t.1 as int, t.2 as int),
            ) && t.0 <= 9999 && 1 <= t.1 <= 12 && 1 <= t.2 && t.2 as int <= days_in_month(
                t.0 as int,
                t.1 as int,
            ),
            None => next_day(y as int, mo as int, da as int) is None,
        },
{
    if da < days_in_month_exec(y, mo) {
        Some((y, mo, da + 1))
    } else if mo < 12 {
        Some((y, mo + 1, 1))
    } else if y < 9999 {
        Some((y + 1, 1, 1))
    } else {
        None
    }
}

fn normalize_time(y: u16, mo: u8, da: u8, hh: u8, mi: u8, ss: u8, ns: u32, off: i32) -> (r: Option<
    Time,
>)
    requires
        y <= 9999,
        1 <= mo <= 12,
        1 <= da,
        da as int <= days_in_month(y as int, mo as int),
        hh < 24,
        mi < 60,
        ss < 60,
        ns < 1_000_000_000,
        -1439 <= off <= 1439,
    ensures
        r == time_normalize(
            y as int,
            mo as int,
            da as int,
            hh as int,
            mi as int,
            ss as int,
            ns as int,
            off as int,
        ),
        r matches Some(t) ==> time_wf(t),
{
    let tod: i32 = (hh as i32) * 60 + (mi as i32) - off;
    if tod < 0 {
        match prev_day_exec(y, mo, da) {
            Some(d) => {
                let t2 = tod + 1440;
                Some(
                    Time {
                        year: d.0,
                        month: d.1,
                        day: d.2,
                        hour: (t2 / 60) as u8,
                        minute: (t2 % 60) as u8,
                        second: ss,
                        nanosecond: ns,
                    },
                )
            },
            None => None,
        }
    } else if tod >= 1440 {
        match next_day_exec(y, mo, da) {
            Some(d) => {
                let t2 = tod - 1440;
                Some(
                    Time {
                        year: d.0,
                        month: d.1,
                        day: d.2,
                        hour: (t2 / 60) as u8,
                        minute: (t2 % 60) as u8,
                        second: ss,
                        nanosecond: ns,
                    },
                )
            },
            None => None,
        }
    } else {
        Some(
            Time {
                year: y,
                month: mo,
                day: da,
                hour: (tod / 60) as u8,
                minute: (tod % 60) as u8,
                second: ss,
                nanosecond: ns,
            },
        )
    }
}

fn finish_time(s: &str, p: usize, y: u16, mo: u8, da: u8, hh: u8, mi: u8, ss: u8, ns: u32) -> (r:
    Option<Time>)
    requires
        p <= s@.len(),
        y <= 9999,
        1 <= mo <= 12,
        1 <= da,
        da as int <= days_in_month(y as int, mo as int),
        hh < 24,
        mi < 60,
        ss < 60,
        ns < 1_000_000_000,
    ensures
        r == time_finish(
            s@,
            p as int,
            y as int,
            mo as int,
            da as int,
            hh as int,
            mi as int,
            ss as int,
            ns as int,
        ),
        r matches Some(t) ==> time_wf(t),
{
    let len = s.unicode_len();
    if p == len {
        normalize_time(y, mo, da, hh, mi, ss, ns, 0)
    } else if len - p == 1 && s.get_char(p) == 'Z' {
        normalize_time(y, mo, da, hh, mi, ss, ns, 0)
    } else if len - p == 6 && (s.get_char(p) == '+' || s.get_char(p) == '-') {
        let oh = match read2(s, p + 1) {
            Some(v) => v,
            None => {
                return None;
            },
        };
        if !(s.get_char(p + 3) == ':') {
            return None;
        }
        let om = match read2(s, p + 4) {
            Some(v) => v,
            None => {
                return None;
            },
        };
        if oh <= 23 && om <= 59 {
            let total = (oh as i32) * 60 + (om as i32);
            let off = if s.get_char(p) == '-' {
                -total
            } else {
                total
            };
            normalize_time(y, mo, da, hh, mi, ss, ns, off)
        } else {
            None
        }
    } else {
        None
    }
}

/// A proof helper: a run of digits seen so far keeps `digits_end` at or
/// beyond its end.
proof fn lemma_digits_end_from(s: Seq<char>, i: int, k: int)
    requires
        0 <= i <= k <= s.len(),
        forall|m: int| i <= m < k ==> is_digit(#[trigger] s[m]),
        k == s.len() || !is_digit(s[k]),
    ensures
        digits_end(s, i) == k,
    decreases k - i,
{
    if i < k {
        lemma_digits_end_from(s, i + 1, k);
    }
}

proof fn lemma_digits_end_at_least(s: Seq<char>, i: int, k: int)
    requires
        0 <= i <= k <= s.len(),
        forall|m: int| i <= m < k ==> is_digit(#[trigger] s[m]),
    ensures
        digits_end(s, i) >= k,
    decreases k - i,
{
    if i < k {
        lemma_digits_end_at_least(s, i + 1, k);
    } else if i < s.len() && is_digit(s[i]) {
        lemma_digits_end_lower(s, i);
    }
}

proof fn lemma_digits_end_lower(s: Seq<char>, i: int)
    requires
        0 <= i <= s.len(),
    ensures
        digits_end(s, i) >= i,
    decreases s.len() - i,
{
    if i < s.len() && is_digit(s[i]) {
        lemma_digits_end_lower(s, i + 1);
    }
}

/// Parses the date-time grammar, per `time_parse`.
pub fn parse_time_text(s: &str) -> (r: Option<Time>)
    ensures
        r == time_parse(s@),
        r matches Some(t) ==> time_wf(t),
{
    let len = s.unicode_len();
    if len < 16 {
        return None;
    }
    let y = match read4(s, 0) {
        Some(v) => v,
        None => {
            return None;
        },
    };
    if !(s.get_char(4) == '-') {
        return None;
    }
    let mo = match read2(s, 5) {
        Some(v) => v,
        None => {
            return None;
        },
    };
    if !(s.get_char(7) == '-') {
        return None;
    }
    let da = match read2(s, 8) {
        Some(v) => v,
        None => {
            return None;
        },
    };
    if !(s.get_char(10) == 'T') {
        return None;
    }
    let hh = match read2(s, 11) {
        Some(v) => v,
        None => {
            return None;
        },
    };
    if !(s.get_char(13) == ':') {
        return None;
    }
    let mi = match read2(s, 14) {
        Some(v) => v,
        None => {
            return None;
        },
    };
    if !(1 <= mo && mo <= 12 && 1 <= da && da <= days_in_month_exec(y, mo) && hh <= 23 && mi <= 59)
    {
        return None;
    }
    let p: usize = 16;
    if p < len && s.get_char(p) == ':' {
        if len - p < 3 {
            return None;
        }
        let ss = match read2(s, p + 1) {
            Some(v) => v,
            None => {
                return None;
            },
        };
        if ss > 59 {
            return None;
        }
        if len - p > 3 && s.get_char(p + 3) == '.' {
            // fraction: one to nine digits
            let fstart = p + 4;
            let mut q = fstart;
            let mut acc: u32 = 0;
            proof {
                assert(s@.subrange(fstart as int, fstart as int) =~= Seq::<char>::empty());
                reveal_with_fuel(pow10, 1);
            }
            while q < len && q - fstart < 9 && char_is_digit(s.get_char(q))
                invariant
                    fstart <= q <= len,
                    fstart == p + 4,
                    q - fstart <= 9,
                    len == s@.len(),
                    forall|m: int| fstart <= m < q ==> is_digit(#[trigger] s@[m]),
                    acc as int == digits_val(s@.subrange(fstart as int, q as int)),
                    (acc as int) < pow10(q - fstart),
                decreases len - q,
            {
                let d = char_digit(s.get_char(q));
                proof {
                    let pre = s@.subrange(fstart as int, q as int);
                    let post = s@.subrange(fstart as int, q + 1);
                    assert(post.drop_last() =~= pre);
                    assert(post.last() == s@[q as int]);
                    assert(pow10(q + 1 - fstart) == 10 * pow10(q - fstart));
                    lemma_pow10_mono(q - fstart, 8);
                    reveal_with_fuel(pow10, 10);
                    assert(pow10(8) == 100_000_000);
                }
                acc = acc * 10 + (d as u32);
                q += 1;
            }
            if q < len && char_is_digit(s.get_char(q)) {
                // a tenth digit: the fraction is too long
                proof {
                    assert forall|m: int| fstart <= m < q + 1 implies is_digit(
                        #[trigger] s@[m],
                    ) by {}
                    lemma_digits_end_at_least(s@, fstart as int, q + 1);
                }
                return None;
            }
            proof {
                lemma_digits_end_from(s@, fstart as int, q as int);
            }
            let cnt = q - fstart;
            if cnt == 0 {
                return None;
            }
            let scale = pow10_exec(9 - cnt);
            proof {
                lemma_pow10_pos(9 - cnt);
                lemma_pow10_mul_bound(acc as int, cnt as int);
                reveal_with_fuel(pow10, 10);
            }
            let ns = acc * scale;
            finish_time(s, q, y, mo, da, hh, mi, ss, ns)
        } else {
            finish_time(s, p + 3, y, mo, da, hh, mi, ss, 0)
        }
    } else {
        finish_time(s, p, y, mo, da, hh, mi, 0, 0)
    }
}

/// One time element: the text of a `time` string element, read by the
/// date-time grammar; text outside it is the date error.
#[verifier::opaque]
pub open spec fn p_time(evs: Seq<EventS>, p: int) -> PStep<Time> {
    match p_string(evs, p, "time"@, false) {
        PStep::Took(s, used) => {
            match time_parse(s) {
                Some(t) => PStep::Took(t, used),
                None => PStep::Fail(ErrS::Rfc3339Error),
            }
        },
        PStep::Fail(e) => PStep::Fail(e),
    }
}

/// A successful time step consumes at least one event and stays within
/// the stream.
pub proof fn lemma_time_step(evs: Seq<EventS>, p: int)
    ensures
        p_time(evs, p) matches PStep::Took(_, used) ==> 1 <= used && p + used <= evs.len(),
{
    reveal_with_fuel(p_time, 1);
    crate::parser::string::lemma_string_step(evs, p, "time"@, false);
}

/// consume consumes an element as a time.
pub fn consume(context: &mut Context) -> (r: GpxResult<Time>)
    requires
        old(context).pos <= old(context).events.len(),
    ensures
        consume_post::<Time>(
            p_time(old(context).events.deep_view(), old(context).pos as int),
            *old(context),
            *final(context),
            r,
        ),
        r matches Ok(_) ==> final(context).pos > old(context).pos,
{
    proof {
        reveal_with_fuel(p_time, 1);
    }
    let time_str = match crate::parser::string::consume(context, "time", false) {
        Ok(s) => s,
        Err(e) => {
            return Err(e);
        },
    };
    match parse_time_text(time_str.as_str()) {
        Some(t) => Ok(t),
        None => Err(GpxError::Rfc3339Error),
    }
}

/// A value below `pow10(cnt)` scaled by the remaining digits stays
/// below a full nine-digit fraction.
proof fn lemma_pow10_mul_bound(acc: int, cnt: int)
    requires
        0 <= cnt <= 9,
        0 <= acc < pow10(cnt),
    ensures
        acc * pow10(9 - cnt) < pow10(9),
        acc * pow10(9 - cnt) >= 0,
    decreases cnt,
{
    lemma_pow10_pos(9 - cnt);
    lemma_pow10_adds(cnt, 9 - cnt);
    vstd::arithmetic::mul::lemma_mul_strict_inequality(acc, pow10(cnt), pow10(9 - cnt));
    vstd::arithmetic::mul::lemma_mul_nonnegative(acc, pow10(9 - cnt));
}

proof fn lemma_pow10_adds(a: int, b: int)
    requires
        a >= 0,
        b >= 0,
    ensures
        pow10(a) * pow10(b) == pow10(a + b),
    decreases a,
{
    if a == 0 {
        assert(pow10(0) == 1);
        assert(1 * pow10(b) == pow10(b)) by (nonlinear_arith);
    } else {
        lemma_pow10_adds(a - 1, b);
        assert(pow10(a) == 10 * pow10(a - 1));
        assert(pow10(a + b) == 10 * pow10(a - 1 + b));
        assert((10 * pow10(a - 1)) * pow10(b) == 10 * (pow10(a - 1) * pow10(b)))
            by (nonlinear_arith);
    }
}

/// A zero-padded rendering has exactly its width, all digits, and the
/// value it was given.
pub proof fn lemma_pad_props(n: int, k: int)
    requires
        0 <= k,
        0 <= n < pow10(k),
    ensures
        pad(n, k).len() == k,
        crate::text::all_digits(pad(n, k)),
        digits_val(pad(n, k)) == n,
    decreases k,
{
    if k == 0 {
        assert(pad(n, k) =~= Seq::<char>::empty());
    } else {
        vstd::arithmetic::div_mod::lemma_fundamental_div_mod(n, 10);
        assert(pow10(k) == 10 * pow10(k - 1));
        assert(10 * (n / 10) <= n);
        lemma_pad_props(n / 10, k - 1);
        let s = pad(n, k);
        assert(s.drop_last() =~= pad(n / 10, k - 1));
        assert(s.last() == digit_char_of(n % 10));
        assert(digits_val(s) == 10 * (n / 10) + (n % 10));
    }
}

/// Round trip: a valid instant's canonical UTC rendering parses back to
/// the same instant.
pub proof fn lemma_time_round_trip(t: Time)
    requires
        time_wf(t),
    ensures
        time_parse(time_text(t)) == Some(t),
        time_text(t).len() >= 20,
{
    reveal_with_fuel(pow10, 11);
    let y = t.year as int;
    let mo = t.month as int;
    let da = t.day as int;
    let hh = t.hour as int;
    let mi = t.minute as int;
    let ss = t.second as int;
    let ns = t.nanosecond as int;
    lemma_pad_props(y, 4);
    lemma_pad_props(mo, 2);
    lemma_pad_props(da, 2);
    lemma_pad_props(hh, 2);
    lemma_pad_props(mi, 2);
    lemma_pad_props(ss, 2);
    lemma_pad_props(ns, 9);
    let s = time_text(t);
    let frac: Seq<char> = if t.nanosecond > 0 {
        seq!['.'] + pad(ns, 9)
    } else {
        Seq::<char>::empty()
    };
    assert(s =~= pad(y, 4) + seq!['-'] + pad(mo, 2) + seq!['-'] + pad(da, 2) + seq!['T'] + pad(
        hh,
        2,
    ) + seq![':'] + pad(mi, 2) + seq![':'] + pad(ss, 2) + frac + seq!['Z']);
    assert(s.len() == 20 + frac.len());
    // the fixed positions of the date and time-of-day fields
    assert(digits_at(s, 0, 4)) by {
        assert(forall|m: int| 0 <= m < 4 ==> s[m] == pad(y, 4)[m]);
    }
    assert(s[4] == '-');
    assert(digits_at(s, 5, 2)) by {
        assert(forall|m: int| 5 <= m < 7 ==> s[m] == pad(mo, 2)[m - 5]);
    }
    assert(s[7] == '-');
    assert(digits_at(s, 8, 2)) by {
        assert(forall|m: int| 8 <= m < 10 ==> s[m] == pad(da, 2)[m - 8]);
    }
    assert(s[10] == 'T');
    assert(digits_at(s, 11, 2)) by {
        assert(forall|m: int| 11 <= m < 13 ==> s[m] == pad(hh, 2)[m - 11]);
    }
    assert(s[13] == ':');
    assert(digits_at(s, 14, 2)) by {
        assert(forall|m: int| 14 <= m < 16 ==> s[m] == pad(mi, 2)[m - 14]);
    }
    assert(s[16] == ':');
    assert(digits_at(s, 17, 2)) by {
        assert(forall|m: int| 17 <= m < 19 ==> s[m] == pad(ss, 2)[m - 17]);
    }
    // the two-digit reads give back the written values
    lemma_d2_of_pad(s, 5, mo);
    lemma_d2_of_pad(s, 8, da);
    lemma_d2_of_pad(s, 11, hh);
    lemma_d2_of_pad(s, 14, mi);
    lemma_d2_of_pad(s, 17, ss);
    assert(d4(s, 0) == y) by {
        let p4 = pad(y, 4);
        assert(s[0] == p4[0] && s[1] == p4[1] && s[2] == p4[2] && s[3] == p4[3]);
        lemma_digits_val_4(p4);
    }
    // the optional fraction, then the `Z` ending
    if t.nanosecond > 0 {
        assert(s[19] == '.');
        assert(forall|m: int| 20 <= m < 29 ==> s[m] == pad(ns, 9)[m - 20]);
        assert(s[29] == 'Z');
        lemma_digits_end_from(s, 20, 29);
        assert(s.subrange(20, 29) =~= pad(ns, 9));
        assert(digits_val(s.subrange(20, 29)) == ns);
        assert(pow10(0) == 1);
        assert(digits_val(s.subrange(20, 29)) * pow10(0) == ns);
        lemma_time_finish_z(s, 29, t);
    } else {
        assert(s[19] == 'Z');
        lemma_time_finish_z(s, 19, t);
    }
}

/// The `Z`-terminated tail normalizes with no offset and rebuilds the
/// instant's own fields.
proof fn lemma_time_finish_z(s: Seq<char>, p: int, t: Time)
    requires
        time_wf(t),
        p + 1 == s.len(),
        s[p] == 'Z',
    ensures
        time_finish(
            s,
            p,
            t.year as int,
            t.month as int,
            t.day as int,
            t.hour as int,
            t.minute as int,
            t.second as int,
            t.nanosecond as int,
        ) == Some(t),
{
    let tod = t.hour as int * 60 + t.minute as int;
    vstd::arithmetic::div_mod::lemma_fundamental_div_mod_converse(
        tod,
        60,
        t.hour as int,
        t.minute as int,
    );
    assert(tod / 60 == t.hour as int && tod % 60 == t.minute as int);
}

proof fn lemma_d2_of_pad(s: Seq<char>, i: int, n: int)
    requires
        0 <= n < 100,
        0 <= i,
        i + 2 <= s.len(),
        s[i] == pad(n, 2)[0],
        s[i + 1] == pad(n, 2)[1],
    ensures
        d2(s, i) == n,
{
    reveal_with_fuel(pow10, 3);
    reveal_with_fuel(digits_val, 4);
    lemma_pad_props(n, 2);
    let p2 = pad(n, 2);
    assert(digits_val(p2) == n);
    assert(p2.drop_last() =~= p2.take(1));
    assert(p2.take(1).drop_last() =~= Seq::<char>::empty());
    assert(p2.last() == p2[1]);
    assert(p2.take(1).last() == p2[0]);
    assert(digits_val(p2.take(1)) == digit_of(p2[0]));
    assert(digits_val(p2) == 10 * digit_of(p2[0]) + digit_of(p2[1]));
}

proof fn lemma_digits_val_4(p4: Seq<char>)
    requires
        p4.len() == 4,
    ensures
        digits_val(p4) == 1000 * digit_of(p4[0]) + 100 * digit_of(p4[1]) + 10 * digit_of(p4[2])
            + digit_of(p4[3]),
{
    reveal_with_fuel(digits_val, 6);
    assert(p4.drop_last() =~= p4.take(3));
    assert(p4.take(3).drop_last() =~= p4.take(2));
    assert(p4.take(2).drop_last() =~= p4.take(1));
    assert(p4.take(1).drop_last() =~= Seq::<char>::empty());
    assert(p4.last() == p4[3]);
    assert(p4.take(3).last() == p4[2]);
    assert(p4.take(2).last() == p4[1]);
    assert(p4.take(1).last() == p4[0]);
}

/// A digit string's value is below the power of ten of its width.
pub proof fn lemma_digits_val_bound(s: Seq<char>)
    requires
        crate::text::all_digits(s),
    ensures
        0 <= digits_val(s) < pow10(s.len() as int),
    decreases s.len(),
{
    if s.len() == 0 {
        assert(pow10(0) == 1);
    } else {
        assert(crate::text::all_digits(s.drop_last()));
        lemma_digits_val_bound(s.drop_last());
        assert(pow10(s.len() as int) == 10 * pow10(s.len() - 1));
    }
}

/// Every digit up to `digits_end` is a digit.
pub proof fn lemma_digits_end_digits(s: Seq<char>, i: int)
    requires
        0 <= i <= s.len(),
    ensures
        forall|m: int| i <= m < digits_end(s, i) ==> is_digit(#[trigger] s[m]),
        i <= digits_end(s, i) <= s.len(),
    decreases s.len() - i,
{
    if i < s.len() && is_digit(s[i]) {
        lemma_digits_end_digits(s, i + 1);
    }
}

/// Normalizing in-range fields with a bounded offset gives a valid
/// instant whenever it gives one at all.
pub proof fn lemma_time_normalize_wf(
    y: int,
    mo: int,
    da: int,
    hh: int,
    mi: int,
    ss: int,
    ns: int,
    off: int,
)
    requires
        0 <= y <= 9999,
        1 <= mo <= 12,
        1 <= da <= days_in_month(y, mo),
        0 <= hh <= 23,
        0 <= mi <= 59,
        0 <= ss <= 59,
        0 <= ns < 1_000_000_000,
        -1439 <= off <= 1439,
    ensures
        time_normalize(y, mo, da, hh, mi, ss, ns, off) matches Some(t) ==> time_wf(t),
{
    let tod = hh * 60 + mi - off;
    if tod < 0 {
        vstd::arithmetic::div_mod::lemma_fundamental_div_mod(tod + 1440, 60);
    } else if tod >= 1440 {
        vstd::arithmetic::div_mod::lemma_fundamental_div_mod(tod - 1440, 60);
    } else {
        vstd::arithmetic::div_mod::lemma_fundamental_div_mod(tod, 60);
    }
}

/// Whatever the date-time grammar accepts is a valid instant.
pub proof fn lemma_time_parse_wf(s: Seq<char>)
    ensures
        time_parse(s) matches Some(t) ==> time_wf(t),
{
    reveal_with_fuel(pow10, 11);
    if s.len() >= 16 && digits_at(s, 0, 4) && s[4] == '-' && digits_at(s, 5, 2) && s[7] == '-'
        && digits_at(s, 8, 2) && s[10] == 'T' && digits_at(s, 11, 2) && s[13] == ':' && digits_at(
        s,
        14,
        2,
    ) {
        let y = d4(s, 0);
        let mo = d2(s, 5);
        let da = d2(s, 8);
        let hh = d2(s, 11);
        let mi = d2(s, 14);
        if 1 <= mo <= 12 && 1 <= da <= days_in_month(y, mo) && hh <= 23 && mi <= 59 {
            assert(0 <= y <= 9999);
            lemma_time_tail_wf(s, 16, y, mo, da, hh, mi);
        }
    }
}

proof fn lemma_time_tail_wf(s: Seq<char>, p: int, y: int, mo: int, da: int, hh: int, mi: int)
    requires
        0 <= p,
        0 <= y <= 9999,
        1 <= mo <= 12,
        1 <= da <= days_in_month(y, mo),
        0 <= hh <= 23,
        0 <= mi <= 59,
    ensures
        time_parse_tail(s, p, y, mo, da, hh, mi) matches Some(t) ==> time_wf(t),
{
    reveal_with_fuel(pow10, 11);
    if p < s.len() && s[p] == ':' {
        if p + 3 <= s.len() && digits_at(s, p + 1, 2) {
            let ss = d2(s, p + 1);
            if ss <= 59 {
                if p + 3 < s.len() && s[p + 3] == '.' {
                    let q = digits_end(s, p + 4);
                    let cnt = q - (p + 4);
                    if 1 <= cnt <= 9 {
                        let frac = s.subrange(p + 4, q);
                        lemma_digits_end_digits(s, p + 4);
                        assert(crate::text::all_digits(frac)) by {
                            assert(forall|m: int|
                                0 <= m < frac.len() ==> frac[m] == s[m + (p + 4)]);
                        }
                        lemma_digits_val_bound(frac);
                        lemma_pow10_mul_bound(digits_val(frac), cnt);
                        let ns = digits_val(frac) * pow10(9 - cnt);
                        assert(0 <= ns < 1_000_000_000);
                        lemma_time_finish_wf(s, q, y, mo, da, hh, mi, ss, ns);
                    }
                } else {
                    lemma_time_finish_wf(s, p + 3, y, mo, da, hh, mi, ss, 0);
                }
            }
        }
    } else {
        lemma_time_finish_wf(s, p, y, mo, da, hh, mi, 0, 0);
    }
}

proof fn lemma_time_finish_wf(
    s: Seq<char>,
    p: int,
    y: int,
    mo: int,
    da: int,
    hh: int,
    mi: int,
    ss: int,
    ns: int,
)
    requires
        0 <= p,
        0 <= y <= 9999,
        1 <= mo <= 12,
        1 <= da <= days_in_month(y, mo),
        0 <= hh <= 23,
        0 <= mi <= 59,
        0 <= ss <= 59,
        0 <= ns < 1_000_000_000,
    ensures
        time_finish(s, p, y, mo, da, hh, mi, ss, ns) matches Some(t) ==> time_wf(t),
{
    if p == s.len() || (p + 1 == s.len() && s[p] == 'Z') {
        lemma_time_normalize_wf(y, mo, da, hh, mi, ss, ns, 0);
    } else if p + 6 == s.len() && (s[p] == '+' || s[p] == '-') && digits_at(s, p + 1, 2) && s[p
        + 3] == ':' && digits_at(s, p + 4, 2) {
        let oh = d2(s, p + 1);
        let om = d2(s, p + 4);
        if oh <= 23 && om <= 59 {
            assert(0 <= oh && 0 <= om);
            let off = if s[p] == '-' {
                -(oh * 60 + om)
            } else {
                oh * 60 + om
            };
            lemma_time_normalize_wf(y, mo, da, hh, mi, ss, ns, off);
        }
    }
}

/// Renders `n` zero-padded to `k` digits, per `pad`.
fn format_padded(n: u64, k: usize) -> (r: String)
    ensures
        r@ == pad(n as int, k as int),
    decreases k,
{
    if k == 0 {
        String::new()
    } else {
        let mut r = format_padded(n / 10, k - 1);
        r.append(digit_str((n % 10) as u8));
        proof {
            assert(r@ =~= pad(n as int, k as int));
        }
        r
    }
}

} // verus!
