//! Calendar timestamps and their `DD-MM-YYYY HH:MM:SS` text.
use vstd::prelude::*;
use chrono::{Datelike, Timelike};
use crate::handle::{no_nul, TerminatedString};

verus! {

/// The earliest year that chrono's calendar dates reach.
pub const MIN_YEAR: i32 = -262143;

/// The latest year that chrono's calendar dates reach.
pub const MAX_YEAR: i32 = 262142;

/// A moment in Coordinated Universal Time, as calendar fields.
pub struct Timestamp {
    pub year: i32,
    /// 1 to 12.
    pub month: u32,
    /// 1 to the length of the month.
    pub day: u32,
    /// 0 to 23.
    pub hour: u32,
    /// 0 to 59.
    pub minute: u32,
    /// 0 to 59.
    pub second: u32,
}

/// Leap years of the proleptic Gregorian calendar.
pub open spec fn is_leap_year(y: int) -> bool {
    y % 4 == 0 && (y % 100 != 0 || y % 400 == 0)
}

/// The number of days in month `m` of year `y`.
pub open spec fn days_in_month(y: int, m: int) -> int {
    if m == 2 {
        if is_leap_year(y) {
            29
        } else {
            28
        }
    } else if m == 4 || m == 6 || m == 9 || m == 11 {
        30
    } else {
        31
    }
}

impl Timestamp {
    /// The fields name a real date and time of day in chrono's range of years.
    pub open spec fn wf(&self) -> bool {
        &&& MIN_YEAR <= self.year <= MAX_YEAR
        &&& 1 <= self.month <= 12
        &&& 1 <= self.day <= days_in_month(self.year as int, self.month as int)
        &&& self.hour < 24
        &&& self.minute < 60
        &&& self.second < 60
    }
}

/// The ASCII byte of decimal digit `d`.
pub open spec fn digit(d: int) -> u8 {
    (48 + d) as u8
}

/// The decimal digits of `n`, padded with leading zeros to at least `width`.
pub open spec fn decimal(n: nat, width: nat) -> Seq<u8>
    decreases n, width,
{
    if n < 10 && width <= 1 {
        seq![digit(n as int)]
    } else {
        let rest: nat = if width > 0 {
            (width - 1) as nat
        } else {
            0
        };
        decimal(n / 10, rest) + seq![digit((n % 10) as int)]
    }
}

/// A year as four digits from 0 to 9999; outside that range a sign comes
/// first and at least four digits follow.
pub open spec fn year_text(y: int) -> Seq<u8> {
    if 0 <= y <= 9999 {
        decimal(y as nat, 4)
    } else if y > 9999 {
        seq![43u8] + decimal(y as nat, 4)
    } else {
        seq![45u8] + decimal((-y) as nat, 4)
    }
}

/// The text of `t`: day, month, year joined by `-`, a space, then hour,
/// minute, second joined by `:`.
pub open spec fn timestamp_text(t: Timestamp) -> Seq<u8> {
    decimal(t.day as nat, 2) + seq![45u8] + decimal(t.month as nat, 2) + seq![45u8]
        + year_text(t.year as int) + seq![32u8] + decimal(t.hour as nat, 2) + seq![58u8]
        + decimal(t.minute as nat, 2) + seq![58u8] + decimal(t.second as nat, 2)
}

/// Relies on chrono's `Utc::now` for the current moment, read through its
/// `Datelike` and `Timelike` accessors: a chrono date is always a real calendar
/// date within chrono's years, the hour is below 24, the minute below 60, and
/// `second` below 60 (chrono keeps a leap second in the nanoseconds, and a
/// moment taken from the system clock has none). `Utc::now` panics when the
/// system clock reads a time before 1970.
#[verifier::external_body]
fn clock_now() -> (r: Timestamp)
    ensures
        r.wf(),
{
    let now = chrono::Utc::now();
    Timestamp {
        year: now.year(),
        month: now.month(),
        day: now.day(),
        hour: now.hour(),
        minute: now.minute(),
        second: now.second(),
    }
}

/// Relies on chrono's `NaiveDateTime::format` with the pattern
/// `%d-%m-%Y %H:%M:%S`: `%d`, `%m`, `%H`, `%M`, `%S` write two zero-padded
/// digits, and `%Y` four zero-padded digits for years 0 to 9999 and a sign
/// with at least four digits otherwise. Building the chrono value succeeds
/// because `t` is a real date and time of day within chrono's years.
#[verifier::external_body]
fn chrono_text(t: &Timestamp) -> (r: Vec<u8>)
    requires
        t.wf(),
    ensures
        r@ == timestamp_text(*t),
{
    let date = chrono::NaiveDate::from_ymd_opt(t.year, t.month, t.day).expect("valid date");
    let moment = date.and_hms_opt(t.hour, t.minute, t.second).expect("valid time");
    moment.format("%d-%m-%Y %H:%M:%S").to_string().into_bytes()
}

proof fn lemma_decimal_bytes(n: nat, width: nat)
    ensures
        decimal(n, width).len() <= n + width + 1,
        forall|i: int|
            0 <= i < decimal(n, width).len() ==> 48 <= #[trigger] decimal(n, width)[i] <= 57,
    decreases n, width,
{
    if n < 10 && width <= 1 {
    } else {
        let rest: nat = if width > 0 {
            (width - 1) as nat
        } else {
            0
        };
        lemma_decimal_bytes(n / 10, rest);
        let a = decimal(n / 10, rest);
        let d = decimal(n, width);
        assert(d == a + seq![digit((n % 10) as int)]);
        assert forall|i: int| 0 <= i < d.len() implies 48 <= #[trigger] d[i] <= 57 by {
            if i < a.len() {
                assert(d[i] == a[i]);
            }
        }
    }
}

proof fn lemma_timestamp_text_bytes(t: Timestamp)
    requires
        t.wf(),
    ensures
        no_nul(timestamp_text(t)),
        timestamp_text(t).len() < 1000000,
{
    lemma_decimal_bytes(t.day as nat, 2);
    lemma_decimal_bytes(t.month as nat, 2);
    lemma_decimal_bytes(t.hour as nat, 2);
    lemma_decimal_bytes(t.minute as nat, 2);
    lemma_decimal_bytes(t.second as nat, 2);
    let y = t.year as int;
    let ay: nat = if y < 0 {
        (-y) as nat
    } else {
        y as nat
    };
    lemma_decimal_bytes(ay, 4);
    let yt = year_text(y);
    assert(forall|i: int| 0 <= i < yt.len() ==> #[trigger] yt[i] != 0u8) by {
        assert forall|i: int| 0 <= i < yt.len() implies #[trigger] yt[i] != 0u8 by {
            if 0 <= y <= 9999 {
                assert(yt[i] == decimal(ay, 4)[i]);
            } else if i > 0 {
                assert(yt[i] == decimal(ay, 4)[i - 1]);
            }
        }
    }
    let s = timestamp_text(t);
    assert forall|i: int| 0 <= i < s.len() implies #[trigger] s[i] != 0u8 by {
        let p0 = decimal(t.day as nat, 2);
        let p1 = decimal(t.month as nat, 2);
        let p2 = decimal(t.hour as nat, 2);
        let p3 = decimal(t.minute as nat, 2);
        let p4 = decimal(t.second as nat, 2);
        let l0 = p0.len() as int;
        let l1 = l0 + 1 + p1.len();
        let l2 = l1 + 1 + yt.len();
        let l3 = l2 + 1 + p2.len();
        let l4 = l3 + 1 + p3.len();
        if i < l0 {
            assert(s[i] == p0[i]);
        } else if i == l0 {
        } else if i < l1 {
            assert(s[i] == p1[i - l0 - 1]);
        } else if i == l1 {
        } else if i < l2 {
            assert(s[i] == yt[i - l1 - 1]);
        } else if i == l2 {
        } else if i < l3 {
            assert(s[i] == p2[i - l2 - 1]);
        } else if i == l3 {
        } else if i < l4 {
            assert(s[i] == p3[i - l3 - 1]);
        } else if i == l4 {
        } else {
            assert(s[i] == p4[i - l4 - 1]);
        }
    }
}

/// Whether `b` is an ASCII decimal digit.
pub open spec fn is_digit(b: u8) -> bool {
    48 <= b <= 57
}

/// The number that the `len` digits of `s` from `start` on write.
pub open spec fn number_at(s: Seq<u8>, start: int, len: nat) -> int
    decreases len,
{
    if len == 0 {
        0
    } else {
        number_at(s, start, (len - 1) as nat) * 10 + (s[start + len - 1] - 48)
    }
}

/// `s` is laid out as `DD-MM-YYYY HH:MM:SS`: nineteen bytes, digits but for
/// the two hyphens, the space and the two colons.
pub open spec fn has_timestamp_layout(s: Seq<u8>) -> bool {
    &&& s.len() == 19
    &&& s[2] == 45u8
    &&& s[5] == 45u8
    &&& s[10] == 32u8
    &&& s[13] == 58u8
    &&& s[16] == 58u8
    &&& forall|i: int|
        0 <= i < 19 && i != 2 && i != 5 && i != 10 && i != 13 && i != 16 ==> is_digit(
            #[trigger] s[i],
        )
}

proof fn lemma_two_digits(n: nat)
    requires
        n < 100,
    ensures
        decimal(n, 2) == seq![digit((n / 10) as int), digit((n % 10) as int)],
{
    assert(decimal(n / 10, 1) == seq![digit((n / 10) as int)]);
    assert(decimal(n, 2) =~= seq![digit((n / 10) as int), digit((n % 10) as int)]);
}

proof fn lemma_four_digits(n: nat)
    requires
        n < 10000,
    ensures
        decimal(n, 4) == seq![
            digit((n / 1000) as int),
            digit(((n / 100) % 10) as int),
            digit(((n / 10) % 10) as int),
            digit((n % 10) as int),
        ],
{
    let q: nat = n / 10;
    lemma_two_digits(q / 10);
    assert(decimal(q, 3) == decimal(q / 10, 2) + seq![digit((q % 10) as int)]);
    assert(decimal(n, 4) == decimal(q, 3) + seq![digit((n % 10) as int)]);
    assert(q / 10 == n / 100);
    assert((q / 10) / 10 == n / 1000);
    assert(decimal(n, 4) =~= seq![
        digit((n / 1000) as int),
        digit(((n / 100) % 10) as int),
        digit(((n / 10) % 10) as int),
        digit((n % 10) as int),
    ]);
}

/// For a year from 0 to 9999 the text of a timestamp has the layout
/// `DD-MM-YYYY HH:MM:SS`, each field zero-padded, and each field of the text
/// reads back as the value it was written from.
pub proof fn lemma_timestamp_layout(t: Timestamp)
    requires
        t.wf(),
        0 <= t.year <= 9999,
    ensures
        has_timestamp_layout(timestamp_text(t)),
        number_at(timestamp_text(t), 0, 2) == t.day,
        number_at(timestamp_text(t), 3, 2) == t.month,
        number_at(timestamp_text(t), 6, 4) == t.year,
        number_at(timestamp_text(t), 11, 2) == t.hour,
        number_at(timestamp_text(t), 14, 2) == t.minute,
        number_at(timestamp_text(t), 17, 2) == t.second,
{
    let d = t.day as nat;
    let mo = t.month as nat;
    let y = t.year as nat;
    let h = t.hour as nat;
    let mi = t.minute as nat;
    let se = t.second as nat;
    lemma_two_digits(d);
    lemma_two_digits(mo);
    lemma_four_digits(y);
    lemma_two_digits(h);
    lemma_two_digits(mi);
    lemma_two_digits(se);
    let s = timestamp_text(t);
    assert(s =~= seq![
        digit((d / 10) as int), digit((d % 10) as int), 45u8,
        digit((mo / 10) as int), digit((mo % 10) as int), 45u8,
        digit((y / 1000) as int), digit(((y / 100) % 10) as int),
        digit(((y / 10) % 10) as int), digit((y % 10) as int), 32u8,
        digit((h / 10) as int), digit((h % 10) as int), 58u8,
        digit((mi / 10) as int), digit((mi % 10) as int), 58u8,
        digit((se / 10) as int), digit((se % 10) as int),
    ]);
    reveal_with_fuel(number_at, 5);
    assert(number_at(s, 6, 4) == ((y / 1000 * 10 + (y / 100) % 10) * 10 + (y / 10) % 10) * 10 + y % 10);
    assert(((y / 1000 * 10 + (y / 100) % 10) * 10 + (y / 10) % 10) * 10 + y % 10 == y) by {
        assert(y / 1000 * 10 + (y / 100) % 10 == y / 100);
        assert((y / 100) * 10 + (y / 10) % 10 == y / 10);
        assert((y / 10) * 10 + y % 10 == y);
    }
}

/// A new handle holding the text of `t`.
pub fn format_timestamp(t: &Timestamp) -> (r: TerminatedString)
    requires
        t.wf(),
    ensures
        r.wf(),
        r@ == timestamp_text(*t),
{
    let text = chrono_text(t);
    proof {
        lemma_timestamp_text_bytes(*t);
    }
    TerminatedString::from_content(text)
}

/// A new handle holding the text of the current moment in UTC.
pub fn current_timestamp() -> (r: TerminatedString)
    ensures
        r.wf(),
        exists|t: Timestamp| t.wf() && r@ == timestamp_text(t),
{
    let now = clock_now();
    let r = format_timestamp(&now);
    assert(now.wf() && r@ == timestamp_text(now));
    r
}

} // verus!
