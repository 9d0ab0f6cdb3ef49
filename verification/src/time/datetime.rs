//! Calendar dates and times of the console clock.
use vstd::prelude::*;
use vstd::std_specs::cmp::PartialOrdSpecImpl;
use vstd::std_specs::convert::FromSpecImpl;
use core::cmp::Ordering;

use crate::text::string_push;

verus! {

/// The calendar time that the system reports, field by field.
#[derive(Debug, Clone, Copy, PartialEq, Eq, Structural)]
pub struct CalendarTime {
    pub tm_sec: i32,
    pub tm_min: i32,
    pub tm_hour: i32,
    pub tm_mday: i32,
    pub tm_mon: i32,
    pub tm_year: i32,
    pub tm_wday: i32,
    pub tm_yday: i32,
    pub tm_msec: i32,
    pub tm_usec: i32,
}

/// A local date and time of the console; no time zone and no leap seconds.
#[derive(Debug, Clone, Copy, PartialEq, Eq, Structural)]
pub struct DateTime {
    /// Seconds after the minute, 0 to 59.
    pub sec: i32,
    /// Minutes after the hour, 0 to 59.
    pub min: i32,
    /// Hours since midnight, 0 to 23.
    pub hour: i32,
    /// Day of the month, 1 to 31.
    pub day: i32,
    /// Months since January, 0 to 11.
    pub month: i32,
    /// The year AD, from 1.
    pub year: i32,
    /// Days since Sunday, 0 to 6.
    pub weekday: i32,
    /// Days since January 1, 0 to 365.
    pub yearday: i32,
    /// Milliseconds after the second, 0 to 999.
    pub millisec: i32,
    /// Microseconds after the millisecond, 0 to 999.
    pub microsec: i32,
}

/// The date and time that a calendar time stands for.
pub open spec fn date_of(c: CalendarTime) -> DateTime {
    DateTime {
        sec: c.tm_sec,
        min: c.tm_min,
        hour: c.tm_hour,
        day: c.tm_mday,
        month: c.tm_mon,
        year: c.tm_year,
        weekday: c.tm_wday,
        yearday: c.tm_yday,
        millisec: c.tm_msec,
        microsec: c.tm_usec,
    }
}

impl Default for DateTime {
    /// Midnight of January 1st of year 1, a Sunday.
    fn default() -> (r: DateTime)
        ensures
            r == (DateTime {
                sec: 0,
                min: 0,
                hour: 0,
                day: 1,
                month: 0,
                year: 1,
                weekday: 0,
                yearday: 0,
                millisec: 0,
                microsec: 0,
            }),
    {
        DateTime {
            sec: 0,
            min: 0,
            hour: 0,
            day: 1,
            month: 0,
            year: 1,
            weekday: 0,
            yearday: 0,
            millisec: 0,
            microsec: 0,
        }
    }
}

impl From<CalendarTime> for DateTime {
    /// The date and time of a calendar time.
    fn from(c: CalendarTime) -> (r: DateTime) {
        DateTime {
            sec: c.tm_sec,
            min: c.tm_min,
            hour: c.tm_hour,
            day: c.tm_mday,
            month: c.tm_mon,
            year: c.tm_year,
            weekday: c.tm_wday,
            yearday: c.tm_yday,
            millisec: c.tm_msec,
            microsec: c.tm_usec,
        }
    }
}

impl FromSpecImpl<CalendarTime> for DateTime {
    open spec fn obeys_from_spec() -> bool {
        true
    }

    open spec fn from_spec(c: CalendarTime) -> DateTime {
        date_of(c)
    }
}

/// What dates are ordered by: year, month, day, hour, minute, second, millisecond and
/// microsecond, in that order of weight; the weekday and the day of the year play no part.
pub open spec fn date_key(d: DateTime) -> Seq<int> {
    seq![
        d.year as int,
        d.month as int,
        d.day as int,
        d.hour as int,
        d.min as int,
        d.sec as int,
        d.millisec as int,
        d.microsec as int,
    ]
}

/// The lexicographic order of two sequences of numbers of the same length, from `i` on.
pub open spec fn order_from(a: Seq<int>, b: Seq<int>, i: int) -> Ordering
    decreases a.len() - i,
{
    if i >= a.len() || i >= b.len() {
        Ordering::Equal
    } else if a[i] < b[i] {
        Ordering::Less
    } else if a[i] > b[i] {
        Ordering::Greater
    } else {
        order_from(a, b, i + 1)
    }
}

/// How two dates compare, see [`date_key`].
pub open spec fn date_order(a: DateTime, b: DateTime) -> Ordering {
    order_from(date_key(a), date_key(b), 0)
}

/// Dates are ordered both ways alike, and two dates compare equal exactly when they agree
/// on the fields that order them.
pub proof fn law_date_order(a: DateTime, b: DateTime)
    ensures
        (date_order(a, b) == Ordering::Less) == (date_order(b, a) == Ordering::Greater),
        (date_order(a, b) == Ordering::Equal) == (date_key(a) == date_key(b)),
{
    reveal_with_fuel(order_from, 9);
    if date_order(a, b) == Ordering::Equal {
        assert(date_key(a) =~= date_key(b));
    }
}

/// Dates compare by year first; between dates of the same year by month, whatever their
/// days; then by day, hour, minute, second, millisecond and microsecond in turn; dates that
/// agree on all of these compare equal.
pub proof fn law_date_fields_order(a: DateTime, b: DateTime)
    ensures
        a.year < b.year ==> date_order(a, b) == Ordering::Less,
        a.year > b.year ==> date_order(a, b) == Ordering::Greater,
        ({
            &&& a.year == b.year
            &&& a.month < b.month
        }) ==> date_order(a, b) == Ordering::Less,
        ({
            &&& a.year == b.year
            &&& a.month > b.month
        }) ==> date_order(a, b) == Ordering::Greater,
        ({
            &&& a.year == b.year
            &&& a.month == b.month
            &&& a.day < b.day
        }) ==> date_order(a, b) == Ordering::Less,
        ({
            &&& a.year == b.year
            &&& a.month == b.month
            &&& a.day > b.day
        }) ==> date_order(a, b) == Ordering::Greater,
        ({
            &&& a.year == b.year
            &&& a.month == b.month
            &&& a.day == b.day
            &&& a.hour < b.hour
        }) ==> date_order(a, b) == Ordering::Less,
        ({
            &&& a.year == b.year
            &&& a.month == b.month
            &&& a.day == b.day
            &&& a.hour > b.hour
        }) ==> date_order(a, b) == Ordering::Greater,
        ({
            &&& a.year == b.year
            &&& a.month == b.month
            &&& a.day == b.day
            &&& a.hour == b.hour
            &&& a.min < b.min
        }) ==> date_order(a, b) == Ordering::Less,
        ({
            &&& a.year == b.year
            &&& a.month == b.month
            &&& a.day == b.day
            &&& a.hour == b.hour
            &&& a.min > b.min
        }) ==> date_order(a, b) == Ordering::Greater,
        ({
            &&& a.year == b.year
            &&& a.month == b.month
            &&& a.day == b.day
            &&& a.hour == b.hour
            &&& a.min == b.min
            &&& a.sec < b.sec
        }) ==> date_order(a, b) == Ordering::Less,
        ({
            &&& a.year == b.year
            &&& a.month == b.month
            &&& a.day == b.day
            &&& a.hour == b.hour
            &&& a.min == b.min
            &&& a.sec > b.sec
        }) ==> date_order(a, b) == Ordering::Greater,
        ({
            &&& a.year == b.year
            &&& a.month == b.month
            &&& a.day == b.day
            &&& a.hour == b.hour
            &&& a.min == b.min
            &&& a.sec == b.sec
            &&& a.millisec < b.millisec
        }) ==> date_order(a, b) == Ordering::Less,
        ({
            &&& a.year == b.year
            &&& a.month == b.month
            &&& a.day == b.day
            &&& a.hour == b.hour
            &&& a.min == b.min
            &&& a.sec == b.sec
            &&& a.millisec > b.millisec
        }) ==> date_order(a, b) == Ordering::Greater,
        ({
            &&& a.year == b.year
            &&& a.month == b.month
            &&& a.day == b.day
            &&& a.hour == b.hour
            &&& a.min == b.min
            &&& a.sec == b.sec
            &&& a.millisec == b.millisec
            &&& a.microsec < b.microsec
        }) ==> date_order(a, b) == Ordering::Less,
        ({
            &&& a.year == b.year
            &&& a.month == b.month
            &&& a.day == b.day
            &&& a.hour == b.hour
            &&& a.min == b.min
            &&& a.sec == b.sec
            &&& a.millisec == b.millisec
            &&& a.microsec > b.microsec
        }) ==> date_order(a, b) == Ordering::Greater,
        ({
            &&& a.year == b.year
            &&& a.month == b.month
            &&& a.day == b.day
            &&& a.hour == b.hour
            &&& a.min == b.min
            &&& a.sec == b.sec
            &&& a.millisec == b.millisec
            &&& a.microsec == b.microsec
        }) ==> date_order(a, b) == Ordering::Equal,
{
    reveal_with_fuel(order_from, 9);
}

/// How two numbers compare.
fn compare_i32(a: i32, b: i32) -> (r: Ordering)
    ensures
        r == (if a < b {
            Ordering::Less
        } else if a > b {
            Ordering::Greater
        } else {
            Ordering::Equal
        }),
{
    if a < b {
        Ordering::Less
    } else if a > b {
        Ordering::Greater
    } else {
        Ordering::Equal
    }
}

impl DateTime {
    /// How `self` compares with `other`: by year, then month, day, hour, minute, second,
    /// millisecond and microsecond.
    pub fn cmp(&self, other: &DateTime) -> (r: Ordering)
        ensures
            r == date_order(*self, *other),
    {
        proof {
            reveal_with_fuel(order_from, 9);
        }
        let pairs = [
            (self.year, other.year),
            (self.month, other.month),
            (self.day, other.day),
            (self.hour, other.hour),
            (self.min, other.min),
            (self.sec, other.sec),
            (self.millisec, other.millisec),
            (self.microsec, other.microsec),
        ];
        match compare_i32(pairs[0].0, pairs[0].1) {
            Ordering::Equal => {},
            c => return c,
        }
        match compare_i32(pairs[1].0, pairs[1].1) {
            Ordering::Equal => {},
            c => return c,
        }
        match compare_i32(pairs[2].0, pairs[2].1) {
            Ordering::Equal => {},
            c => return c,
        }
        match compare_i32(pairs[3].0, pairs[3].1) {
            Ordering::Equal => {},
            c => return c,
        }
        match compare_i32(pairs[4].0, pairs[4].1) {
            Ordering::Equal => {},
            c => return c,
        }
        match compare_i32(pairs[5].0, pairs[5].1) {
            Ordering::Equal => {},
            c => return c,
        }
        match compare_i32(pairs[6].0, pairs[6].1) {
            Ordering::Equal => {},
            c => return c,
        }
        compare_i32(pairs[7].0, pairs[7].1)
    }

    /// The date and time as `YYYY/MM/DD hh:mm:ss`, each field padded with zeros (the month
    /// counted from 1).
    pub fn to_string(&self) -> (r: String)
        requires
            self.month < i32::MAX,
        ensures
            r@ == padded(self.year as int, 4) + seq!['/'] + padded(self.month + 1, 2) + seq!['/']
                + padded(self.day as int, 2) + seq![' '] + padded(self.hour as int, 2) + seq![':']
                + padded(self.min as int, 2) + seq![':'] + padded(self.sec as int, 2),
    {
        let slash = "/";
        let space = " ";
        let colon = ":";
        proof {
            reveal_strlit("/");
            reveal_strlit(" ");
            reveal_strlit(":");
        }
        let mut s = String::new();
        s.append(pad_decimal(self.year, 4).as_str());
        s.append(slash);
        s.append(pad_decimal(self.month + 1, 2).as_str());
        s.append(slash);
        s.append(pad_decimal(self.day, 2).as_str());
        s.append(space);
        s.append(pad_decimal(self.hour, 2).as_str());
        s.append(colon);
        s.append(pad_decimal(self.min, 2).as_str());
        s.append(colon);
        s.append(pad_decimal(self.sec, 2).as_str());
        s
    }
}

/// The decimal digits of `n`, most significant first; `0` for zero.
pub open spec fn digits(n: nat) -> Seq<char>
    decreases n,
{
    if n < 10 {
        seq![digit_char(n)]
    } else {
        digits(n / 10).push(digit_char(n % 10))
    }
}

/// The character of a decimal digit.
pub open spec fn digit_char(d: nat) -> char {
    if d == 0 {
        '0'
    } else if d == 1 {
        '1'
    } else if d == 2 {
        '2'
    } else if d == 3 {
        '3'
    } else if d == 4 {
        '4'
    } else if d == 5 {
        '5'
    } else if d == 6 {
        '6'
    } else if d == 7 {
        '7'
    } else if d == 8 {
        '8'
    } else {
        '9'
    }
}

/// `k` zeros.
pub open spec fn zeros(k: int) -> Seq<char> {
    Seq::new(if k > 0 { k as nat } else { 0 }, |i: int| '0')
}

/// `v` in decimal, padded with zeros after the sign to at least `width` characters.
pub open spec fn padded(v: int, width: int) -> Seq<char> {
    if v < 0 {
        seq!['-'] + zeros(width - 1 - digits((-v) as nat).len()) + digits((-v) as nat)
    } else {
        zeros(width - digits(v as nat).len()) + digits(v as nat)
    }
}

/// `10` to the power `k`.
pub open spec fn pow10(k: nat) -> nat
    decreases k,
{
    if k == 0 {
        1
    } else {
        10 * pow10((k - 1) as nat)
    }
}

/// A number below `10^k` has at most `k` digits.
proof fn lemma_digits_len(n: nat, k: nat)
    requires
        1 <= k,
        n < pow10(k),
    ensures
        1 <= digits(n).len() <= k,
    decreases k,
{
    if n >= 10 {
        let p = pow10((k - 1) as nat);
        assert(n / 10 < p) by (nonlinear_arith)
            requires
                n < 10 * p,
        ;
        if k == 1 {
            assert(pow10(1) == 10 * pow10(0));
        }
        lemma_digits_len(n / 10, (k - 1) as nat);
    }
}

/// The character of a decimal digit, see [`digit_char`].
fn digit_char_exec(d: u64) -> (r: char)
    requires
        d < 10,
    ensures
        r == digit_char(d as nat),
{
    if d == 0 {
        '0'
    } else if d == 1 {
        '1'
    } else if d == 2 {
        '2'
    } else if d == 3 {
        '3'
    } else if d == 4 {
        '4'
    } else if d == 5 {
        '5'
    } else if d == 6 {
        '6'
    } else if d == 7 {
        '7'
    } else if d == 8 {
        '8'
    } else {
        '9'
    }
}

/// `v` in decimal, padded with zeros after the sign to at least `width` characters.
fn pad_decimal(v: i32, width: usize) -> (r: String)
    ensures
        r@ == padded(v as int, width as int),
{
    let neg = v < 0;
    let mut n: u64 = if neg {
        (-(v as i64)) as u64
    } else {
        v as u64
    };
    let ghost m = n as nat;
    // digits from the least significant on
    let mut rev: Vec<char> = Vec::new();
    loop
        invariant_except_break
            n <= m,
            m < 0x1_0000_0000,
            digits(m) == digits(n as nat) + rev@.reverse(),
        ensures
            digits(m) == rev@.reverse(),
        decreases n,
    {
        let d = n % 10;
        let c = digit_char_exec(d);
        proof {
            if n >= 10 {
                assert(digits(n as nat) == digits((n / 10) as nat).push(c));
            } else {
                assert(digits(n as nat) == seq![c]);
            }
        }
        let ghost old_rev = rev@;
        rev.push(c);
        proof {
            assert(rev@.reverse() =~= seq![c] + old_rev.reverse());
        }
        if n < 10 {
            proof {
                assert(digits(m) =~= seq![c] + old_rev.reverse());
            }
            break;
        }
        proof {
            assert(digits((n / 10) as nat).push(c) + old_rev.reverse() =~= digits((n / 10) as nat)
                + rev@.reverse());
        }
        n = n / 10;
    }
    let ghost ds = digits(m);
    assert(ds == rev@.reverse());
    proof {
        assert(pow10(10) == 10_000_000_000) by {
            reveal_with_fuel(pow10, 11);
        }
        lemma_digits_len(m, 10);
    }
    let mut out = String::new();
    if neg {
        string_push(&mut out, '-');
    }
    let lead: usize = if neg { 1 } else { 0 };
    let len = rev.len();
    let mut k: usize = lead + len;
    proof {
        assert(out@ =~= (if neg { seq!['-'] } else { seq![] }) + zeros(k - lead - len));
    }
    while k < width
        invariant
            lead + len <= k,
            k <= width || k == lead + len,
            out@ == (if neg { seq!['-'] } else { seq![] }) + zeros(k - lead - len),
        decreases width - k,
    {
        string_push(&mut out, '0');
        proof {
            assert(zeros(k + 1 - lead - len) =~= zeros(k - lead - len).push('0'));
        }
        k = k + 1;
    }
    let ghost before = out@;
    let mut j: usize = len;
    while j > 0
        invariant
            j <= len,
            len == rev@.len(),
            out@ == before + rev@.reverse().take(len - j),
        decreases j,
    {
        j = j - 1;
        string_push(&mut out, rev[j]);
        proof {
            assert(rev@.reverse().take(len - j) =~= rev@.reverse().take(len - j - 1).push(
                rev@[j as int],
            ));
        }
    }
    proof {
        assert(rev@.reverse().take(len as int) =~= ds);
        assert(zeros(k - lead - len) =~= zeros(width - lead - len));
    }
    out
}

impl PartialOrd for DateTime {
    /// Dates are always comparable, see [`DateTime::cmp`].
    fn partial_cmp(&self, other: &DateTime) -> (r: Option<Ordering>) {
        Some(self.cmp(other))
    }
}

impl PartialOrdSpecImpl for DateTime {
    open spec fn obeys_partial_cmp_spec() -> bool {
        true
    }

    open spec fn partial_cmp_spec(&self, other: &DateTime) -> Option<Ordering> {
        Some(date_order(*self, *other))
    }
}

} // verus!
