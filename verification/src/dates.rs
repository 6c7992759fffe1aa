//! Calendar dates in the proleptic Gregorian calendar, years 1 to 9999.
//!
//! Due dates travel through the system as strings. A date string is
//! canonical when it reads `YYYY-MM-DD` with zero-padded fields; inputs
//! are accepted with 1 to 4 year digits and 1 to 2 month and day digits
//! and are re-emitted in the canonical form. Chronological comparison
//! goes through a day number, the count of days since the calendar's
//! origin, which orders dates exactly as the calendar does.

use vstd::prelude::*;

verus! {

/// A calendar date. Valid values are pinned by [`Date::valid`].
#[derive(Clone, Copy, Debug, PartialEq, Eq, Structural)]
pub struct Date {
    pub year: u32,
    pub month: u32,
    pub day: u32,
}

pub open spec fn is_leap_year(y: int) -> bool {
    (y % 4 == 0 && y % 100 != 0) || y % 400 == 0
}

pub open spec fn spec_days_in_month(y: int, m: int) -> int {
    if m == 2 {
        if is_leap_year(y) {
            29
        } else {
            28
        }
    } else if m == 4 || m == 6 || m == 9 || m == 11 {
        30
    } else {
        31
    }
}

impl Date {
    pub open spec fn valid(self) -> bool {
        &&& 1 <= self.year <= 9999
        &&& 1 <= self.month <= 12
        &&& 1 <= self.day <= spec_days_in_month(self.year as int, self.month as int)
    }

    /// Strict chronological order, i.e. lexicographic on (year, month, day).
    pub open spec fn spec_before(self, other: Date) -> bool {
        ||| self.year < other.year
        ||| (self.year == other.year && self.month < other.month)
        ||| (self.year == other.year && self.month == other.month && self.day < other.day)
    }
}

pub fn days_in_month(y: u32, m: u32) -> (r: u32)
    ensures
        r == spec_days_in_month(y as int, m as int),
{
    if m == 2 {
        if (y % 4 == 0 && y % 100 != 0) || y % 400 == 0 {
            29
        } else {
            28
        }
    } else if m == 4 || m == 6 || m == 9 || m == 11 {
        30
    } else {
        31
    }
}

/// Days in all years before year `y`, counted from year 1.
pub open spec fn spec_days_before_year(y: int) -> int
    decreases y,
{
    if y <= 1 {
        0
    } else {
        spec_days_before_year(y - 1) + if is_leap_year(y - 1) {
            366int
        } else {
            365int
        }
    }
}

/// Days in the months of year `y` that precede month `m`.
pub open spec fn spec_days_before_month(y: int, m: int) -> int
    decreases m,
{
    if m <= 1 {
        0
    } else {
        spec_days_before_month(y, m - 1) + spec_days_in_month(y, m - 1)
    }
}

/// Day number of a date: day 1 is the first of year 1. Two valid dates
/// compare chronologically exactly as their day numbers compare.
pub open spec fn spec_day_number(d: Date) -> int {
    spec_days_before_year(d.year as int) + spec_days_before_month(d.year as int, d.month as int)
        + d.day
}

pub proof fn lemma_days_before_year_bounds(y: int)
    requires
        1 <= y,
    ensures
        365 * (y - 1) <= spec_days_before_year(y) <= 366 * (y - 1),
    decreases y,
{
    if y > 1 {
        lemma_days_before_year_bounds(y - 1);
    }
}

pub proof fn lemma_days_before_month_bounds(y: int, m: int)
    requires
        1 <= m <= 13,
    ensures
        28 * (m - 1) <= spec_days_before_month(y, m) <= 31 * (m - 1),
    decreases m,
{
    if m > 1 {
        lemma_days_before_month_bounds(y, m - 1);
    }
}

pub fn day_number(d: &Date) -> (r: u32)
    requires
        d.valid(),
    ensures
        r == spec_day_number(*d),
{
    proof {
        lemma_days_before_year_bounds(d.year as int);
        lemma_days_before_month_bounds(d.year as int, d.month as int);
    }
    let mut acc: u32 = 0;
    let mut y: u32 = 1;
    while y < d.year
        invariant
            1 <= y <= d.year <= 9999,
            acc == spec_days_before_year(y as int),
            acc <= 366 * (y - 1),
        decreases d.year - y,
    {
        proof {
            lemma_days_before_year_bounds(y as int);
        }
        if (y % 4 == 0 && y % 100 != 0) || y % 400 == 0 {
            acc = acc + 366;
        } else {
            acc = acc + 365;
        }
        y = y + 1;
    }
    let mut m: u32 = 1;
    while m < d.month
        invariant
            1 <= m <= d.month <= 12,
            acc == spec_days_before_year(d.year as int) + spec_days_before_month(
                d.year as int,
                m as int,
            ),
            acc <= 366 * 9998 + 31 * (m - 1),
        decreases d.month - m,
    {
        acc = acc + days_in_month(d.year, m);
        m = m + 1;
    }
    acc + d.day
}

/// Day numbers order valid dates chronologically: the strict calendar
/// order and the strict day-number order agree.
pub proof fn lemma_day_number_orders(a: Date, b: Date)
    requires
        a.valid(),
        b.valid(),
    ensures
        a.spec_before(b) <==> spec_day_number(a) < spec_day_number(b),
        a == b <==> spec_day_number(a) == spec_day_number(b),
{
    if a.spec_before(b) {
        lemma_day_number_strict_mono(a, b);
    }
    if b.spec_before(a) {
        lemma_day_number_strict_mono(b, a);
    }
    if !a.spec_before(b) && !b.spec_before(a) {
        assert(a == b);
    }
}

proof fn lemma_day_number_strict_mono(a: Date, b: Date)
    requires
        a.valid(),
        b.valid(),
        a.spec_before(b),
    ensures
        spec_day_number(a) < spec_day_number(b),
{
    lemma_days_before_month_bounds(b.year as int, b.month as int);
    if a.year == b.year {
        if a.month == b.month {
        } else {
            lemma_days_before_month_mono(a.year as int, a.month as int, b.month as int);
        }
    } else {
        lemma_day_number_in_year(a);
        lemma_days_before_year_mono(a.year as int, b.year as int);
    }
}

/// Within one year, a later month starts after an earlier month ends.
proof fn lemma_days_before_month_mono(y: int, m1: int, m2: int)
    requires
        1 <= m1 < m2 <= 12,
    ensures
        spec_days_before_month(y, m1) + spec_days_in_month(y, m1) <= spec_days_before_month(y, m2),
    decreases m2,
{
    if m1 + 1 < m2 {
        lemma_days_before_month_mono(y, m1, m2 - 1);
    }
}

/// Every day of a valid date falls inside its year.
proof fn lemma_day_number_in_year(a: Date)
    requires
        a.valid(),
    ensures
        spec_day_number(a) <= spec_days_before_year(a.year as int + 1),
{
    lemma_year_total(a.year as int);
    if a.month < 12 {
        lemma_days_before_month_mono(a.year as int, a.month as int, 12);
    }
}

/// The months of a year sum to its length.
proof fn lemma_year_total(y: int)
    requires
        1 <= y,
    ensures
        spec_days_before_month(y, 12) + spec_days_in_month(y, 12) == spec_days_before_year(y + 1)
            - spec_days_before_year(y),
{
    assert(spec_days_before_month(y, 12) + spec_days_in_month(y, 12) == if is_leap_year(y) {
        366int
    } else {
        365int
    }) by {
        reveal_with_fuel(spec_days_before_month, 13);
    }
}

proof fn lemma_days_before_year_mono(y1: int, y2: int)
    requires
        1 <= y1 < y2,
    ensures
        spec_days_before_year(y1 + 1) <= spec_days_before_year(y2),
    decreases y2,
{
    if y1 + 1 < y2 {
        lemma_days_before_year_mono(y1, y2 - 1);
    }
}

pub open spec fn is_digit(c: char) -> bool {
    48 <= c as int <= 57
}

pub open spec fn digit_val(c: char) -> int {
    c as int - 48
}

pub open spec fn digit_char(v: int) -> char {
    if v == 0 {
        '0'
    } else if v == 1 {
        '1'
    } else if v == 2 {
        '2'
    } else if v == 3 {
        '3'
    } else if v == 4 {
        '4'
    } else if v == 5 {
        '5'
    } else if v == 6 {
        '6'
    } else if v == 7 {
        '7'
    } else if v == 8 {
        '8'
    } else {
        '9'
    }
}

pub proof fn lemma_digit_char_val(v: int)
    requires
        0 <= v <= 9,
    ensures
        is_digit(digit_char(v)),
        digit_val(digit_char(v)) == v,
{
}

/// Index of the first non-digit character at or after `i`.
pub open spec fn digits_end(s: Seq<char>, i: int) -> int
    decreases s.len() - i,
{
    if i < 0 || i >= s.len() || !is_digit(s[i]) {
        i
    } else {
        digits_end(s, i + 1)
    }
}

pub proof fn lemma_digits_end_range(s: Seq<char>, i: int)
    requires
        0 <= i <= s.len(),
    ensures
        i <= digits_end(s, i) <= s.len(),
    decreases s.len() - i,
{
    if i < s.len() && is_digit(s[i]) {
        lemma_digits_end_range(s, i + 1);
    }
}

/// Numeric value of the digit run `s[i..j]`, most significant first.
pub open spec fn num_val(s: Seq<char>, i: int, j: int) -> int
    decreases j - i,
{
    if j <= i {
        0
    } else {
        num_val(s, i, j - 1) * 10 + digit_val(s[j - 1])
    }
}

pub proof fn lemma_num_val_bound(s: Seq<char>, i: int, j: int)
    requires
        0 <= i <= j <= s.len(),
        forall|k: int| i <= k < j ==> is_digit(#[trigger] s[k]),
    ensures
        j - i == 0 ==> num_val(s, i, j) == 0,
        j - i <= 1 ==> 0 <= num_val(s, i, j) <= 9,
        j - i <= 2 ==> 0 <= num_val(s, i, j) <= 99,
        j - i <= 3 ==> 0 <= num_val(s, i, j) <= 999,
        j - i <= 4 ==> 0 <= num_val(s, i, j) <= 9999,
        0 <= num_val(s, i, j),
    decreases j - i,
{
    if j > i {
        lemma_num_val_bound(s, i, j - 1);
    }
}

/// The parsed meaning of a date string: one to four year digits, one or
/// two month digits, one or two day digits, separated by single dashes,
/// naming a valid calendar date; anything else is malformed.
pub open spec fn spec_parse_date(s: Seq<char>) -> Option<Date> {
    let e1 = digits_end(s, 0);
    let e2 = digits_end(s, e1 + 1);
    let e3 = digits_end(s, e2 + 1);
    if 1 <= e1 <= 4 && e1 < s.len() && s[e1] == '-' && e1 + 2 <= e2 <= e1 + 3 && e2 < s.len()
        && s[e2] == '-' && e2 + 2 <= e3 <= e2 + 3 && e3 == s.len() {
        let d = Date {
            year: num_val(s, 0, e1) as u32,
            month: num_val(s, e1 + 1, e2) as u32,
            day: num_val(s, e2 + 1, e3) as u32,
        };
        if d.valid() {
            Some(d)
        } else {
            None
        }
    } else {
        None
    }
}

/// Scans the digit run of `s` that starts at `from`; returns its end and,
/// when the run has at most four digits, its numeric value.
fn scan_digits(s: &str, from: usize) -> (r: (usize, u32))
    requires
        from <= s@.len(),
    ensures
        r.0 == digits_end(s@, from as int),
        from <= r.0 <= s@.len(),
        r.0 - from <= 4 ==> r.1 == num_val(s@, from as int, r.0 as int),
{
    let len = s.unicode_len();
    let mut i = from;
    let mut val: u32 = 0;
    proof {
        lemma_digits_end_range(s@, from as int);
    }
    loop
        invariant
            from <= i <= len,
            len == s@.len(),
            digits_end(s@, from as int) == digits_end(s@, i as int),
            i - from <= 4 ==> val == num_val(s@, from as int, i as int),
            val <= 99999,
            forall|k: int| from <= k < i ==> is_digit(#[trigger] s@[k]),
        decreases len - i,
    {
        if i == len {
            return (i, val);
        }
        let c = s.get_char(i);
        if !('0' <= c && c <= '9') {
            assert(!is_digit(s@[i as int]));
            return (i, val);
        }
        assert(is_digit(s@[i as int]));
        proof {
            lemma_num_val_bound(s@, from as int, i as int);
        }
        let digit: u32 = (c as u32) - 48;
        if val <= 9999 {
            val = val * 10 + digit;
        }
        i = i + 1;
    }
}

/// Checks that the fields name a real calendar date in years 1 to 9999.
pub fn valid_date(d: &Date) -> (r: bool)
    ensures
        r == d.valid(),
{
    1 <= d.year && d.year <= 9999 && 1 <= d.month && d.month <= 12 && 1 <= d.day && d.day
        <= days_in_month(d.year, d.month)
}

/// Parses a date string, rejecting malformed input; see [`spec_parse_date`].
pub fn parse_date(s: &str) -> (r: Option<Date>)
    ensures
        r == spec_parse_date(s@),
{
    let len = s.unicode_len();
    let (e1, y) = scan_digits(s, 0);
    if !(1 <= e1 && e1 <= 4 && e1 < len) || s.get_char(e1) != '-' {
        return None;
    }
    let (e2, m) = scan_digits(s, e1 + 1);
    if !(e1 + 2 <= e2 && e2 <= e1 + 3 && e2 < len) || s.get_char(e2) != '-' {
        return None;
    }
    let (e3, d) = scan_digits(s, e2 + 1);
    if !(e2 + 2 <= e3 && e3 <= e2 + 3 && e3 == len) {
        return None;
    }
    let date = Date { year: y, month: m, day: d };
    if valid_date(&date) {
        Some(date)
    } else {
        None
    }
}

/// The canonical display form of a date: `YYYY-MM-DD`, zero padded.
pub open spec fn spec_format_date(d: Date) -> Seq<char> {
    seq![
        digit_char(d.year as int / 1000 % 10),
        digit_char(d.year as int / 100 % 10),
        digit_char(d.year as int / 10 % 10),
        digit_char(d.year as int % 10),
        '-',
        digit_char(d.month as int / 10 % 10),
        digit_char(d.month as int % 10),
        '-',
        digit_char(d.day as int / 10 % 10),
        digit_char(d.day as int % 10),
    ]
}

fn append_digit(s: &mut String, v: u32)
    requires
        v <= 9,
    ensures
        final(s)@ == old(s)@ + seq![digit_char(v as int)],
{
    proof {
        reveal_strlit("0");
        reveal_strlit("1");
        reveal_strlit("2");
        reveal_strlit("3");
        reveal_strlit("4");
        reveal_strlit("5");
        reveal_strlit("6");
        reveal_strlit("7");
        reveal_strlit("8");
        reveal_strlit("9");
    }
    match v {
        0 => s.append("0"),
        1 => s.append("1"),
        2 => s.append("2"),
        3 => s.append("3"),
        4 => s.append("4"),
        5 => s.append("5"),
        6 => s.append("6"),
        7 => s.append("7"),
        8 => s.append("8"),
        _ => s.append("9"),
    }
    assert(s@ =~= old(s)@ + seq![digit_char(v as int)]);
}

/// Renders a date in the canonical `YYYY-MM-DD` form.
pub fn format_date(d: &Date) -> (r: String)
    requires
        d.valid(),
    ensures
        r@ == spec_format_date(*d),
{
    proof {
        reveal_strlit("-");
    }
    let mut s = String::new();
    append_digit(&mut s, d.year / 1000 % 10);
    append_digit(&mut s, d.year / 100 % 10);
    append_digit(&mut s, d.year / 10 % 10);
    append_digit(&mut s, d.year % 10);
    s.append("-");
    append_digit(&mut s, d.month / 10 % 10);
    append_digit(&mut s, d.month % 10);
    s.append("-");
    append_digit(&mut s, d.day / 10 % 10);
    append_digit(&mut s, d.day % 10);
    assert(s@ =~= spec_format_date(*d));
    s
}

/// A date string is canonical when parsing and re-rendering leaves it
/// unchanged; every formatted valid date parses back to that date.
pub proof fn lemma_format_then_parse(d: Date)
    requires
        d.valid(),
    ensures
        spec_parse_date(spec_format_date(d)) == Some(d),
{
    let s = spec_format_date(d);
    let y = d.year as int;
    let m = d.month as int;
    let dd = d.day as int;
    assert forall|v: int| 0 <= v <= 9 implies is_digit(#[trigger] digit_char(v)) && digit_val(
        digit_char(v),
    ) == v by {
        lemma_digit_char_val(v);
    }
    assert(!is_digit('-')) by {
        assert('-' as int == 45);
    }
    assert(digits_end(s, 10) == 10);
    assert(digits_end(s, 9) == 10);
    assert(digits_end(s, 8) == 10);
    assert(digits_end(s, 7) == 7);
    assert(digits_end(s, 6) == 7);
    assert(digits_end(s, 5) == 7);
    assert(digits_end(s, 4) == 4);
    assert(digits_end(s, 3) == 4);
    assert(digits_end(s, 2) == 4);
    assert(digits_end(s, 1) == 4);
    assert(digits_end(s, 0) == 4);
    lemma_place_values_4(y);
    lemma_place_values_2(m);
    lemma_place_values_2(dd);
    assert(num_val(s, 0, 0) == 0);
    assert(num_val(s, 5, 5) == 0);
    assert(num_val(s, 8, 8) == 0);
    assert(num_val(s, 0, 1) == y / 1000 % 10);
    assert(num_val(s, 0, 2) == y / 1000 % 10 * 10 + y / 100 % 10);
    assert(num_val(s, 0, 3) == (y / 1000 % 10 * 10 + y / 100 % 10) * 10 + y / 10 % 10);
    assert(num_val(s, 0, 4) == ((y / 1000 % 10 * 10 + y / 100 % 10) * 10 + y / 10 % 10) * 10 + y
        % 10);
    assert(num_val(s, 5, 6) == m / 10 % 10);
    assert(num_val(s, 5, 7) == m / 10 % 10 * 10 + m % 10);
    assert(num_val(s, 8, 9) == dd / 10 % 10);
    assert(num_val(s, 8, 10) == dd / 10 % 10 * 10 + dd % 10);
}

/// Decomposing a number below 10000 into its four decimal places and
/// reassembling them gives the number back.
proof fn lemma_place_values_4(v: int)
    requires
        0 <= v <= 9999,
    ensures
        ((v / 1000 % 10 * 10 + v / 100 % 10) * 10 + v / 10 % 10) * 10 + v % 10 == v,
{
    assert(((v / 1000 % 10 * 10 + v / 100 % 10) * 10 + v / 10 % 10) * 10 + v % 10 == v)
        by (nonlinear_arith)
        requires
            0 <= v <= 9999,
    ;
}

proof fn lemma_place_values_2(v: int)
    requires
        0 <= v <= 99,
    ensures
        v / 10 % 10 * 10 + v % 10 == v,
{
    assert(v / 10 % 10 * 10 + v % 10 == v) by (nonlinear_arith)
        requires
            0 <= v <= 99,
    ;
}

} // verus!
