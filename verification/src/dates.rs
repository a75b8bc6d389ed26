use vstd::prelude::*;
use vstd::string::*;
use vstd::arithmetic::div_mod::*;

verus! {

/// A calendar date held as plain year, month and day numbers.
/// Rendered and parsed in the `YYYY-MM-DD` shape, so the year is
/// capped at four digits.
#[derive(Clone, Copy, Debug, PartialEq, Eq, Structural, Hash)]
pub struct Date {
    pub year: u32,
    pub month: u32,
    pub day: u32,
}

pub open spec fn spec_is_leap_year(y: int) -> bool {
    (y % 4 == 0 && y % 100 != 0) || y % 400 == 0
}

pub open spec fn spec_days_in_month(y: int, m: int) -> int {
    if m == 2 {
        if spec_is_leap_year(y) {
            29
        } else {
            28
        }
    } else if m == 4 || m == 6 || m == 9 || m == 11 {
        30
    } else {
        31
    }
}

impl Date {
    /// A well-formed date names a real day of the proleptic Gregorian
    /// calendar and fits the four-digit year of `YYYY-MM-DD`.
    pub open spec fn wf(self) -> bool {
        &&& self.year <= 9999
        &&& 1 <= self.month <= 12
        &&& 1 <= self.day <= spec_days_in_month(self.year as int, self.month as int)
    }

    /// Runtime check of `wf`, for callers outside verified code.
    pub fn check_wf(&self) -> (b: bool)
        ensures
            b == self.wf(),
    {
        self.year <= 9999 && 1 <= self.month && self.month <= 12 && 1 <= self.day && self.day
            <= days_in_month(self.year, self.month)
    }
}

pub fn is_leap_year(y: u32) -> (r: bool)
    ensures
        r == spec_is_leap_year(y as int),
{
    (y % 4 == 0 && y % 100 != 0) || y % 400 == 0
}

pub fn days_in_month(y: u32, m: u32) -> (r: u32)
    ensures
        r as int == spec_days_in_month(y as int, m as int),
{
    if m == 2 {
        if is_leap_year(y) {
            29
        } else {
            28
        }
    } else if m == 4 || m == 6 || m == 9 || m == 11 {
        30
    } else {
        31
    }
}

/// The character for one decimal digit.
pub open spec fn digit_char(d: int) -> char {
    if d == 0 {
        '0'
    } else if d == 1 {
        '1'
    } else if d == 2 {
        '2'
    } else if d == 3 {
        '3'
    } else if d == 4 {
        '4'
    } else if d == 5 {
        '5'
    } else if d == 6 {
        '6'
    } else if d == 7 {
        '7'
    } else if d == 8 {
        '8'
    } else {
        '9'
    }
}

/// The numeric value of a decimal digit character; -1 for any other character.
pub open spec fn spec_digit_val(c: char) -> int {
    if c == '0' {
        0
    } else if c == '1' {
        1
    } else if c == '2' {
        2
    } else if c == '3' {
        3
    } else if c == '4' {
        4
    } else if c == '5' {
        5
    } else if c == '6' {
        6
    } else if c == '7' {
        7
    } else if c == '8' {
        8
    } else if c == '9' {
        9
    } else {
        -1
    }
}

proof fn lemma_digit_char_val(d: int)
    requires
        0 <= d <= 9,
    ensures
        spec_digit_val(digit_char(d)) == d,
{
}

fn digit_str(d: u32) -> (s: &'static str)
    requires
        d < 10,
    ensures
        s@ =~= seq![digit_char(d as int)],
{
    proof {
        reveal_strlit("0");
        reveal_strlit("1");
        reveal_strlit("2");
        reveal_strlit("3");
        reveal_strlit("4");
        reveal_strlit("5");
        reveal_strlit("6");
        reveal_strlit("7");
        reveal_strlit("8");
        reveal_strlit("9");
    }
    match d {
        0 => "0",
        1 => "1",
        2 => "2",
        3 => "3",
        4 => "4",
        5 => "5",
        6 => "6",
        7 => "7",
        8 => "8",
        _ => "9",
    }
}

fn digit_val(c: char) -> (r: Option<u32>)
    ensures
        match r {
            Some(v) => v <= 9 && spec_digit_val(c) == v as int,
            None => spec_digit_val(c) == -1,
        },
{
    match c {
        '0' => Some(0),
        '1' => Some(1),
        '2' => Some(2),
        '3' => Some(3),
        '4' => Some(4),
        '5' => Some(5),
        '6' => Some(6),
        '7' => Some(7),
        '8' => Some(8),
        '9' => Some(9),
        _ => None,
    }
}

/// The ten characters of a date in `YYYY-MM-DD` shape.
pub open spec fn date_chars(d: Date) -> Seq<char> {
    seq![
        digit_char(d.year as int / 1000 % 10),
        digit_char(d.year as int / 100 % 10),
        digit_char(d.year as int / 10 % 10),
        digit_char(d.year as int % 10),
        '-',
        digit_char(d.month as int / 10 % 10),
        digit_char(d.month as int % 10),
        '-',
        digit_char(d.day as int / 10 % 10),
        digit_char(d.day as int % 10),
    ]
}

/// Renders a date as `YYYY-MM-DD`, zero-padded.
pub fn format_date(d: &Date) -> (s: String)
    requires
        d.wf(),
    ensures
        s@ == date_chars(*d),
{
    proof {
        reveal_strlit("-");
    }
    let mut s = String::new();
    s.append(digit_str(d.year / 1000 % 10));
    s.append(digit_str(d.year / 100 % 10));
    s.append(digit_str(d.year / 10 % 10));
    s.append(digit_str(d.year % 10));
    s.append("-");
    s.append(digit_str(d.month / 10 % 10));
    s.append(digit_str(d.month % 10));
    s.append("-");
    s.append(digit_str(d.day / 10 % 10));
    s.append(digit_str(d.day % 10));
    proof {
        assert(s@ =~= date_chars(*d));
    }
    s
}

/// The decimal digits of a number, most significant first.
pub open spec fn dec_chars(n: nat) -> Seq<char>
    decreases n,
{
    if n < 10 {
        seq![digit_char(n as int)]
    } else {
        dec_chars(n / 10).push(digit_char(n as int % 10))
    }
}

/// Renders a number in decimal, as `format!("{}", n)` would.
pub fn u32_digits(n: u32) -> (s: String)
    ensures
        s@ == dec_chars(n as nat),
    decreases n,
{
    if n < 10 {
        let s = String::from_str(digit_str(n));
        proof {
            assert(s@ =~= dec_chars(n as nat));
        }
        s
    } else {
        let s = u32_digits(n / 10);
        let r = s.concat(digit_str(n % 10));
        proof {
            assert(r@ =~= dec_chars(n as nat));
        }
        r
    }
}

/// Relies on chrono's `Local::now` and the `Datelike` accessors of
/// `NaiveDate`: the year, month and day of the current moment in the
/// local time zone. chrono documents the month as 1 to 12 and the day
/// as 1 to 31; the year depends on the clock and is unconstrained.
#[verifier::external_body]
fn now_ymd() -> (r: (i32, u32, u32))
    ensures
        1 <= r.1 <= 12,
        1 <= r.2 <= 31,
{
    let d = chrono::Local::now().date_naive();
    (chrono::Datelike::year(&d), chrono::Datelike::month(&d), chrono::Datelike::day(&d))
}

/// Where a clock reading lands in the date type: the day clamped into
/// its month where the month is shorter, and the first day of 1970
/// where the year cannot be written with four digits.
pub open spec fn spec_today_from_ymd(y: int, month: int, day: int) -> Date {
    if 0 <= y <= 9999 {
        let dim = spec_days_in_month(y, month);
        Date {
            year: y as u32,
            month: month as u32,
            day: (if day > dim {
                dim
            } else {
                day
            }) as u32,
        }
    } else {
        Date { year: 1970, month: 1, day: 1 }
    }
}

/// Fits a clock reading into a well-formed date, exactly as
/// `spec_today_from_ymd` says.
pub fn today_from_ymd(y: i32, month: u32, day: u32) -> (d: Date)
    requires
        1 <= month <= 12,
        1 <= day <= 31,
    ensures
        d == spec_today_from_ymd(y as int, month as int, day as int),
        d.wf(),
{
    if 0 <= y && y <= 9999 {
        let year = y as u32;
        let max = days_in_month(year, month);
        let day = if day > max {
            max
        } else {
            day
        };
        Date { year, month, day }
    } else {
        Date { year: 1970, month: 1, day: 1 }
    }
}

/// The current calendar date in the local time zone, fitted into the
/// date type by `today_from_ymd` (the out-of-range cases are never
/// observed on a sane clock).
pub fn local_today() -> (d: Date)
    ensures
        d.wf(),
{
    let (y, month, day) = now_ymd();
    today_from_ymd(y, month, day)
}

proof fn lemma_four_digits(y: int, a: int, b: int, c: int, e: int)
    requires
        0 <= a <= 9,
        0 <= b <= 9,
        0 <= c <= 9,
        0 <= e <= 9,
        y == a * 1000 + b * 100 + c * 10 + e,
    ensures
        y / 1000 % 10 == a,
        y / 100 % 10 == b,
        y / 10 % 10 == c,
        y % 10 == e,
{
    lemma_fundamental_div_mod_converse(y, 1000, a, b * 100 + c * 10 + e);
    lemma_small_mod(a as nat, 10);
    lemma_fundamental_div_mod_converse(y, 100, a * 10 + b, c * 10 + e);
    lemma_fundamental_div_mod_converse(a * 10 + b, 10, a, b);
    lemma_fundamental_div_mod_converse(y, 10, a * 100 + b * 10 + c, e);
    lemma_fundamental_div_mod_converse(a * 100 + b * 10 + c, 10, a * 10 + b, c);
}

proof fn lemma_two_digits(v: int, a: int, b: int)
    requires
        0 <= a <= 9,
        0 <= b <= 9,
        v == a * 10 + b,
    ensures
        v / 10 % 10 == a,
        v % 10 == b,
{
    lemma_fundamental_div_mod_converse(v, 10, a, b);
    lemma_small_mod(a as nat, 10);
}

/// The digits of a well-formed date's rendering determine its fields.
proof fn lemma_date_chars_fields(d: Date)
    requires
        d.wf(),
    ensures
        date_chars(d).len() == 10,
        date_chars(d)[4] == '-',
        date_chars(d)[7] == '-',
        forall|i: int|
            (0 <= i <= 3 || i == 5 || i == 6 || i == 8 || i == 9) ==> 0 <= spec_digit_val(
                #[trigger] date_chars(d)[i],
            ) <= 9,
        d.year as int == spec_digit_val(date_chars(d)[0]) * 1000 + spec_digit_val(
            date_chars(d)[1],
        ) * 100 + spec_digit_val(date_chars(d)[2]) * 10 + spec_digit_val(date_chars(d)[3]),
        d.month as int == spec_digit_val(date_chars(d)[5]) * 10 + spec_digit_val(date_chars(d)[6]),
        d.day as int == spec_digit_val(date_chars(d)[8]) * 10 + spec_digit_val(date_chars(d)[9]),
{
    let y = d.year as int;
    let m = d.month as int;
    let dd = d.day as int;
    lemma_fundamental_div_mod(y, 10);
    lemma_fundamental_div_mod(y / 10, 10);
    lemma_div_denominator(y, 10, 10);
    lemma_fundamental_div_mod(y / 100, 10);
    lemma_div_denominator(y, 100, 10);
    lemma_div_pos_is_pos(y, 1000);
    lemma_div_is_ordered(y, 9999, 1000);
    lemma_small_mod((y / 1000) as nat, 10);
    lemma_mod_division_less_than_divisor(y, 10);
    lemma_mod_division_less_than_divisor(y / 10, 10);
    lemma_mod_division_less_than_divisor(y / 100, 10);
    lemma_div_pos_is_pos(y, 10);
    lemma_div_pos_is_pos(y / 10, 10);
    lemma_div_pos_is_pos(y / 100, 10);
    assert(y == (y / 1000 % 10) * 1000 + (y / 100 % 10) * 100 + (y / 10 % 10) * 10 + y % 10);
    lemma_fundamental_div_mod(m, 10);
    lemma_div_pos_is_pos(m, 10);
    lemma_div_is_ordered(m, 99, 10);
    lemma_small_mod((m / 10) as nat, 10);
    lemma_mod_division_less_than_divisor(m, 10);
    assert(m == (m / 10 % 10) * 10 + m % 10);
    lemma_fundamental_div_mod(dd, 10);
    lemma_div_pos_is_pos(dd, 10);
    lemma_div_is_ordered(dd, 99, 10);
    lemma_small_mod((dd / 10) as nat, 10);
    lemma_mod_division_less_than_divisor(dd, 10);
    assert(dd == (dd / 10 % 10) * 10 + dd % 10);
    lemma_digit_char_val(y / 1000 % 10);
    lemma_digit_char_val(y / 100 % 10);
    lemma_digit_char_val(y / 10 % 10);
    lemma_digit_char_val(y % 10);
    lemma_digit_char_val(m / 10 % 10);
    lemma_digit_char_val(m % 10);
    lemma_digit_char_val(dd / 10 % 10);
    lemma_digit_char_val(dd % 10);
}

proof fn lemma_val_to_digit_char(c: char)
    requires
        spec_digit_val(c) >= 0,
    ensures
        c == digit_char(spec_digit_val(c)),
{
}

/// Whatever well-formed date renders to `s`, `s` has the `YYYY-MM-DD`
/// shape and its digits spell that date's fields.
proof fn lemma_date_chars_invert(s: Seq<char>)
    ensures
        forall|d: Date|
            d.wf() && s == #[trigger] date_chars(d) ==> {
                &&& s.len() == 10
                &&& s[4] == '-'
                &&& s[7] == '-'
                &&& spec_digit_val(s[0]) >= 0
                &&& spec_digit_val(s[1]) >= 0
                &&& spec_digit_val(s[2]) >= 0
                &&& spec_digit_val(s[3]) >= 0
                &&& spec_digit_val(s[5]) >= 0
                &&& spec_digit_val(s[6]) >= 0
                &&& spec_digit_val(s[8]) >= 0
                &&& spec_digit_val(s[9]) >= 0
                &&& d.year as int == spec_digit_val(s[0]) * 1000 + spec_digit_val(s[1]) * 100
                    + spec_digit_val(s[2]) * 10 + spec_digit_val(s[3])
                &&& d.month as int == spec_digit_val(s[5]) * 10 + spec_digit_val(s[6])
                &&& d.day as int == spec_digit_val(s[8]) * 10 + spec_digit_val(s[9])
            },
{
    assert forall|d: Date| d.wf() && s == #[trigger] date_chars(d) implies {
        &&& s.len() == 10
        &&& s[4] == '-'
        &&& s[7] == '-'
        &&& spec_digit_val(s[0]) >= 0
        &&& spec_digit_val(s[1]) >= 0
        &&& spec_digit_val(s[2]) >= 0
        &&& spec_digit_val(s[3]) >= 0
        &&& spec_digit_val(s[5]) >= 0
        &&& spec_digit_val(s[6]) >= 0
        &&& spec_digit_val(s[8]) >= 0
        &&& spec_digit_val(s[9]) >= 0
        &&& d.year as int == spec_digit_val(s[0]) * 1000 + spec_digit_val(s[1]) * 100
            + spec_digit_val(s[2]) * 10 + spec_digit_val(s[3])
        &&& d.month as int == spec_digit_val(s[5]) * 10 + spec_digit_val(s[6])
        &&& d.day as int == spec_digit_val(s[8]) * 10 + spec_digit_val(s[9])
    } by {
        lemma_date_chars_fields(d);
    }
}

/// Reads a `YYYY-MM-DD` date. Succeeds exactly when the text is the
/// canonical rendering of some well-formed date, and returns that date.
pub fn parse_date(s: &str) -> (r: Option<Date>)
    ensures
        match r {
            Some(d) => d.wf() && s@ == date_chars(d),
            None => forall|d: Date| d.wf() ==> s@ != date_chars(d),
        },
{
    proof {
        lemma_date_chars_invert(s@);
    }
    let n = s.unicode_len();
    if n != 10 {
        return None;
    }
    let c0 = s.get_char(0);
    let c1 = s.get_char(1);
    let c2 = s.get_char(2);
    let c3 = s.get_char(3);
    let c4 = s.get_char(4);
    let c5 = s.get_char(5);
    let c6 = s.get_char(6);
    let c7 = s.get_char(7);
    let c8 = s.get_char(8);
    let c9 = s.get_char(9);
    if c4 != '-' || c7 != '-' {
        return None;
    }
    let v0 = match digit_val(c0) {
        Some(v) => v,
        None => {
            return None;
        },
    };
    let v1 = match digit_val(c1) {
        Some(v) => v,
        None => {
            return None;
        },
    };
    let v2 = match digit_val(c2) {
        Some(v) => v,
        None => {
            return None;
        },
    };
    let v3 = match digit_val(c3) {
        Some(v) => v,
        None => {
            return None;
        },
    };
    let v5 = match digit_val(c5) {
        Some(v) => v,
        None => {
            return None;
        },
    };
    let v6 = match digit_val(c6) {
        Some(v) => v,
        None => {
            return None;
        },
    };
    let v8 = match digit_val(c8) {
        Some(v) => v,
        None => {
            return None;
        },
    };
    let v9 = match digit_val(c9) {
        Some(v) => v,
        None => {
            return None;
        },
    };
    let year = v0 * 1000 + v1 * 100 + v2 * 10 + v3;
    let month = v5 * 10 + v6;
    let day = v8 * 10 + v9;
    if month < 1 || month > 12 {
        return None;
    }
    if day < 1 || day > days_in_month(year, month) {
        return None;
    }
    let d = Date { year, month, day };
    proof {
        lemma_four_digits(year as int, v0 as int, v1 as int, v2 as int, v3 as int);
        lemma_two_digits(month as int, v5 as int, v6 as int);
        lemma_two_digits(day as int, v8 as int, v9 as int);
        lemma_val_to_digit_char(c0);
        lemma_val_to_digit_char(c1);
        lemma_val_to_digit_char(c2);
        lemma_val_to_digit_char(c3);
        lemma_val_to_digit_char(c5);
        lemma_val_to_digit_char(c6);
        lemma_val_to_digit_char(c8);
        lemma_val_to_digit_char(c9);
        assert(s@ =~= date_chars(d));
    }
    Some(d)
}

} // verus!
