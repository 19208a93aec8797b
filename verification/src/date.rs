//! Calendar dates, held as plain year/month/day values with the Gregorian
//! validity rule, rendered and parsed in the `YYYY-MM-DD` shape used by the
//! wire format, the store file and the command line.

use vstd::prelude::*;
use vstd::string::*;

use crate::json;

verus! {

/// A calendar date.  Valid dates (see [`Date::valid`]) have a year between 1
/// and 9999, so the rendered year is always four digits.
#[derive(Clone, Copy, PartialEq, Eq, Structural, Debug)]
pub struct Date {
    pub year: u16,
    pub month: u8,
    pub day: u8,
}

/// The Gregorian leap-year rule.
pub open spec fn is_leap_year(y: int) -> bool {
    y % 4 == 0 && (y % 100 != 0 || y % 400 == 0)
}

/// Days in a month of a year.
pub open spec fn days_in_month(y: int, m: int) -> int {
    if m == 2 {
        if is_leap_year(y) {
            29
        } else {
            28
        }
    } else if m == 4 || m == 6 || m == 9 || m == 11 {
        30
    } else {
        31
    }
}

impl Date {
    /// A well-formed calendar date in the range the text form can carry.
    pub open spec fn valid(self) -> bool {
        1 <= self.year <= 9999 && 1 <= self.month <= 12 && 1 <= self.day <= days_in_month(
            self.year as int,
            self.month as int,
        )
    }
}

/// A number padded with leading zeros to at least `w` digits.
pub open spec fn zero_padded(n: nat, w: nat) -> Seq<char> {
    let digits = json::dec_str(n);
    if digits.len() >= w {
        digits
    } else {
        Seq::new((w - digits.len()) as nat, |i: int| '0') + digits
    }
}

/// The `YYYY-MM-DD` rendering of a date.
pub open spec fn date_wire(d: Date) -> Seq<char> {
    zero_padded(d.year as nat, 4) + "-"@ + zero_padded(d.month as nat, 2) + "-"@ + zero_padded(
        d.day as nat,
        2,
    )
}

/// Whether a character is a decimal digit.
pub open spec fn is_dec_digit(c: char) -> bool {
    ('0' as u32) <= (c as u32) && (c as u32) <= ('9' as u32)
}

/// The value of a decimal digit character.
pub open spec fn digit_val(c: char) -> int {
    (c as u32) - ('0' as u32)
}

/// What parsing a `YYYY-MM-DD` string yields: the date when the text has
/// exactly that shape and names a valid date, nothing otherwise.
pub open spec fn spec_parse_date(s: Seq<char>) -> Option<Date> {
    if s.len() == 10 && is_dec_digit(s[0]) && is_dec_digit(s[1]) && is_dec_digit(s[2])
        && is_dec_digit(s[3]) && s[4] == '-' && is_dec_digit(s[5]) && is_dec_digit(s[6]) && s[7]
        == '-' && is_dec_digit(s[8]) && is_dec_digit(s[9]) {
        let y = digit_val(s[0]) * 1000 + digit_val(s[1]) * 100 + digit_val(s[2]) * 10 + digit_val(
            s[3],
        );
        let m = digit_val(s[5]) * 10 + digit_val(s[6]);
        let d = digit_val(s[8]) * 10 + digit_val(s[9]);
        let date = Date { year: y as u16, month: m as u8, day: d as u8 };
        if date.valid() {
            Some(date)
        } else {
            None
        }
    } else {
        None
    }
}

/// Renders a number with leading zeros to at least `w` digits; `w` at most 4.
fn zero_pad(n: u64, w: usize) -> (r: String)
    requires
        w <= 4,
    ensures
        r@ == zero_padded(n as nat, w as nat),
{
    let digits = json::u64_string(n);
    proof {
        json::lemma_dec_str_len(n as nat);
    }
    let len = digits.as_str().unicode_len();
    let mut out = String::new();
    if len < w {
        let k = w - len;
        let pad = match k {
            1 => "0",
            2 => "00",
            _ => "000",
        };
        proof {
            reveal_strlit("0");
            reveal_strlit("00");
            reveal_strlit("000");
            assert(pad@ =~= Seq::new(k as nat, |i: int| '0'));
        }
        out.append(pad);
    }
    out.append(digits.as_str());
    proof {
        if len >= w {
            assert(out@ =~= zero_padded(n as nat, w as nat));
        } else {
            assert(out@ =~= zero_padded(n as nat, w as nat));
        }
    }
    out
}

/// Renders a date as `YYYY-MM-DD` (valid dates always get two-digit month
/// and day and a four-digit year).
pub fn format_date(d: &Date) -> (r: String)
    ensures
        r@ == date_wire(*d),
{
    let mut out = zero_pad(d.year as u64, 4);
    out.append("-");
    out.append(zero_pad(d.month as u64, 2).as_str());
    out.append("-");
    out.append(zero_pad(d.day as u64, 2).as_str());
    out
}

/// Reads one digit character of `s`.
fn read_digit(s: &str, i: usize) -> (r: Option<u16>)
    requires
        i < s@.len(),
    ensures
        match r {
            Some(v) => is_dec_digit(s@[i as int]) && v == digit_val(s@[i as int]),
            None => !is_dec_digit(s@[i as int]),
        },
{
    let c = s.get_char(i);
    let v = c as u32;
    if 48 <= v && v <= 57 {
        Some((v - 48) as u16)
    } else {
        None
    }
}

/// Parses a `YYYY-MM-DD` string into a valid date, yielding nothing when the
/// shape or the calendar rule is violated.
pub fn parse_date(s: &str) -> (r: Option<Date>)
    ensures
        r == spec_parse_date(s@),
{
    if s.unicode_len() != 10 {
        return None;
    }
    let d0 = read_digit(s, 0);
    let d1 = read_digit(s, 1);
    let d2 = read_digit(s, 2);
    let d3 = read_digit(s, 3);
    let d5 = read_digit(s, 5);
    let d6 = read_digit(s, 6);
    let d8 = read_digit(s, 8);
    let d9 = read_digit(s, 9);
    if s.get_char(4) != '-' || s.get_char(7) != '-' {
        return None;
    }
    match (d0, d1, d2, d3, d5, d6, d8, d9) {
        (
            Some(y0),
            Some(y1),
            Some(y2),
            Some(y3),
            Some(m0),
            Some(m1),
            Some(dd0),
            Some(dd1),
        ) => {
            let year: u16 = y0 * 1000 + y1 * 100 + y2 * 10 + y3;
            let month: u8 = (m0 * 10 + m1) as u8;
            let day: u8 = (dd0 * 10 + dd1) as u8;
            let date = Date { year, month, day };
            if date.check_valid() {
                Some(date)
            } else {
                None
            }
        },
        _ => None,
    }
}

impl Date {
    /// Decides validity.
    pub fn check_valid(&self) -> (r: bool)
        ensures
            r == self.valid(),
    {
        if self.year < 1 || self.year > 9999 || self.month < 1 || self.month > 12 || self.day < 1 {
            return false;
        }
        let dim: u8 = if self.month == 2 {
            let y = self.year;
            if y % 4 == 0 && (y % 100 != 0 || y % 400 == 0) {
                29
            } else {
                28
            }
        } else if self.month == 4 || self.month == 6 || self.month == 9 || self.month == 11 {
            30
        } else {
            31
        };
        self.day <= dim
    }
}

} // verus!
