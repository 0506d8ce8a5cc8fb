//! Reading prices and counts as the websites print them.
use crate::seqs::lemma_filter_step;
use crate::text::chars_of;
use crate::text::find_char;
use crate::text::first_index;
use vstd::prelude::*;

verus! {

/// The largest whole amount whose hundredfold may still fit in an `i64`.
pub const WHOLE_LIMIT: i128 = 92233720368547758;

/// The largest magnitude that an `i64` can hold.
pub const COUNT_LIMIT: i128 = 9223372036854775808;

/// Whether `c` is one of the decimal digits.
pub open spec fn is_digit(c: char) -> bool {
    '0' <= c && c <= '9'
}

/// The value of a decimal digit.
pub open spec fn digit_value(c: char) -> int {
    c as int - '0' as int
}

/// Whether `s` holds decimal digits only.
pub open spec fn all_digits(s: Seq<char>) -> bool {
    forall|i: int| 0 <= i < s.len() ==> is_digit(#[trigger] s[i])
}

/// The number that the decimal digits `s` write; zero for no digits.
pub open spec fn decimal(s: Seq<char>) -> int
    decreases s.len(),
{
    if s.len() == 0 {
        0
    } else {
        decimal(s.drop_last()) * 10 + digit_value(s.last())
    }
}

/// The value of the digit at place `i` of `s`, or zero behind its end.
pub open spec fn digit_at(s: Seq<char>, i: int) -> int {
    if 0 <= i < s.len() {
        digit_value(s[i])
    } else {
        0
    }
}

/// The digits behind the point as hundredths, rounded to the nearest whole
/// hundredth, half a hundredth upwards.
pub open spec fn cents_of(frac: Seq<char>) -> int {
    digit_at(frac, 0) * 10 + digit_at(frac, 1) + if digit_at(frac, 2) >= 5 {
        1int
    } else {
        0int
    }
}

/// Whether a price is written with `c` only between its digits: the thousands
/// separator and the currency sign carry no value.
pub open spec fn is_mark(c: char) -> bool {
    c == ',' || c == '$'
}

/// `text` without separators and currency signs.
pub open spec fn without_marks(text: Seq<char>) -> Seq<char> {
    text.filter(|c: char| !is_mark(c))
}

/// Whether `s` starts with a sign.
pub open spec fn is_signed(s: Seq<char>) -> bool {
    s.len() > 0 && (s[0] == '-' || s[0] == '+')
}

/// `s` without its sign, if it has one.
pub open spec fn unsigned_part(s: Seq<char>) -> Seq<char> {
    if is_signed(s) {
        s.skip(1)
    } else {
        s
    }
}

/// The digits of `number` behind its first point.
pub open spec fn fraction_part(number: Seq<char>) -> Seq<char> {
    if first_index(number, '.') < number.len() {
        number.skip(first_index(number, '.') + 1)
    } else {
        Seq::empty()
    }
}

/// The price that `text` states, in hundredths: separators and currency signs
/// are left out; what remains is an optional sign, digits, and optionally a
/// point and more digits, with a digit on at least one side of the point.
/// Digits behind the second place round to the nearest hundredth, half away
/// from zero. `None` for any other text.
pub open spec fn price_cents(text: Seq<char>) -> Option<int> {
    let body = without_marks(text);
    let number = unsigned_part(body);
    let whole = number.take(first_index(number, '.'));
    let frac = fraction_part(number);
    if all_digits(whole) && all_digits(frac) && whole.len() + frac.len() > 0 {
        let magnitude = decimal(whole) * 100 + cents_of(frac);
        Some(
            if is_signed(body) && body[0] == '-' {
                -magnitude
            } else {
                magnitude
            },
        )
    } else {
        None
    }
}

/// The whole number that `text` states: separators are left out; what remains
/// is an optional sign and at least one digit. `None` for any other text.
pub open spec fn count_value(text: Seq<char>) -> Option<int> {
    let body = text.filter(|c: char| c != ',');
    let digits = unsigned_part(body);
    if all_digits(digits) && digits.len() > 0 {
        Some(
            if is_signed(body) && body[0] == '-' {
                -decimal(digits)
            } else {
                decimal(digits)
            },
        )
    } else {
        None
    }
}

/// `value` as an `i64`, if there is a value and it fits.
pub open spec fn fitting(value: Option<int>) -> Option<i64> {
    match value {
        Some(v) => if i64::MIN <= v <= i64::MAX {
            Some(v as i64)
        } else {
            None
        },
        None => None,
    }
}

/// `text` without the characters that `is_mark` names.
fn strip_marks(text: &Vec<char>) -> (body: Vec<char>)
    ensures
        body@ == without_marks(text@),
{
    let ghost keep = |c: char| !is_mark(c);
    let mut body: Vec<char> = Vec::new();
    let mut i: usize = 0;
    while i < text.len()
        invariant
            i <= text.len(),
            keep == |c: char| !is_mark(c),
            body@ == text@.take(i as int).filter(keep),
        decreases text.len() - i,
    {
        proof {
            lemma_filter_step(text@, keep, i as int);
        }
        let c = text[i];
        if c != ',' && c != '$' {
            body.push(c);
        }
        i += 1;
    }
    assert(text@.take(text.len() as int) =~= text@);
    body
}

/// `text` without commas.
fn strip_commas(text: &Vec<char>) -> (body: Vec<char>)
    ensures
        body@ == text@.filter(|c: char| c != ','),
{
    let ghost keep = |c: char| c != ',';
    let mut body: Vec<char> = Vec::new();
    let mut i: usize = 0;
    while i < text.len()
        invariant
            i <= text.len(),
            keep == |c: char| c != ',',
            body@ == text@.take(i as int).filter(keep),
        decreases text.len() - i,
    {
        proof {
            lemma_filter_step(text@, keep, i as int);
        }
        let c = text[i];
        if c != ',' {
            body.push(c);
        }
        i += 1;
    }
    assert(text@.take(text.len() as int) =~= text@);
    body
}

/// The value of the digit `c`, if it is one.
fn digit_of(c: char) -> (value: Option<u8>)
    ensures
        match value {
            Some(v) => is_digit(c) && v == digit_value(c),
            None => !is_digit(c),
        },
{
    if '0' <= c && c <= '9' {
        Some(((c as u32) - ('0' as u32)) as u8)
    } else {
        None
    }
}

/// The number that the digits `s` write, if they are digits and the number is
/// no greater than `limit`.
fn parse_digits(s: &[char], limit: i128) -> (value: Option<i128>)
    requires
        0 <= limit <= COUNT_LIMIT,
    ensures
        match value {
            Some(v) => all_digits(s@) && v == decimal(s@) && 0 <= v <= limit,
            None => !all_digits(s@) || decimal(s@) > limit,
        },
{
    let mut value: i128 = 0;
    let mut exceeded = false;
    let mut i: usize = 0;
    while i < s.len()
        invariant
            i <= s.len(),
            all_digits(s@.take(i as int)),
            0 <= value <= limit <= COUNT_LIMIT,
            !exceeded ==> value == decimal(s@.take(i as int)),
            exceeded ==> decimal(s@.take(i as int)) > limit,
        decreases s.len() - i,
    {
        let ghost upto = s@.take(i as int + 1);
        proof {
            assert(upto.drop_last() =~= s@.take(i as int));
        }
        match digit_of(s[i]) {
            None => {
                return None;
            },
            Some(d) => {
                if !exceeded {
                    let next = value * 10 + d as i128;
                    if next > limit {
                        exceeded = true;
                    } else {
                        value = next;
                    }
                }
            },
        }
        i += 1;
    }
    assert(s@.take(s.len() as int) =~= s@);
    if exceeded {
        None
    } else {
        Some(value)
    }
}

/// The hundredths that the digits `frac` behind a point stand for.
fn parse_cents(frac: &[char]) -> (cents: Option<i128>)
    ensures
        match cents {
            Some(c) => all_digits(frac@) && c == cents_of(frac@) && 0 <= c <= 100,
            None => !all_digits(frac@),
        },
{
    let mut i: usize = 0;
    let mut cents: i128 = 0;
    while i < frac.len()
        invariant
            i <= frac.len(),
            forall|j: int| 0 <= j < i ==> is_digit(#[trigger] frac@[j]),
            0 <= cents <= 100,
            cents == (if i > 0 {
                digit_at(frac@, 0) * 10
            } else {
                0
            }) + (if i > 1 {
                digit_at(frac@, 1)
            } else {
                0
            }) + (if i > 2 && digit_at(frac@, 2) >= 5 {
                1int
            } else {
                0int
            }),
        decreases frac.len() - i,
    {
        match digit_of(frac[i]) {
            None => {
                return None;
            },
            Some(d) => {
                if i == 0 {
                    cents = cents + 10 * (d as i128);
                } else if i == 1 {
                    cents = cents + d as i128;
                } else if i == 2 && d >= 5 {
                    cents = cents + 1;
                }
            },
        }
        i += 1;
    }
    Some(cents)
}

/// Reads a price such as `$1,234.56` as hundredths, here `123456`. Returns
/// `None` when the text states no price, or one that does not fit.
pub fn parse_price(text: &str) -> (cents: Option<i64>)
    ensures
        cents == fitting(price_cents(text@)),
{
    let chars = chars_of(text);
    let body = strip_marks(&chars);
    let n = body.len();
    let signed = n > 0 && (body[0] == '-' || body[0] == '+');
    let negative = signed && body[0] == '-';
    let start: usize = if signed {
        1
    } else {
        0
    };
    let number = vstd::slice::slice_subrange(body.as_slice(), start, n);
    assert(number@ =~= unsigned_part(body@));
    let dot = find_char(number, '.');
    let whole = vstd::slice::slice_subrange(number, 0, dot);
    let frac = if dot < number.len() {
        vstd::slice::slice_subrange(number, dot + 1, number.len())
    } else {
        vstd::slice::slice_subrange(number, 0, 0)
    };
    if whole.len() == 0 && frac.len() == 0 {
        return None;
    }
    let cents = match parse_cents(frac) {
        Some(c) => c,
        None => {
            return None;
        },
    };
    match parse_digits(whole, WHOLE_LIMIT) {
        None => {
            None
        },
        Some(w) => {
            let magnitude = w * 100 + cents;
            let value = if negative {
                -magnitude
            } else {
                magnitude
            };
            if value < i64::MIN as i128 || value > i64::MAX as i128 {
                None
            } else {
                Some(value as i64)
            }
        },
    }
}

/// Reads a count such as `1,234` as a whole number, here `1234`. Returns
/// `None` when the text states no count, or one that does not fit.
pub fn parse_count(text: &str) -> (count: Option<i64>)
    ensures
        count == fitting(count_value(text@)),
{
    let chars = chars_of(text);
    let body = strip_commas(&chars);
    let n = body.len();
    let signed = n > 0 && (body[0] == '-' || body[0] == '+');
    let negative = signed && body[0] == '-';
    let start: usize = if signed {
        1
    } else {
        0
    };
    let digits = vstd::slice::slice_subrange(body.as_slice(), start, n);
    assert(digits@ =~= unsigned_part(body@));
    if digits.len() == 0 {
        return None;
    }
    match parse_digits(digits, COUNT_LIMIT) {
        None => None,
        Some(v) => {
            let value = if negative {
                -v
            } else {
                v
            };
            if value < i64::MIN as i128 || value > i64::MAX as i128 {
                None
            } else {
                Some(value as i64)
            }
        },
    }
}

} // verus!
