//! The written form of a decimal number: digits, an optional point with
//! further digits, and an optional power of ten.

use vstd::prelude::*;
use crate::decimal::{all_digits, digits_value};

verus! {

/// Whether the character at the place `i` of `s` is `c`.
pub open spec fn has_char(s: Seq<char>, i: int, c: char) -> bool {
    0 <= i < s.len() && s[i] == c
}

/// Whether `c` is one of the digits `0` to `9`.
pub open spec fn is_digit(c: char) -> bool {
    48 <= c as u32 <= 57
}

/// The digit that the character `c` writes.
pub open spec fn digit_value(c: char) -> u8 {
    (c as u32 - 48) as u8
}

/// The digits that the characters of `s` write.
pub open spec fn digit_values(s: Seq<char>) -> Seq<u8> {
    Seq::new(s.len(), |i: int| digit_value(s[i]))
}

/// Whether `s` holds digits only.
pub open spec fn digits_only(s: Seq<char>) -> bool {
    forall|i: int| 0 <= i < s.len() ==> is_digit(s[i])
}

/// Where the run of digits that starts at `from` ends: the place of the first
/// character from there on that is no digit, or the length of `s`.
pub open spec fn digits_end(s: Seq<char>, from: int) -> int
    decreases s.len() - from,
{
    if 0 <= from < s.len() && is_digit(s[from]) {
        digits_end(s, from + 1)
    } else {
        from
    }
}

/// A number as it was read from a text.
pub struct Numeral {
    /// The digits before and after the point, in order.
    pub digits: Seq<u8>,
    /// The power of ten by which the number that `digits` write is multiplied.
    pub scale: int,
    /// How many characters the number takes.
    pub end: int,
}

/// The number that the text `s` begins with, if it begins with one.
///
/// A number is one digit or more, then optionally a point and any count of
/// digits, then optionally `e` or `E`, an optional sign and one digit or
/// more. The longest such beginning is taken. A text that goes on with `e` or
/// `E` and no digits begins with no number.
pub open spec fn numeral_at(s: Seq<char>) -> Option<Numeral> {
    let whole_end = digits_end(s, 0);
    let fraction_start = if has_char(s, whole_end, '.') {
        whole_end + 1
    } else {
        whole_end
    };
    let fraction_end = digits_end(s, fraction_start);
    let digits = digit_values(s.subrange(0, whole_end) + s.subrange(fraction_start, fraction_end));
    let places = fraction_end - fraction_start;
    if whole_end == 0 {
        None
    } else if has_char(s, fraction_end, 'e') || has_char(s, fraction_end, 'E') {
        let negative = has_char(s, fraction_end + 1, '-');
        let power_start = if negative || has_char(s, fraction_end + 1, '+') {
            fraction_end + 2
        } else {
            fraction_end + 1
        };
        let end = digits_end(s, power_start);
        let power = digits_value(digit_values(s.subrange(power_start, end)));
        if end == power_start {
            None
        } else if negative {
            Some(Numeral { digits, scale: -power - places, end })
        } else {
            Some(Numeral { digits, scale: power - places, end })
        }
    } else {
        Some(Numeral { digits, scale: -places, end: fraction_end })
    }
}

/// A run of digits ends within the text, at a character that is no digit, and
/// holds digits only.
pub proof fn lemma_digits_end(s: Seq<char>, from: int)
    requires
        0 <= from <= s.len(),
    ensures
        from <= digits_end(s, from) <= s.len(),
        digits_only(s.subrange(from, digits_end(s, from))),
        digits_end(s, from) < s.len() ==> !is_digit(s[digits_end(s, from)]),
    decreases s.len() - from,
{
    if from < s.len() && is_digit(s[from]) {
        lemma_digits_end(s, from + 1);
        let end = digits_end(s, from);
        let run = s.subrange(from, end);
        assert forall|i: int| 0 <= i < run.len() implies is_digit(#[trigger] run[i]) by {
            if i > 0 {
                assert(s.subrange(from + 1, end)[i - 1] == run[i]);
            }
        }
    }
}

/// A run of digits that is followed by no digit ends where it ends.
pub proof fn lemma_run_of_digits(s: Seq<char>, from: int, len: int)
    requires
        0 <= from,
        0 <= len,
        from + len <= s.len(),
        forall|i: int| from <= i < from + len ==> is_digit(#[trigger] s[i]),
        from + len < s.len() ==> !is_digit(s[from + len]),
    ensures
        digits_end(s, from) == from + len,
    decreases len,
{
    if len > 0 {
        assert(is_digit(s[from]));
        lemma_run_of_digits(s, from + 1, len - 1);
    }
}

/// What the scanner found of a number.
pub(crate) struct Scan {
    /// The digits before and after the point.
    pub digits: Vec<u8>,
    /// How many of them stand after the point.
    pub places: usize,
    /// Whether the power of ten has a minus sign.
    pub negative: bool,
    /// The power of ten without its sign, exact unless `huge`.
    pub power: u128,
    /// Whether the power of ten is beyond `POWER_CAP`.
    pub huge: bool,
    /// How many characters the number takes.
    pub end: usize,
}

/// Powers of ten are added up exactly as long as they stay under this.
pub(crate) const POWER_CAP: u128 = 1_000_000_000_000_000_000_000_000_000_000;

impl Scan {
    /// The power of ten as it was written, where it was added up exactly.
    pub(crate) open spec fn scale(&self) -> int {
        if self.negative {
            -(self.power as int) - self.places
        } else {
            self.power as int - self.places
        }
    }

    /// Whether this is what `n` says, as far as the scanner keeps it.
    pub(crate) open spec fn agrees(&self, n: Numeral) -> bool {
        &&& self.digits@ == n.digits
        &&& all_digits(n.digits)
        &&& self.end == n.end
        &&& !self.huge ==> self.scale() == n.scale
        &&& self.huge ==> if self.negative {
            n.scale <= -(POWER_CAP as int) - self.places
        } else {
            n.scale >= POWER_CAP as int - self.places
        }
    }
}

/// Whether `c` is a digit.
pub(crate) fn digit_char(c: char) -> (r: bool)
    ensures
        r == is_digit(c),
{
    let code: u32 = c as u32;
    48 <= code && code <= 57
}

/// Reads the run of digits of `text` that starts at `from` into `out`.
pub(crate) fn scan_digits(text: &Vec<char>, from: usize, out: &mut Vec<u8>) -> (end: usize)
    requires
        from <= text.len(),
        all_digits(old(out)@),
    ensures
        end == digits_end(text@, from as int),
        from <= end <= text.len(),
        final(out)@ == old(out)@ + digit_values(text@.subrange(from as int, end as int)),
        all_digits(final(out)@),
{
    let mut i: usize = from;
    while i < text.len() && digit_char(text[i])
        invariant
            from <= i <= text.len(),
            digits_end(text@, from as int) == digits_end(text@, i as int),
            out@ == old(out)@ + digit_values(text@.subrange(from as int, i as int)),
            all_digits(out@),
        decreases text.len() - i,
    {
        let code: u32 = text[i] as u32;
        let d: u8 = (code - 48) as u8;
        out.push(d);
        i += 1;
        assert(out@ =~= old(out)@ + digit_values(text@.subrange(from as int, i as int)));
    }
    i
}

/// Reads the run of digits of `text` that starts at `from` as a number, which
/// is exact up to `POWER_CAP`.
#[verifier::rlimit(50)]
pub(crate) fn scan_power(text: &Vec<char>, from: usize) -> (r: (usize, u128, bool))
    requires
        from <= text.len(),
    ensures
        r.0 == digits_end(text@, from as int),
        from <= r.0 <= text.len(),
        !r.2 ==> r.1 == digits_value(digit_values(text@.subrange(from as int, r.0 as int))),
        r.2 ==> digits_value(digit_values(text@.subrange(from as int, r.0 as int))) >= POWER_CAP,
{
    let mut i: usize = from;
    let mut power: u128 = 0;
    let mut huge = false;
    assert(digit_values(text@.subrange(from as int, from as int)) =~= Seq::<u8>::empty());
    while i < text.len() && digit_char(text[i])
        invariant
            from <= i <= text.len(),
            digits_end(text@, from as int) == digits_end(text@, i as int),
            !huge ==> power == digits_value(digit_values(text@.subrange(from as int, i as int))),
            huge ==> digits_value(digit_values(text@.subrange(from as int, i as int)))
                >= POWER_CAP,
            power < 10 * POWER_CAP,
        decreases text.len() - i,
    {
        let code: u32 = text[i] as u32;
        let d: u8 = (code - 48) as u8;
        let ghost before = digit_values(text@.subrange(from as int, i as int));
        let ghost after = digit_values(text@.subrange(from as int, i + 1));
        assert(after.drop_last() =~= before);
        assert(after.last() == d);
        if power >= POWER_CAP {
            huge = true;
        } else {
            power = power * 10 + d as u128;
        }
        i += 1;
    }
    (i, power, huge)
}

/// Reads the number that `text` begins with.
#[verifier::rlimit(50)]
pub(crate) fn scan_number(text: &Vec<char>) -> (r: Option<Scan>)
    ensures
        r is Some <==> numeral_at(text@) is Some,
        r matches Some(scan) ==> scan.agrees(numeral_at(text@)->0) && 0 < scan.end <= text.len()
            && scan.places <= text.len(),
{
    let n = text.len();
    let mut digits: Vec<u8> = Vec::new();
    let whole_end = scan_digits(text, 0, &mut digits);
    if whole_end == 0 {
        return None;
    }
    let fraction_start = if whole_end < n && text[whole_end] == '.' {
        whole_end + 1
    } else {
        whole_end
    };
    let ghost whole = digits@;
    let fraction_end = scan_digits(text, fraction_start, &mut digits);
    proof {
        assert(whole =~= digit_values(text@.subrange(0, whole_end as int)));
        assert(digits@ =~= digit_values(
            text@.subrange(0, whole_end as int) + text@.subrange(
                fraction_start as int,
                fraction_end as int,
            ),
        ));
    }
    let places = fraction_end - fraction_start;
    if fraction_end < n && (text[fraction_end] == 'e' || text[fraction_end] == 'E') {
        let negative = fraction_end + 1 < n && text[fraction_end + 1] == '-';
        let signed = negative || (fraction_end + 1 < n && text[fraction_end + 1] == '+');
        let power_start = if signed {
            fraction_end + 2
        } else {
            fraction_end + 1
        };
        let (end, power, huge) = scan_power(text, power_start);
        if end == power_start {
            return None;
        }
        Some(Scan { digits, places, negative, power, huge, end })
    } else {
        Some(Scan { digits, places, negative: false, power: 0, huge: false, end: fraction_end })
    }
}

} // verus!
