//! Whole numbers and energies as the tables write them.

use vstd::prelude::*;
use vstd::string::StringExecFns;
use crate::decimal::{decimal_of, digits_value, Decimal};
use crate::error::Error;
use crate::numeral::{digit_values, digits_only, lemma_digits_end, scan_power};
use crate::text::chars_of;

verus! {

/// The whole number that the text `s` writes: one decimal digit or more and
/// nothing else, and a number of at most 64 bits.
pub open spec fn integer_of(s: Seq<char>) -> Option<u64> {
    if s.len() > 0 && digits_only(s) && digits_value(digit_values(s)) <= u64::MAX {
        Some(digits_value(digit_values(s)) as u64)
    } else {
        None
    }
}

/// Reads a whole number in decimal digits. A text with any other character,
/// an empty text and a number of more than 64 bits are refused as
/// [`Error::InvalidInteger`].
pub fn parse_integer(s: &str) -> (r: Result<u64, Error>)
    ensures
        match integer_of(s@) {
            Some(n) => r == Ok::<u64, Error>(n),
            None => r matches Err(Error::InvalidInteger(t)) && t@ == s@,
        },
{
    let text = chars_of(s);
    let (end, value, huge) = scan_power(&text, 0);
    proof {
        lemma_digits_end(text@, 0);
        if end == text.len() {
            assert(text@.subrange(0, end as int) =~= text@);
        } else {
            assert(!digits_only(text@));
        }
    }
    if end == 0 || end < text.len() || huge || value > 0xffff_ffff_ffff_ffff {
        Err(Error::InvalidInteger(String::from_str(s)))
    } else {
        Ok(value as u64)
    }
}

/// Reads an energy: a decimal number as [`Decimal::parse`] reads it, one
/// digit or more, then optionally a point and further digits, then
/// optionally a power of ten. The whole text must be the number, and the
/// number zero or in range; any other text is refused as
/// [`Error::InvalidEnergy`].
pub fn parse_energy(s: &str) -> (r: Result<Decimal, Error>)
    ensures
        match decimal_of(s@) {
            Some(v) => r matches Ok(d) && d@ == v && d.wf(),
            None => r matches Err(Error::InvalidEnergy(t)) && t@ == s@,
        },
{
    match Decimal::parse(s) {
        Ok(energy) => Ok(energy),
        Err(_) => Err(Error::InvalidEnergy(String::from_str(s))),
    }
}

} // verus!
