//! Half-lives: a positive decimal number and a unit of time.

use vstd::prelude::*;
use vstd::string::{StrSliceExecFns, StringExecFns};
use crate::decimal::{decimal_of_numeral, plain_text, Decimal, DecimalView, FACTOR_LIMIT};
use crate::error::Error;
use crate::numeral::{numeral_at, scan_number};
use crate::order::lemma_range_magnitude;
use crate::text::chars_of;

verus! {

/// Unit of time in which a half-life is given.
#[derive(Clone, Copy, Debug, PartialEq, Eq, Structural)]
pub enum TimeUnit {
    MicroSecond,
    MilliSecond,
    Second,
    Minute,
    Hour,
    Day,
    Year,
}

impl TimeUnit {
    /// The code by which the unit is written in a half-life, and by which it
    /// is shown: what is shown is what is read.
    pub open spec fn code(self) -> Seq<char> {
        match self {
            TimeUnit::MicroSecond => seq!['u', 's'],
            TimeUnit::MilliSecond => seq!['m', 's'],
            TimeUnit::Second => seq!['s'],
            TimeUnit::Minute => seq!['m'],
            TimeUnit::Hour => seq!['h'],
            TimeUnit::Day => seq!['d'],
            TimeUnit::Year => seq!['y'],
        }
    }

    /// The length of the unit in seconds, as a whole number and the power of
    /// ten that it is multiplied by. A year is 365.2422 days of 86 400 s.
    pub open spec fn seconds(self) -> (nat, int) {
        match self {
            TimeUnit::MicroSecond => (1, -6),
            TimeUnit::MilliSecond => (1, -3),
            TimeUnit::Second => (1, 0),
            TimeUnit::Minute => (6, 1),
            TimeUnit::Hour => (36, 2),
            TimeUnit::Day => (864, 2),
            TimeUnit::Year => (3155692608, -2),
        }
    }

    /// The length of the unit in seconds, as a whole number and the power of
    /// ten that it is multiplied by.
    fn factor(&self) -> (r: (u64, i128))
        ensures
            r.0 == self.seconds().0,
            r.1 == self.seconds().1,
            r.0 <= FACTOR_LIMIT,
    {
        match self {
            TimeUnit::MicroSecond => (1, -6),
            TimeUnit::MilliSecond => (1, -3),
            TimeUnit::Second => (1, 0),
            TimeUnit::Minute => (6, 1),
            TimeUnit::Hour => (36, 2),
            TimeUnit::Day => (864, 2),
            TimeUnit::Year => (3155692608, -2),
        }
    }

    /// The length of the unit in seconds, in canonical form.
    pub fn as_sec(&self) -> (r: Decimal)
        ensures
            r.wf(),
            r@.denotes(self.seconds().0, self.seconds().1),
    {
        let (coefficient, exponent) = self.factor();
        let one = Decimal::one();
        assert(1 * coefficient as nat == coefficient as nat);
        one.scaled(coefficient, exponent)
    }

    /// The code of the unit, by which it is shown.
    pub fn to_string(&self) -> (r: String)
        ensures
            r@ == self.code(),
    {
        String::from_str(self.code_str())
    }

    /// The code of the unit.
    fn code_str(&self) -> (r: &'static str)
        ensures
            r@ == self.code(),
    {
        proof {
            reveal_strlit("us");
            reveal_strlit("ms");
            reveal_strlit("s");
            reveal_strlit("m");
            reveal_strlit("h");
            reveal_strlit("d");
            reveal_strlit("y");
        }
        let r = match self {
            TimeUnit::MicroSecond => "us",
            TimeUnit::MilliSecond => "ms",
            TimeUnit::Second => "s",
            TimeUnit::Minute => "m",
            TimeUnit::Hour => "h",
            TimeUnit::Day => "d",
            TimeUnit::Year => "y",
        };
        assert(r@ =~= self.code());
        r
    }

    /// The unit that the code `s` names: one of `us`, `ms`, `s`, `m`, `h`,
    /// `d`, `y`.
    pub fn from_code(s: &str) -> (r: Option<TimeUnit>)
        ensures
            r == unit_of(s@),
    {
        let text = chars_of(s);
        let r = read_unit(&text, 0);
        assert(text@.skip(0) =~= s@);
        r
    }
}

/// The lengths of the units follow from one another: a minute is 60 seconds,
/// an hour 60 minutes, a day 24 hours, a year 365.2422 days, a millisecond a
/// thousandth of a second and a microsecond a thousandth of that.
pub proof fn lemma_unit_lengths()
    ensures
        TimeUnit::Second.seconds() == (1nat, 0int),
        TimeUnit::Minute.seconds().0 * 10 == 60,
        TimeUnit::Hour.seconds().0 * 100 == 60 * 60,
        TimeUnit::Day.seconds().0 * 100 == 24 * 60 * 60,
        TimeUnit::Year.seconds().0 * 100 == 3652422 * 86400,
        TimeUnit::Year.seconds().1 == -2 - 4 + 4,
        TimeUnit::MilliSecond.seconds() == (1nat, -3int),
        TimeUnit::MicroSecond.seconds() == (1nat, -6int),
{
}

/// The unit that the text `s` is the code of.
pub open spec fn unit_of(s: Seq<char>) -> Option<TimeUnit> {
    if s =~= TimeUnit::MicroSecond.code() {
        Some(TimeUnit::MicroSecond)
    } else if s =~= TimeUnit::MilliSecond.code() {
        Some(TimeUnit::MilliSecond)
    } else if s =~= TimeUnit::Second.code() {
        Some(TimeUnit::Second)
    } else if s =~= TimeUnit::Minute.code() {
        Some(TimeUnit::Minute)
    } else if s =~= TimeUnit::Hour.code() {
        Some(TimeUnit::Hour)
    } else if s =~= TimeUnit::Day.code() {
        Some(TimeUnit::Day)
    } else if s =~= TimeUnit::Year.code() {
        Some(TimeUnit::Year)
    } else {
        None
    }
}

/// Whether `c` is white space: a space, a tab, a line break, or another
/// character that Unicode lists as white space.
pub open spec fn is_gap(c: char) -> bool {
    let code = c as u32;
    ||| 0x09 <= code <= 0x0d
    ||| code == 0x20
    ||| code == 0x85
    ||| code == 0xa0
    ||| code == 0x1680
    ||| 0x2000 <= code <= 0x200a
    ||| code == 0x2028
    ||| code == 0x2029
    ||| code == 0x202f
    ||| code == 0x205f
    ||| code == 0x3000
}

/// Whether `c` is white space.
fn gap_char(c: char) -> (r: bool)
    ensures
        r == is_gap(c),
{
    let code: u32 = c as u32;
    (0x09 <= code && code <= 0x0d) || code == 0x20 || code == 0x85 || code == 0xa0 || code
        == 0x1680 || (0x2000 <= code && code <= 0x200a) || code == 0x2028 || code == 0x2029
        || code == 0x202f || code == 0x205f || code == 0x3000
}

/// The unit whose code is the rest of `text` from the place `from` on.
fn read_unit(text: &Vec<char>, from: usize) -> (r: Option<TimeUnit>)
    requires
        from <= text.len(),
    ensures
        r == unit_of(text@.skip(from as int)),
{
    let n = text.len();
    let ghost rest = text@.skip(from as int);
    if n - from == 1 {
        let c = text[from];
        assert(rest[0] == c);
        if c == 's' {
            assert(rest =~= seq!['s']);
            Some(TimeUnit::Second)
        } else if c == 'm' {
            assert(rest =~= seq!['m']);
            Some(TimeUnit::Minute)
        } else if c == 'h' {
            assert(rest =~= seq!['h']);
            Some(TimeUnit::Hour)
        } else if c == 'd' {
            assert(rest =~= seq!['d']);
            Some(TimeUnit::Day)
        } else if c == 'y' {
            assert(rest =~= seq!['y']);
            Some(TimeUnit::Year)
        } else {
            None
        }
    } else if n - from == 2 {
        let c = text[from];
        let d = text[from + 1];
        assert(rest[0] == c);
        assert(rest[1] == d);
        if c == 'u' && d == 's' {
            assert(rest =~= seq!['u', 's']);
            Some(TimeUnit::MicroSecond)
        } else if c == 'm' && d == 's' {
            assert(rest =~= seq!['m', 's']);
            Some(TimeUnit::MilliSecond)
        } else {
            None
        }
    } else {
        None
    }
}

/// What a [`HalfLife`] is: a number and the unit that it counts.
pub struct HalfLifeView {
    pub value: DecimalView,
    pub unit: TimeUnit,
}

/// The half-life that the text `s` writes: a number, then optionally one
/// character of white space, then the code of a unit, and nothing else. The
/// number is positive and in range.
pub open spec fn half_life_of(s: Seq<char>) -> Option<HalfLifeView> {
    match numeral_at(s) {
        Some(n) => {
            let unit_start = if n.end < s.len() && is_gap(s[n.end]) {
                n.end + 1
            } else {
                n.end
            };
            match (unit_of(s.skip(unit_start)), decimal_of_numeral(n)) {
                (Some(unit), Some(value)) => if value.digits.len() > 0 {
                    Some(HalfLifeView { value, unit })
                } else {
                    None
                },
                _ => None,
            }
        },
        None => None,
    }
}

/// `s` without `.0` at its end.
pub open spec fn without_point_zero(s: Seq<char>) -> Seq<char> {
    if s.len() >= 2 && s[s.len() - 2] == '.' && s[s.len() - 1] == '0' {
        s.take(s.len() - 2)
    } else {
        s
    }
}

/// A number and a unit as they are shown: the number without `.0` at its
/// end, a space, and the code of the unit.
pub open spec fn shown(number: Seq<char>, unit: TimeUnit) -> Seq<char> {
    without_point_zero(number) + seq![' '] + unit.code()
}

/// Shows a number that is written out already with a unit: `.0` at the end
/// of the number is left out, and a space stands before the code of the
/// unit.
pub fn show(number: &str, unit: TimeUnit) -> (r: String)
    ensures
        r@ == shown(number@, unit),
{
    let len = number.unicode_len();
    let whole = if len >= 2 && number.get_char(len - 2) == '.' && number.get_char(len - 1) == '0' {
        number.substring_char(0, len - 2)
    } else {
        number
    };
    assert(whole@ =~= without_point_zero(number@));
    let mut out = String::from_str(whole);
    proof {
        reveal_strlit(" ");
    }
    out.append(" ");
    out.append(unit.code_str());
    assert(out@ =~= shown(number@, unit));
    out
}

/// The time after which half of a quantity of a nuclide has decayed.
#[derive(Debug, PartialEq, Eq)]
pub struct HalfLife {
    value: Decimal,
    unit: TimeUnit,
}

impl View for HalfLife {
    type V = HalfLifeView;

    closed spec fn view(&self) -> HalfLifeView {
        HalfLifeView { value: self.value@, unit: self.unit }
    }
}

impl HalfLifeView {
    /// A half-life is a positive number in canonical form and in range.
    pub open spec fn valid(self) -> bool {
        &&& self.value.canonical()
        &&& self.value.digits.len() > 0
        &&& self.value.in_range()
    }

    /// The half-life as it is shown.
    pub open spec fn text(self) -> Seq<char> {
        shown(plain_text(self.value), self.unit)
    }
}

impl HalfLife {
    /// Every half-life is positive and in range.
    #[verifier::type_invariant]
    pub open spec fn wf(&self) -> bool {
        self@.valid()
    }

    /// The half-life of `value` units, where `value` is positive and in
    /// range.
    pub fn new(value: Decimal, unit: TimeUnit) -> (r: Option<HalfLife>)
        ensures
            r is Some <==> value@.digits.len() > 0 && value@.in_range(),
            r matches Some(h) ==> h.wf() && h@ == (HalfLifeView { value: value@, unit }),
    {
        proof {
            use_type_invariant(&value);
        }
        if value.is_zero() || !value.in_range() {
            None
        } else {
            Some(HalfLife { value, unit })
        }
    }

    /// The number of units.
    pub fn value(&self) -> (r: &Decimal)
        ensures
            r@ == self@.value,
    {
        &self.value
    }

    /// The unit.
    pub fn unit(&self) -> (r: TimeUnit)
        ensures
            r == self@.unit,
    {
        self.unit
    }

    /// Reads a half-life: a number, then optionally one character of white
    /// space, then the code of a unit. Any other text, and a number that is
    /// zero or out of range, is refused as [`Error::InvalidHalfLife`].
    #[verifier::rlimit(50)]
    pub fn from_str(s: &str) -> (r: Result<HalfLife, Error>)
        ensures
            match half_life_of(s@) {
                Some(v) => r matches Ok(h) && h@ == v && h.wf(),
                None => r matches Err(Error::InvalidHalfLife(t)) && t@ == s@,
            },
    {
        let text = chars_of(s);
        let n = text.len();
        let scan = match scan_number(&text) {
            Some(scan) => scan,
            None => {
                return Err(Error::InvalidHalfLife(String::from_str(s)));
            },
        };
        let unit_start = if scan.end < n && gap_char(text[scan.end]) {
            scan.end + 1
        } else {
            scan.end
        };
        let unit = match read_unit(&text, unit_start) {
            Some(unit) => unit,
            None => {
                return Err(Error::InvalidHalfLife(String::from_str(s)));
            },
        };
        let value = match Decimal::from_scan(&scan, Ghost(numeral_at(s@)->0)) {
            Some(value) => value,
            None => {
                return Err(Error::InvalidHalfLife(String::from_str(s)));
            },
        };
        if value.is_zero() {
            return Err(Error::InvalidHalfLife(String::from_str(s)));
        }
        Ok(HalfLife { value, unit })
    }

    /// The half-life in seconds: the number of units times the length of the
    /// unit, exactly. The result is in canonical form, of which a number has
    /// one, so it is the one decimal that is this product.
    pub fn as_sec(&self) -> (r: Decimal)
        ensures
            r.wf(),
            r@.denotes(
                self@.value.coefficient() * self@.unit.seconds().0,
                self@.value.exponent + self@.unit.seconds().1,
            ),
    {
        proof {
            use_type_invariant(self);
            lemma_range_magnitude(self@.value);
        }
        let (coefficient, exponent) = self.unit.factor();
        self.value.scaled(coefficient, exponent)
    }

    /// Shows the half-life: the number written out in full, a space, and the
    /// code of the unit. What is shown reads back as the same half-life.
    pub fn to_string(&self) -> (r: String)
        ensures
            r@ == self@.text(),
    {
        let number = self.value.to_string();
        show(number.as_str(), self.unit)
    }
}

impl Clone for HalfLife {
    /// A half-life of the same number of the same unit.
    fn clone(&self) -> (r: HalfLife)
        ensures
            r@ == self@,
    {
        proof {
            use_type_invariant(self);
        }
        HalfLife { value: self.value.clone(), unit: self.unit }
    }
}

impl std::str::FromStr for HalfLife {
    type Err = Error;

    /// Reads a half-life as [`HalfLife::from_str`] does: a number, then
    /// optionally one character of white space, then the code of a unit. Any
    /// other text, and a number that is zero or out of range, is refused as
    /// [`Error::InvalidHalfLife`].
    fn from_str(s: &str) -> (r: Result<HalfLife, Error>)
        ensures
            match half_life_of(s@) {
                Some(v) => r matches Ok(h) && h@ == v && h.wf(),
                None => r matches Err(Error::InvalidHalfLife(t)) && t@ == s@,
            },
    {
        HalfLife::from_str(s)
    }
}

} // verus!
