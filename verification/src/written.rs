//! How a number and a half-life are written, and that what is written is what
//! is read.

use vstd::prelude::*;
use crate::decimal::{
    all_digits, all_zero, canonical_of, decimal_of, digit_char, digit_chars,
    digits_value, lemma_strip_leading, lemma_trailing_zeros, plain_text, strip_leading,
    trailing_zeros, zeros, DecimalView,
};
use crate::half_life::{
    half_life_of, is_gap, shown, unit_of, without_point_zero, HalfLifeView, TimeUnit,
};
use crate::numeral::{
    digit_value, digit_values, digits_end, digits_only, has_char, is_digit, lemma_digits_end,
    lemma_run_of_digits, numeral_at, Numeral,
};

verus! {

/// The power of ten behind a number, as it is written: `e` or `E`, an
/// optional sign, and digits.
pub struct Power {
    pub marker: char,
    pub sign: Option<char>,
    pub digits: Seq<char>,
}

impl Power {
    pub open spec fn valid(self) -> bool {
        &&& self.marker == 'e' || self.marker == 'E'
        &&& self.sign matches Some(c) ==> c == '+' || c == '-'
        &&& self.digits.len() > 0
        &&& digits_only(self.digits)
    }

    pub open spec fn text(self) -> Seq<char> {
        match self.sign {
            Some(c) => seq![self.marker, c] + self.digits,
            None => seq![self.marker] + self.digits,
        }
    }

    pub open spec fn value(self) -> int {
        if self.sign == Some('-') {
            -(digits_value(digit_values(self.digits)) as int)
        } else {
            digits_value(digit_values(self.digits)) as int
        }
    }
}

/// A number as it is written: digits, optionally a point and further digits,
/// and optionally a power of ten.
pub struct WrittenNumber {
    pub whole: Seq<char>,
    pub fraction: Option<Seq<char>>,
    pub power: Option<Power>,
}

impl WrittenNumber {
    pub open spec fn valid(self) -> bool {
        &&& self.whole.len() > 0
        &&& digits_only(self.whole)
        &&& self.fraction matches Some(f) ==> digits_only(f)
        &&& self.power matches Some(p) ==> p.valid()
    }

    /// The digits behind the point.
    pub open spec fn places(self) -> Seq<char> {
        match self.fraction {
            Some(f) => f,
            None => Seq::empty(),
        }
    }

    pub open spec fn text(self) -> Seq<char> {
        self.whole + (match self.fraction {
            Some(f) => seq!['.'] + f,
            None => Seq::empty(),
        }) + (match self.power {
            Some(p) => p.text(),
            None => Seq::empty(),
        })
    }

    /// The digits of the number, before and behind the point.
    pub open spec fn digits(self) -> Seq<u8> {
        digit_values(self.whole + self.places())
    }

    /// The power of ten by which the number that the digits write is
    /// multiplied.
    pub open spec fn scale(self) -> int {
        (match self.power {
            Some(p) => p.value(),
            None => 0,
        }) - self.places().len()
    }

    /// The number in canonical form.
    pub open spec fn value(self) -> DecimalView {
        canonical_of(self.digits(), self.scale())
    }
}

/// A half-life as it is written: a number, optionally one character of white
/// space, and the code of a unit.
pub struct WrittenHalfLife {
    pub number: WrittenNumber,
    pub gap: Option<char>,
    pub unit: TimeUnit,
}

impl WrittenHalfLife {
    pub open spec fn valid(self) -> bool {
        &&& self.number.valid()
        &&& self.gap matches Some(c) ==> is_gap(c)
    }

    /// What stands behind the number.
    pub open spec fn tail(self) -> Seq<char> {
        (match self.gap {
            Some(c) => seq![c],
            None => Seq::empty(),
        }) + self.unit.code()
    }

    pub open spec fn text(self) -> Seq<char> {
        self.number.text() + self.tail()
    }
}

/// Whether a number can end before the text `rest`: `rest` is empty or
/// begins with a character that does not carry the number on.
pub open spec fn ends_number(rest: Seq<char>) -> bool {
    rest.len() > 0 ==> !is_digit(rest[0]) && rest[0] != '.' && rest[0] != 'e' && rest[0] != 'E'
}

/// The characters `0` to `9` are digits and write the digits 0 to 9.
pub proof fn lemma_digit_char(d: u8)
    requires
        d <= 9,
    ensures
        is_digit(digit_char(d)),
        digit_value(digit_char(d)) == d,
        digit_char(d) != '.',
        d != 0 ==> digit_char(d) != '0',
{
}

/// Digits that are written and read again are the same digits.
pub proof fn lemma_digit_chars(s: Seq<u8>)
    requires
        all_digits(s),
    ensures
        digits_only(digit_chars(s)),
        digit_values(digit_chars(s)) == s,
{
    assert forall|i: int| 0 <= i < s.len() implies is_digit(#[trigger] digit_chars(s)[i]) by {
        lemma_digit_char(s[i]);
    }
    assert forall|i: int| 0 <= i < s.len() implies #[trigger] digit_values(digit_chars(s))[i]
        == s[i] by {
        lemma_digit_char(s[i]);
    }
    assert(digit_values(digit_chars(s)) =~= s);
}

/// A number that is written at the beginning of a text, before something
/// that does not carry it on, is the number that the text begins with.
#[verifier::rlimit(50)]
pub proof fn lemma_written_number_is_read(w: WrittenNumber, rest: Seq<char>)
    requires
        w.valid(),
        ends_number(rest),
    ensures
        numeral_at(w.text() + rest) == Some(
            Numeral { digits: w.digits(), scale: w.scale(), end: w.text().len() as int },
        ),
{
    let point = match w.fraction {
        Some(f) => seq!['.'] + f,
        None => Seq::<char>::empty(),
    };
    let power = match w.power {
        Some(p) => p.text(),
        None => Seq::<char>::empty(),
    };
    let s = w.text() + rest;
    let a = w.whole.len() as int;
    let b = a + point.len();
    let c = b + power.len();
    assert(w.text() == w.whole + point + power);
    assert(s.len() == c + rest.len());
    assert forall|i: int| 0 <= i < a implies s[i] == w.whole[i] by {}
    assert forall|i: int| a <= i < b implies s[i] == point[i - a] by {}
    assert forall|i: int| b <= i < c implies s[i] == power[i - b] by {}
    assert forall|i: int| c <= i < s.len() implies s[i] == rest[i - c] by {}
    // What follows the digits before the point is no digit.
    if a < s.len() {
        if w.fraction is Some {
            assert(s[a] == point[0]);
        } else if w.power is Some {
            assert(s[a] == power[0]);
        } else {
            assert(s[a] == rest[0]);
        }
        assert(!is_digit(s[a]));
    }
    assert forall|i: int| 0 <= i < a implies is_digit(#[trigger] s[i]) by {
        assert(s[i] == w.whole[i]);
    }
    lemma_run_of_digits(s, 0, a);
    let fraction_start = if w.fraction is Some {
        a + 1
    } else {
        a
    };
    assert(has_char(s, a, '.') <==> w.fraction is Some) by {
        if a < s.len() {
            if w.fraction is Some {
                assert(s[a] == point[0]);
            } else if w.power is Some {
                assert(s[a] == power[0]);
            } else {
                assert(s[a] == rest[0]);
            }
        }
    }
    let places = w.places();
    assert(b == fraction_start + places.len());
    assert forall|i: int| fraction_start <= i < b implies is_digit(#[trigger] s[i]) by {
        assert(s[i] == point[i - a]);
        assert(point[i - a] == places[i - a - 1]);
    }
    if b < s.len() {
        if w.power is Some {
            assert(s[b] == power[0]);
        } else {
            assert(s[b] == rest[0]);
        }
        assert(!is_digit(s[b]));
    }
    lemma_run_of_digits(s, fraction_start, places.len() as int);
    assert(s.subrange(0, a) =~= w.whole);
    assert(s.subrange(fraction_start, b) =~= places) by {
        assert forall|i: int| 0 <= i < places.len() implies s.subrange(fraction_start, b)[i]
            == places[i] by {
            assert(s[fraction_start + i] == point[fraction_start + i - a]);
        }
    }
    match w.power {
        Some(p) => {
            assert(s[b] == power[0]);
            assert(power[0] == p.marker);
            let digits_start = if p.sign is Some {
                b + 2
            } else {
                b + 1
            };
            assert(c == digits_start + p.digits.len());
            assert(s[b + 1] == power[1]);
            match p.sign {
                Some(sign) => {
                    assert(power[1] == sign);
                },
                None => {
                    assert(power[1] == p.digits[0]);
                    assert(is_digit(p.digits[0]));
                },
            }
            assert(has_char(s, b + 1, '-') <==> p.sign == Some('-'));
            assert(has_char(s, b + 1, '-') || has_char(s, b + 1, '+') <==> p.sign is Some);
            assert forall|i: int| digits_start <= i < c implies is_digit(#[trigger] s[i]) by {
                assert(s[i] == power[i - b]);
                assert(power[i - b] == p.digits[i - digits_start]);
            }
            if c < s.len() {
                assert(s[c] == rest[0]);
            }
            lemma_run_of_digits(s, digits_start, p.digits.len() as int);
            assert(s.subrange(digits_start, c) =~= p.digits) by {
                assert forall|i: int| 0 <= i < p.digits.len() implies s.subrange(
                    digits_start,
                    c,
                )[i] == p.digits[i] by {
                    assert(s[digits_start + i] == power[digits_start + i - b]);
                }
            }
        },
        None => {
            if b < s.len() {
                assert(s[b] == rest[0]);
            }
            assert(!has_char(s, b, 'e') && !has_char(s, b, 'E'));
        },
    }
}

/// What a unit is shown by names that unit: the code of a unit reads back as
/// the unit. It begins with a letter that does not carry a number on and is
/// no white space.
pub proof fn lemma_unit_code(unit: TimeUnit)
    ensures
        unit_of(unit.code()) == Some(unit),
        unit.code().len() > 0,
        ends_number(unit.code()),
        !is_gap(unit.code()[0]),
{
    let code = unit.code();
    assert(seq!['u', 's'][0] == 'u');
    assert(seq!['m', 's'][0] == 'm');
    assert(seq!['m', 's'][1] == 's');
    assert(seq!['u', 's'][1] == 's');
    assert(seq!['s'][0] == 's');
    assert(seq!['m'][0] == 'm');
    assert(seq!['h'][0] == 'h');
    assert(seq!['d'][0] == 'd');
    assert(seq!['y'][0] == 'y');
}

/// Every half-life that is written as a number and the code of a unit, with
/// at most one character of white space between them, is read, and is read
/// as the number that was written, provided that the number is positive and
/// in range.
#[verifier::rlimit(50)]
pub proof fn lemma_written_half_life_is_read(w: WrittenHalfLife)
    requires
        w.valid(),
        w.number.value().digits.len() > 0,
        w.number.value().in_range(),
    ensures
        half_life_of(w.text()) == Some(HalfLifeView { value: w.number.value(), unit: w.unit }),
{
    let tail = w.tail();
    let code = w.unit.code();
    lemma_unit_code(w.unit);
    match w.gap {
        Some(c) => {
            assert(tail[0] == c);
        },
        None => {
            assert(tail =~= code);
        },
    }
    assert(ends_number(tail));
    lemma_written_number_is_read(w.number, tail);
    let s = w.text();
    let end = w.number.text().len() as int;
    assert(s[end] == tail[0]);
    let unit_start = if w.gap is Some {
        end + 1
    } else {
        end
    };
    assert(is_gap(s[end]) <==> w.gap is Some);
    assert(s.skip(unit_start) =~= code);
}

/// Every number that is written with digits, optionally a point and further
/// digits, and optionally a power of ten, is read as that number, provided
/// that it is zero or in range.
pub proof fn lemma_written_number_is_decimal(w: WrittenNumber)
    requires
        w.valid(),
        w.value().in_range(),
    ensures
        decimal_of(w.text()) == Some(w.value()),
{
    lemma_written_number_is_read(w, Seq::empty());
    assert(w.text() + Seq::<char>::empty() =~= w.text());
}

/// How [`plain_text`] writes the decimal `v`, part by part.
pub open spec fn plainly_written(v: DecimalView) -> WrittenNumber {
    let n = v.digits.len() as int;
    if n == 0 {
        WrittenNumber { whole: seq!['0'], fraction: None, power: None }
    } else if v.exponent >= 0 {
        WrittenNumber {
            whole: digit_chars(v.digits) + zeros(v.exponent as nat),
            fraction: None,
            power: None,
        }
    } else if -v.exponent < n {
        WrittenNumber {
            whole: digit_chars(v.digits.take(n + v.exponent)),
            fraction: Some(digit_chars(v.digits.skip(n + v.exponent))),
            power: None,
        }
    } else {
        WrittenNumber {
            whole: seq!['0'],
            fraction: Some(zeros((-v.exponent - n) as nat) + digit_chars(v.digits)),
            power: None,
        }
    }
}

/// Zeros are digits and write the digit 0.
proof fn lemma_zeros(n: nat)
    ensures
        digits_only(zeros(n)),
        all_zero(digit_values(zeros(n))),
        digit_values(zeros(n)).len() == n,
{
    assert forall|i: int| 0 <= i < n implies is_digit(#[trigger] zeros(n)[i]) by {}
    assert forall|i: int| 0 <= i < n implies #[trigger] digit_values(zeros(n))[i] == 0 by {}
}

/// Reading the characters of two texts after one another gives the digits of
/// the first and then those of the second.
proof fn lemma_digit_values_concat(a: Seq<char>, b: Seq<char>)
    ensures
        digit_values(a + b) == digit_values(a) + digit_values(b),
{
    assert(digit_values(a + b) =~= digit_values(a) + digit_values(b));
}

/// What [`lemma_plainly_written`] says, of the decimal zero.
#[verifier::rlimit(50)]
proof fn lemma_plain_zero(v: DecimalView)
    requires
        v.canonical(),
        v.digits.len() == 0,
    ensures
        plainly_written(v).valid(),
        plainly_written(v).text() == plain_text(v),
        plainly_written(v).value() == v,
{
    let w = plainly_written(v);
    assert(w.text() =~= plain_text(v));
    assert(w.whole + w.places() =~= seq!['0']);
    assert(w.digits() =~= seq![0u8]);
    let head = w.digits().take(1);
    assert forall|i: int| 0 <= i < head.len() implies #[trigger] head[i] == 0 by {}
    lemma_strip_leading(w.digits(), 1);
    assert(v.digits =~= Seq::<u8>::empty());
}

/// What [`lemma_plainly_written`] says, of a whole number.
#[verifier::rlimit(50)]
proof fn lemma_plain_whole(v: DecimalView)
    requires
        v.canonical(),
        v.digits.len() > 0,
        v.exponent >= 0,
    ensures
        plainly_written(v).valid(),
        plainly_written(v).text() == plain_text(v),
        plainly_written(v).value() == v,
        without_point_zero(plain_text(v)) == plain_text(v),
{
    let w = plainly_written(v);
    let n = v.digits.len() as int;
    let e = v.exponent as nat;
    let text = plain_text(v);
    lemma_digit_chars(v.digits);
    lemma_zeros(e);
    let tail = digit_values(zeros(e));
    assert(w.text() =~= text);
    assert(w.whole + w.places() =~= digit_chars(v.digits) + zeros(e));
    lemma_digit_values_concat(digit_chars(v.digits), zeros(e));
    let d = w.digits();
    assert(d == v.digits + tail);
    assert forall|i: int| 0 <= i < w.whole.len() implies is_digit(#[trigger] w.whole[i]) by {
        if i < n {
            assert(w.whole[i] == digit_chars(v.digits)[i]);
        } else {
            assert(w.whole[i] == zeros(e)[i - n]);
        }
    }
    assert(w.valid());
    assert(strip_leading(d) == d) by {
        lemma_strip_leading(d, 0);
        assert(d.skip(0) =~= d);
    }
    assert(trailing_zeros(d) == e) by {
        let zs = d.skip(n);
        assert forall|i: int| 0 <= i < zs.len() implies #[trigger] zs[i] == 0 by {
            assert(zs[i] == tail[i]);
        }
        assert(d[n - 1] == v.digits[n - 1]);
        lemma_trailing_zeros(d, n);
    }
    assert(d.take(d.len() - e) =~= v.digits);
    assert(w.value() == v);
    if text.len() >= 2 {
        assert(is_digit(text[text.len() - 2])) by {
            assert(text[text.len() - 2] == w.whole[text.len() - 2]);
        }
    }
}

/// What [`lemma_plainly_written`] says, of a number with digits before and
/// behind the point.
#[verifier::rlimit(50)]
proof fn lemma_plain_split(v: DecimalView)
    requires
        v.canonical(),
        v.digits.len() > 0,
        v.exponent < 0,
        -v.exponent < v.digits.len(),
    ensures
        plainly_written(v).valid(),
        plainly_written(v).text() == plain_text(v),
        plainly_written(v).value() == v,
        without_point_zero(plain_text(v)) == plain_text(v),
{
    let w = plainly_written(v);
    let n = v.digits.len() as int;
    let text = plain_text(v);
    let cut = n + v.exponent;
    let front = v.digits.take(cut);
    let back = v.digits.skip(cut);
    lemma_digit_chars(front);
    lemma_digit_chars(back);
    assert(w.text() =~= text);
    assert(w.valid());
    lemma_digit_values_concat(digit_chars(front), digit_chars(back));
    assert(front + back =~= v.digits);
    assert(w.digits() == v.digits);
    lemma_canonical_fixed(v);
    assert(text[text.len() - 1] == digit_chars(back)[back.len() - 1]);
    lemma_digit_char(v.digits[n - 1]);
}

/// What [`lemma_plainly_written`] says, of a number below one.
#[verifier::rlimit(50)]
proof fn lemma_plain_small(v: DecimalView)
    requires
        v.canonical(),
        v.digits.len() > 0,
        -v.exponent >= v.digits.len(),
    ensures
        plainly_written(v).valid(),
        plainly_written(v).text() == plain_text(v),
        plainly_written(v).value() == v,
        without_point_zero(plain_text(v)) == plain_text(v),
{
    let w = plainly_written(v);
    let n = v.digits.len() as int;
    let text = plain_text(v);
    let gap = (-v.exponent - n) as nat;
    lemma_digit_chars(v.digits);
    lemma_zeros(gap);
    let fraction = zeros(gap) + digit_chars(v.digits);
    assert(w.text() =~= text);
    assert forall|i: int| 0 <= i < fraction.len() implies is_digit(#[trigger] fraction[i]) by {
        if i < gap {
            assert(fraction[i] == zeros(gap)[i]);
        } else {
            assert(fraction[i] == digit_chars(v.digits)[i - gap]);
        }
    }
    assert(w.valid());
    lemma_digit_values_concat(seq!['0'], fraction);
    lemma_digit_values_concat(zeros(gap), digit_chars(v.digits));
    let d = w.digits();
    assert(d == digit_values(seq!['0']) + (digit_values(zeros(gap)) + v.digits));
    let k = 1 + gap as int;
    assert(strip_leading(d) == v.digits) by {
        let head = d.take(k);
        assert forall|i: int| 0 <= i < head.len() implies #[trigger] head[i] == 0 by {
            if i > 0 {
                assert(head[i] == digit_values(zeros(gap))[i - 1]);
            }
        }
        assert(d[k] == v.digits[0]);
        lemma_strip_leading(d, k);
        assert(d.skip(k) =~= v.digits);
    }
    assert(trailing_zeros(v.digits) == 0) by {
        lemma_trailing_zeros(v.digits, n);
    }
    assert(v.digits.take(n) =~= v.digits);
    assert(w.scale() == v.exponent);
    assert(w.value() == v);
    assert(text[text.len() - 1] == digit_chars(v.digits)[n - 1]);
    lemma_digit_char(v.digits[n - 1]);
}

/// Digits and an exponent that are in canonical form are their own
/// canonical form.
proof fn lemma_canonical_fixed(v: DecimalView)
    requires
        v.canonical(),
        v.digits.len() > 0,
    ensures
        canonical_of(v.digits, v.exponent) == v,
{
    lemma_strip_leading(v.digits, 0);
    assert(v.digits.skip(0) =~= v.digits);
    lemma_trailing_zeros(v.digits, v.digits.len() as int);
    assert(v.digits.take(v.digits.len() as int) =~= v.digits);
}

/// A decimal in canonical form is written by [`plain_text`] as a number
/// without a power of ten, which is that decimal again; and unless it is
/// zero, what is written does not end in `.0`.
pub proof fn lemma_plainly_written(v: DecimalView)
    requires
        v.canonical(),
    ensures
        plainly_written(v).valid(),
        plainly_written(v).text() == plain_text(v),
        plainly_written(v).value() == v,
        v.digits.len() > 0 ==> without_point_zero(plain_text(v)) == plain_text(v),
{
    if v.digits.len() == 0 {
        lemma_plain_zero(v);
    } else if v.exponent >= 0 {
        lemma_plain_whole(v);
    } else if -v.exponent < v.digits.len() {
        lemma_plain_split(v);
    } else {
        lemma_plain_small(v);
    }
}

/// A decimal that is written out in full reads back as the same decimal.
pub proof fn lemma_plain_text_reads_back(v: DecimalView)
    requires
        v.canonical(),
        v.in_range(),
    ensures
        decimal_of(plain_text(v)) == Some(v),
{
    lemma_plainly_written(v);
    lemma_written_number_is_decimal(plainly_written(v));
}

/// A half-life that is shown reads back as the same half-life.
pub proof fn lemma_shown_half_life_reads_back(h: HalfLifeView)
    requires
        h.valid(),
    ensures
        half_life_of(h.text()) == Some(h),
{
    lemma_plainly_written(h.value);
    let w = WrittenHalfLife { number: plainly_written(h.value), gap: Some(' '), unit: h.unit };
    assert(is_gap(' '));
    assert(w.tail() =~= seq![' '] + h.unit.code());
    assert(w.text() =~= h.text());
    lemma_written_half_life_is_read(w);
}

/// The parts of the number that the text `s` begins with.
pub open spec fn number_found(s: Seq<char>) -> WrittenNumber {
    let whole_end = digits_end(s, 0);
    let fraction_start = if has_char(s, whole_end, '.') {
        whole_end + 1
    } else {
        whole_end
    };
    let fraction_end = digits_end(s, fraction_start);
    let power_start = if has_char(s, fraction_end + 1, '-') || has_char(s, fraction_end + 1, '+') {
        fraction_end + 2
    } else {
        fraction_end + 1
    };
    WrittenNumber {
        whole: s.subrange(0, whole_end),
        fraction: if has_char(s, whole_end, '.') {
            Some(s.subrange(fraction_start, fraction_end))
        } else {
            None
        },
        power: if has_char(s, fraction_end, 'e') || has_char(s, fraction_end, 'E') {
            Some(
                Power {
                    marker: s[fraction_end],
                    sign: if power_start == fraction_end + 2 {
                        Some(s[fraction_end + 1])
                    } else {
                        None
                    },
                    digits: s.subrange(power_start, digits_end(s, power_start)),
                },
            )
        } else {
            None
        },
    }
}

/// A text begins with a number only if it begins with digits, optionally a
/// point and further digits, and optionally a power of ten: the number that
/// is read is written there, in these parts.
#[verifier::rlimit(50)]
pub proof fn lemma_read_number_is_written(s: Seq<char>)
    requires
        numeral_at(s) is Some,
    ensures
        number_found(s).valid(),
        0 < numeral_at(s)->0.end <= s.len(),
        number_found(s).text() == s.take(numeral_at(s)->0.end),
        number_found(s).digits() == numeral_at(s)->0.digits,
        number_found(s).scale() == numeral_at(s)->0.scale,
{
    let w = number_found(s);
    let n = numeral_at(s)->0;
    let a = digits_end(s, 0);
    lemma_digits_end(s, 0);
    let fs = if has_char(s, a, '.') {
        a + 1
    } else {
        a
    };
    let b = digits_end(s, fs);
    lemma_digits_end(s, fs);
    assert(w.whole + w.places() =~= s.subrange(0, a) + s.subrange(fs, b));
    if has_char(s, b, 'e') || has_char(s, b, 'E') {
        let ps = if has_char(s, b + 1, '-') || has_char(s, b + 1, '+') {
            b + 2
        } else {
            b + 1
        };
        if ps > s.len() {
            assert(digits_end(s, ps) == ps);
        }
        lemma_digits_end(s, ps);
        let p = w.power->0;
        assert(w.text() =~= s.take(n.end));
    } else {
        assert(w.text() =~= s.take(n.end));
    }
}

/// A text is the code of a unit only if it is one of the seven codes.
proof fn lemma_unit_of(s: Seq<char>)
    requires
        unit_of(s) is Some,
    ensures
        s == unit_of(s)->0.code(),
{
}

/// The parts of the half-life that the text `s` writes.
pub open spec fn half_life_found(s: Seq<char>) -> WrittenHalfLife {
    let end = numeral_at(s)->0.end;
    let gap = end < s.len() && is_gap(s[end]);
    WrittenHalfLife {
        number: number_found(s),
        gap: if gap {
            Some(s[end])
        } else {
            None
        },
        unit: unit_of(
            s.skip(
                if gap {
                    end + 1
                } else {
                    end
                },
            ),
        )->0,
    }
}

/// Only what is written as a half-life is read as one: a text that is read
/// is a number, optionally one character of white space, and the code of a
/// unit, the number is positive and in range, and what is read is that
/// number and that unit.
#[verifier::rlimit(50)]
pub proof fn lemma_read_half_life_is_written(s: Seq<char>)
    requires
        half_life_of(s) is Some,
    ensures
        half_life_found(s).valid(),
        half_life_found(s).text() == s,
        half_life_found(s).number.value().digits.len() > 0,
        half_life_found(s).number.value().in_range(),
        half_life_of(s) == Some(
            HalfLifeView {
                value: half_life_found(s).number.value(),
                unit: half_life_found(s).unit,
            },
        ),
{
    lemma_read_number_is_written(s);
    let w = half_life_found(s);
    let end = numeral_at(s)->0.end;
    let start = if end < s.len() && is_gap(s[end]) {
        end + 1
    } else {
        end
    };
    lemma_unit_of(s.skip(start));
    assert(w.text() =~= s);
}

} // verus!
