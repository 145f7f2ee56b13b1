//! Exact non-negative decimal numbers: a string of digits and a power of ten.
//!
//! Half-lives, branching fractions, energies and yields are decimal numbers in
//! the tables. They are kept exactly as written, so that unit conversion is an
//! exact product and a printed number reads back as the same number.

use vstd::prelude::*;
use vstd::string::StringExecFns;
use crate::error::Error;
use crate::numeral::{numeral_at, scan_number, Numeral, Scan, POWER_CAP};
use crate::order::{below, finite_limit, lemma_limits, lemma_lower_magnitude, positive_limit};
use crate::text::chars_of;

verus! {

/// Ten to the power `n`.
pub open spec fn pow10(n: nat) -> nat
    decreases n,
{
    if n == 0 {
        1
    } else {
        10 * pow10((n - 1) as nat)
    }
}

/// Whether every element of `s` is a decimal digit, 0 to 9.
pub open spec fn all_digits(s: Seq<u8>) -> bool {
    forall|i: int| 0 <= i < s.len() ==> s[i] <= 9
}

/// Whether every element of `s` is the digit 0.
pub open spec fn all_zero(s: Seq<u8>) -> bool {
    forall|i: int| 0 <= i < s.len() ==> s[i] == 0
}

/// The number that the digits `s` write, most significant digit first.
pub open spec fn digits_value(s: Seq<u8>) -> nat
    decreases s.len(),
{
    if s.len() == 0 {
        0
    } else {
        digits_value(s.drop_last()) * 10 + s.last() as nat
    }
}

/// The largest exponent, in absolute value, that a [`Decimal`] holds.
pub const EXPONENT_LIMIT: i128 = 0x1_0000_0000_0000_0000_0000_0000;

/// A power of ten is positive.
pub proof fn lemma_pow10_positive(n: nat)
    ensures
        pow10(n) > 0,
    decreases n,
{
    if n > 0 {
        lemma_pow10_positive((n - 1) as nat);
    }
}

/// Powers of ten multiply by adding their exponents.
pub proof fn lemma_pow10_sum(a: nat, b: nat)
    ensures
        pow10(a + b) == pow10(a) * pow10(b),
    decreases a,
{
    if a == 0 {
        assert(pow10(0) == 1);
    } else {
        lemma_pow10_sum((a - 1) as nat, b);
        assert(pow10(a + b) == 10 * pow10((a + b - 1) as nat));
        assert((a - 1) as nat + b == (a + b - 1) as nat);
        assert(10 * (pow10((a - 1) as nat) * pow10(b)) == (10 * pow10((a - 1) as nat)) * pow10(b))
            by (nonlinear_arith);
    }
}

/// Digits written after one another: the value of the first part moves up by
/// as many places as the second part has digits.
pub proof fn lemma_value_concat(a: Seq<u8>, b: Seq<u8>)
    ensures
        digits_value(a + b) == digits_value(a) * pow10(b.len()) + digits_value(b),
    decreases b.len(),
{
    if b.len() == 0 {
        assert(a + b =~= a);
        assert(digits_value(a) * 1 == digits_value(a)) by (nonlinear_arith);
    } else {
        let front = b.drop_last();
        lemma_value_concat(a, front);
        assert((a + b).drop_last() =~= a + front);
        assert((a + b).last() == b.last());
        let va = digits_value(a);
        let p = pow10(front.len());
        assert(pow10(b.len()) == 10 * p);
        assert((va * p + digits_value(front)) * 10 == va * (10 * p) + digits_value(front) * 10)
            by (nonlinear_arith);
    }
}

/// Zeros alone write the number zero.
pub proof fn lemma_value_zeros(s: Seq<u8>)
    requires
        all_zero(s),
    ensures
        digits_value(s) == 0,
    decreases s.len(),
{
    if s.len() > 0 {
        lemma_value_zeros(s.drop_last());
    }
}

/// A string of digits that holds a digit other than 0 writes a positive
/// number.
pub proof fn lemma_value_positive(s: Seq<u8>, i: int)
    requires
        0 <= i < s.len(),
        s[i] != 0,
    ensures
        digits_value(s) > 0,
    decreases s.len(),
{
    if i < s.len() - 1 {
        lemma_value_positive(s.drop_last(), i);
    }
}

/// What a [`Decimal`] is: the digits of its coefficient, most significant
/// first, and the power of ten that the coefficient is multiplied by.
pub struct DecimalView {
    pub digits: Seq<u8>,
    pub exponent: int,
}

impl DecimalView {
    /// The coefficient as a number.
    pub open spec fn coefficient(self) -> nat {
        digits_value(self.digits)
    }

    /// Whether there is no leading zero and no trailing zero, and zero itself
    /// is written with no digit and exponent 0.
    pub open spec fn normal(self) -> bool {
        &&& all_digits(self.digits)
        &&& self.digits.len() > 0 ==> self.digits.first() != 0 && self.digits.last() != 0
        &&& self.digits.len() == 0 ==> self.exponent == 0
    }

    /// The canonical form: no zero at either end, and an exponent that the
    /// type holds.
    pub open spec fn canonical(self) -> bool {
        &&& self.normal()
        &&& -EXPONENT_LIMIT <= self.exponent <= EXPONENT_LIMIT
    }

    /// Whether this decimal is the number `c` times ten to the power `e`.
    pub open spec fn denotes(self, c: nat, e: int) -> bool {
        if c == 0 {
            self.digits.len() == 0
        } else {
            &&& self.digits.len() > 0
            &&& e <= self.exponent
            &&& c == self.coefficient() * pow10((self.exponent - e) as nat)
        }
    }

    /// The place of the leading digit: the number lies between ten to this
    /// power and ten to the next. Of zero it is 0.
    pub open spec fn magnitude(self) -> int {
        if self.digits.len() == 0 {
            0
        } else {
            self.exponent + self.digits.len() - 1
        }
    }

    /// Whether the number is zero, or lies above the one limit and below the
    /// other: a binary floating-point number of 64 bits that is nearest to
    /// a number in range is zero only if the number is, and is not infinite.
    pub open spec fn in_range(self) -> bool {
        self.digits.len() == 0 || (below(positive_limit(), self) && below(self, finite_limit()))
    }
}

/// The decimal that the number `n` is, where it is in range.
pub open spec fn decimal_of_numeral(n: Numeral) -> Option<DecimalView> {
    if canonical_of(n.digits, n.scale).in_range() {
        Some(canonical_of(n.digits, n.scale))
    } else {
        None
    }
}

/// The decimal that the text `s` writes: `s` is a number from its first
/// character to its last, and the number is in range.
pub open spec fn decimal_of(s: Seq<char>) -> Option<DecimalView> {
    match numeral_at(s) {
        Some(n) => if n.end == s.len() {
            decimal_of_numeral(n)
        } else {
            None
        },
        None => None,
    }
}

/// The character that writes the digit `d`.
pub open spec fn digit_char(d: u8) -> char {
    if d == 0 {
        '0'
    } else if d == 1 {
        '1'
    } else if d == 2 {
        '2'
    } else if d == 3 {
        '3'
    } else if d == 4 {
        '4'
    } else if d == 5 {
        '5'
    } else if d == 6 {
        '6'
    } else if d == 7 {
        '7'
    } else if d == 8 {
        '8'
    } else {
        '9'
    }
}

/// The characters that write the digits `s`.
pub open spec fn digit_chars(s: Seq<u8>) -> Seq<char> {
    Seq::new(s.len(), |i: int| digit_char(s[i]))
}

/// `n` times the character `0`.
pub open spec fn zeros(n: nat) -> Seq<char> {
    Seq::new(n, |i: int| '0')
}

/// The decimal `v` written out in full, without a power of ten: the digits
/// with zeros behind them, or with a point among them, or behind `0.` and
/// zeros. Zero is written `0`.
pub open spec fn plain_text(v: DecimalView) -> Seq<char> {
    let n = v.digits.len() as int;
    if n == 0 {
        seq!['0']
    } else if v.exponent >= 0 {
        digit_chars(v.digits) + zeros(v.exponent as nat)
    } else if -v.exponent < n {
        digit_chars(v.digits.take(n + v.exponent)) + seq!['.'] + digit_chars(
            v.digits.skip(n + v.exponent),
        )
    } else {
        seq!['0', '.'] + zeros((-v.exponent - n) as nat) + digit_chars(v.digits)
    }
}

/// `s` without its leading zeros.
pub open spec fn strip_leading(s: Seq<u8>) -> Seq<u8>
    decreases s.len(),
{
    if s.len() > 0 && s.first() == 0 {
        strip_leading(s.drop_first())
    } else {
        s
    }
}

/// How many zeros `s` ends in.
pub open spec fn trailing_zeros(s: Seq<u8>) -> nat
    decreases s.len(),
{
    if s.len() > 0 && s.last() == 0 {
        1 + trailing_zeros(s.drop_last())
    } else {
        0
    }
}

/// The canonical decimal for the number that the digits `s` write, times ten
/// to the power `e`: leading zeros are dropped, and each trailing zero is
/// dropped and counted into the exponent.
pub open spec fn canonical_of(s: Seq<u8>, e: int) -> DecimalView {
    let t = strip_leading(s);
    let k = trailing_zeros(t);
    if t.len() == 0 {
        DecimalView { digits: Seq::empty(), exponent: 0 }
    } else {
        DecimalView { digits: t.take(t.len() - k), exponent: e + k }
    }
}

/// Leading zeros are the longest run of zeros that `s` starts with.
pub proof fn lemma_strip_leading(s: Seq<u8>, k: int)
    requires
        0 <= k <= s.len(),
        all_zero(s.take(k)),
        k < s.len() ==> s[k] != 0,
    ensures
        strip_leading(s) == s.skip(k),
    decreases k,
{
    if k == 0 {
        assert(s.skip(0) =~= s);
    } else {
        assert(s.take(k)[0] == 0);
        let rest = s.drop_first();
        let front = rest.take(k - 1);
        assert forall|i: int| 0 <= i < front.len() implies #[trigger] front[i] == 0 by {
            assert(s.take(k)[i + 1] == 0);
        }
        lemma_strip_leading(rest, k - 1);
        assert(rest.skip(k - 1) =~= s.skip(k));
    }
}

/// Trailing zeros are the longest run of zeros that `s` ends in.
pub proof fn lemma_trailing_zeros(s: Seq<u8>, j: int)
    requires
        0 <= j <= s.len(),
        all_zero(s.skip(j)),
        j > 0 ==> s[j - 1] != 0,
    ensures
        trailing_zeros(s) == s.len() - j,
    decreases s.len() - j,
{
    if j < s.len() {
        assert(s.skip(j)[s.len() - 1 - j] == 0);
        let front = s.drop_last();
        let tail = front.skip(j);
        assert forall|i: int| 0 <= i < tail.len() implies #[trigger] tail[i] == 0 by {
            assert(s.skip(j)[i] == 0);
        }
        lemma_trailing_zeros(front, j);
    }
}

/// The canonical decimal of some digits and an exponent is the same number,
/// has no zero at either end, and is canonical where the exponent is in reach.
#[verifier::rlimit(50)]
pub proof fn lemma_canonical_of(s: Seq<u8>, e: int)
    requires
        all_digits(s),
    ensures
        canonical_of(s, e).denotes(digits_value(s), e),
        canonical_of(s, e).normal(),
        canonical_of(s, e).digits.len() > 0 <==> strip_leading(s).len() > 0,
        canonical_of(s, e).digits.len() > 0 ==> canonical_of(s, e).magnitude() == e + strip_leading(
            s,
        ).len() - 1,
        e <= canonical_of(s, e).exponent <= e + s.len() || canonical_of(s, e).exponent == 0,
        -EXPONENT_LIMIT <= e && e + s.len() <= EXPONENT_LIMIT ==> canonical_of(s, e).canonical(),
{
    let k = leading_zeros(s);
    lemma_leading_zeros(s);
    lemma_strip_leading(s, k as int);
    let t = s.skip(k as int);
    assert(s =~= s.take(k as int) + t);
    lemma_value_concat(s.take(k as int), t);
    lemma_value_zeros(s.take(k as int));
    assert(0 * pow10(t.len()) == 0) by (nonlinear_arith);
    assert(digits_value(s) == digits_value(t));
    if t.len() == 0 {
    } else {
        let z = trailing_zeros(t);
        lemma_trailing_run(t);
        let j = t.len() - z;
        let kept = t.take(j);
        assert(t =~= kept + t.skip(j));
        lemma_value_concat(kept, t.skip(j));
        lemma_value_zeros(t.skip(j));
        assert(kept.first() == t[0]);
        assert(kept.last() == t[j - 1]);
        lemma_value_positive(kept, 0);
        lemma_pow10_positive(z);
        assert(digits_value(kept) * pow10(z) > 0) by (nonlinear_arith)
            requires
                digits_value(kept) > 0,
                pow10(z) > 0,
        ;
        assert((e + z) - e == z);
    }
}

/// How many zeros `s` starts with.
spec fn leading_zeros(s: Seq<u8>) -> nat
    decreases s.len(),
{
    if s.len() > 0 && s.first() == 0 {
        1 + leading_zeros(s.drop_first())
    } else {
        0
    }
}

/// The zeros that `s` starts with are zeros, and what follows them is none.
proof fn lemma_leading_zeros(s: Seq<u8>)
    ensures
        leading_zeros(s) <= s.len(),
        all_zero(s.take(leading_zeros(s) as int)),
        leading_zeros(s) < s.len() ==> s[leading_zeros(s) as int] != 0,
    decreases s.len(),
{
    if s.len() > 0 && s.first() == 0 {
        let rest = s.drop_first();
        lemma_leading_zeros(rest);
        let k = leading_zeros(rest) as int;
        let head = s.take(k + 1);
        assert forall|i: int| 0 <= i < head.len() implies #[trigger] head[i] == 0 by {
            if i > 0 {
                assert(rest.take(k)[i - 1] == 0);
            }
        }
    }
}

/// The zeros that `s` ends in are zeros, and what stands before them is none.
proof fn lemma_trailing_run(s: Seq<u8>)
    ensures
        trailing_zeros(s) <= s.len(),
        all_zero(s.skip(s.len() - trailing_zeros(s))),
        trailing_zeros(s) < s.len() ==> s[s.len() - trailing_zeros(s) - 1] != 0,
    decreases s.len(),
{
    if s.len() > 0 && s.last() == 0 {
        let front = s.drop_last();
        lemma_trailing_run(front);
        let z = trailing_zeros(front);
        let j = front.len() - z;
        let tail = s.skip(j);
        assert forall|i: int| 0 <= i < tail.len() implies #[trigger] tail[i] == 0 by {
            if i < front.len() - j {
                assert(front.skip(j)[i] == 0);
            }
        }
    }
}

/// The last digit of a number is what is left when it is divided by ten, and
/// the digits before it write the quotient.
proof fn lemma_value_last(s: Seq<u8>)
    requires
        all_digits(s),
        s.len() > 0,
    ensures
        digits_value(s) % 10 == s.last(),
        digits_value(s) / 10 == digits_value(s.drop_last()),
{
    assert(s.last() <= 9);
}

/// Two strings of digits without leading zeros that write the same number
/// are the same string.
#[verifier::rlimit(50)]
pub proof fn lemma_digits_unique(s: Seq<u8>, t: Seq<u8>)
    requires
        all_digits(s),
        all_digits(t),
        s.len() > 0 ==> s.first() != 0,
        t.len() > 0 ==> t.first() != 0,
        digits_value(s) == digits_value(t),
    ensures
        s == t,
    decreases s.len(),
{
    if s.len() == 0 {
        if t.len() > 0 {
            lemma_value_positive(t, 0);
        }
        assert(s =~= t);
    } else {
        lemma_value_positive(s, 0);
        if t.len() == 0 {
        } else {
            lemma_value_last(s);
            lemma_value_last(t);
            let s0 = s.drop_last();
            let t0 = t.drop_last();
            if s0.len() > 0 {
                assert(s0.first() == s.first());
            }
            if t0.len() > 0 {
                assert(t0.first() == t.first());
            }
            lemma_digits_unique(s0, t0);
            assert(s =~= s0.push(s.last()));
            assert(t =~= t0.push(t.last()));
        }
    }
}

/// A number has one canonical form: two canonical decimals that are the
/// same number are the same decimal.
pub proof fn lemma_canonical_unique(a: DecimalView, b: DecimalView, c: nat, e: int)
    requires
        a.canonical(),
        b.canonical(),
        a.denotes(c, e),
        b.denotes(c, e),
    ensures
        a == b,
{
    lemma_normal_unique(a, b, c, e);
}

/// Two decimals without a zero at either end that are the same number are
/// the same decimal, whatever their exponents.
#[verifier::rlimit(50)]
pub proof fn lemma_normal_unique(a: DecimalView, b: DecimalView, c: nat, e: int)
    requires
        a.normal(),
        b.normal(),
        a.denotes(c, e),
        b.denotes(c, e),
    ensures
        a == b,
{
    if c == 0 {
        assert(a.digits =~= b.digits);
    } else {
        lemma_value_last(a.digits);
        lemma_value_last(b.digits);
        let va = a.coefficient() as int;
        let vb = b.coefficient() as int;
        if a.exponent > b.exponent {
            lemma_more_zeros(vb, va, (b.exponent - e) as nat, (a.exponent - e) as nat);
        } else if b.exponent > a.exponent {
            lemma_more_zeros(va, vb, (a.exponent - e) as nat, (b.exponent - e) as nat);
        } else {
            let p = pow10((a.exponent - e) as nat) as int;
            lemma_pow10_positive((a.exponent - e) as nat);
            assert(va == vb) by (nonlinear_arith)
                requires
                    va * p == vb * p,
                    p > 0,
            ;
            lemma_digits_unique(a.digits, b.digits);
        }
    }
}

/// A number that, times a power of ten, is another number times a higher
/// power of ten is a multiple of ten.
proof fn lemma_more_zeros(x: int, y: int, low: nat, high: nat)
    requires
        low < high,
        x * pow10(low) == y * pow10(high),
    ensures
        x % 10 == 0,
{
    lemma_pow10_sum((high - low - 1) as nat, low);
    lemma_pow10_positive(low);
    let p = pow10(low) as int;
    let q = pow10((high - low - 1) as nat) as int;
    assert(pow10(high) == 10 * pow10((high - 1) as nat));
    assert(pow10((high - 1) as nat) == q * p);
    assert(x == y * (10 * q)) by (nonlinear_arith)
        requires
            x * p == y * (10 * (q * p)),
            p > 0,
    ;
    assert(x == 10 * (y * q)) by (nonlinear_arith)
        requires
            x == y * (10 * q),
    ;
}

/// A non-negative decimal number, held exactly.
#[derive(Debug, PartialEq, Eq)]
pub struct Decimal {
    digits: Vec<u8>,
    exponent: i128,
}

impl View for Decimal {
    type V = DecimalView;

    closed spec fn view(&self) -> DecimalView {
        DecimalView { digits: self.digits@, exponent: self.exponent as int }
    }
}

impl Decimal {
    /// Every decimal that the library hands out is in canonical form.
    #[verifier::type_invariant]
    pub open spec fn wf(&self) -> bool {
        self@.canonical()
    }

    /// The number zero.
    pub fn zero() -> (r: Decimal)
        ensures
            r.wf(),
            r@.digits.len() == 0,
            r@.exponent == 0,
    {
        Decimal { digits: Vec::new(), exponent: 0 }
    }

    /// Whether this is the number zero.
    pub fn is_zero(&self) -> (r: bool)
        ensures
            r == (self@.digits.len() == 0),
            r == (self@.coefficient() == 0),
    {
        proof {
            use_type_invariant(self);
            if self.digits@.len() > 0 {
                lemma_value_positive(self.digits@, 0);
            }
        }
        self.digits.len() == 0
    }

    /// The digits of the coefficient, most significant first.
    pub fn digits(&self) -> (r: &[u8])
        ensures
            r@ == self@.digits,
    {
        self.digits.as_slice()
    }

    /// The power of ten that the coefficient is multiplied by.
    pub fn exponent(&self) -> (r: i128)
        ensures
            r == self@.exponent,
    {
        self.exponent
    }
    /// The canonical decimal for the digits `digits`, most significant first,
    /// times ten to the power `exponent`.
    #[verifier::rlimit(50)]
    pub(crate) fn normalized(digits: &Vec<u8>, exponent: i128) -> (r: Decimal)
        requires
            all_digits(digits@),
            -EXPONENT_LIMIT <= exponent,
            exponent + digits.len() <= EXPONENT_LIMIT,
        ensures
            r.wf(),
            r@ == canonical_of(digits@, exponent as int),
    {
        let n = digits.len();
        let mut first: usize = 0;
        while first < n && digits[first] == 0
            invariant
                first <= n,
                n == digits.len(),
                all_zero(digits@.take(first as int)),
            decreases n - first,
        {
            let ghost head = digits@.take(first + 1);
            assert forall|i: int| 0 <= i < head.len() implies #[trigger] head[i] == 0 by {
                if i < first {
                    assert(digits@.take(first as int)[i] == 0);
                }
            }
            first += 1;
        }
        proof {
            lemma_strip_leading(digits@, first as int);
            lemma_canonical_of(digits@, exponent as int);
        }
        if first == n {
            let zero = Decimal::zero();
            assert(zero@.digits =~= Seq::<u8>::empty());
            return zero;
        }
        let mut last: usize = n;
        while digits[last - 1] == 0
            invariant
                first < last <= n,
                n == digits.len(),
                digits[first as int] != 0,
                all_zero(digits@.skip(last as int)),
            decreases last,
        {
            let ghost tail = digits@.skip(last - 1);
            assert forall|i: int| 0 <= i < tail.len() implies #[trigger] tail[i] == 0 by {
                if i > 0 {
                    assert(digits@.skip(last as int)[i - 1] == 0);
                }
            }
            last -= 1;
        }
        let ghost t = digits@.skip(first as int);
        proof {
            let tail = t.skip(last - first);
            assert forall|i: int| 0 <= i < tail.len() implies #[trigger] tail[i] == 0 by {
                assert(digits@.skip(last as int)[i] == 0);
            }
            assert(t[last - first - 1] == digits[last - 1]);
            lemma_trailing_zeros(t, last - first);
        }
        let mut kept: Vec<u8> = Vec::new();
        let mut i: usize = first;
        while i < last
            invariant
                first <= i <= last <= n,
                n == digits.len(),
                kept@ == digits@.subrange(first as int, i as int),
            decreases last - i,
        {
            kept.push(digits[i]);
            i += 1;
            assert(kept@ =~= digits@.subrange(first as int, i as int));
        }
        assert(kept@ =~= t.take(last - first));
        let shift: i128 = (n - last) as i128;
        Decimal { digits: kept, exponent: exponent + shift }
    }

    /// The decimal that a scanned number is, where it is in range.
    #[verifier::rlimit(50)]
    pub(crate) fn from_scan(scan: &Scan, Ghost(n): Ghost<Numeral>) -> (r: Option<Decimal>)
        requires
            scan.agrees(n),
        ensures
            r is Some <==> decimal_of_numeral(n) is Some,
            r matches Some(d) ==> d.wf() && Some(d@) == decimal_of_numeral(n),
    {
        let len = scan.digits.len();
        let mut lead: usize = 0;
        while lead < len && scan.digits[lead] == 0
            invariant
                lead <= len,
                len == scan.digits.len(),
                all_zero(scan.digits@.take(lead as int)),
            decreases len - lead,
        {
            let ghost head = scan.digits@.take(lead + 1);
            assert forall|i: int| 0 <= i < head.len() implies #[trigger] head[i] == 0 by {
                if i < lead {
                    assert(scan.digits@.take(lead as int)[i] == 0);
                }
            }
            lead += 1;
        }
        proof {
            lemma_strip_leading(scan.digits@, lead as int);
            lemma_canonical_of(n.digits, n.scale);
            lemma_limits();
            let v = canonical_of(n.digits, n.scale);
            if v.digits.len() > 0 {
                if v.magnitude() > 308 {
                    lemma_lower_magnitude(finite_limit(), v);
                }
                if v.magnitude() < -1075 {
                    lemma_lower_magnitude(v, positive_limit());
                }
            }
        }
        if lead == len {
            let zero = Decimal::zero();
            assert(zero@.digits =~= Seq::<u8>::empty());
            return Some(zero);
        }
        if scan.huge || scan.power > POWER_CAP {
            return None;
        }
        let power: i128 = scan.power as i128;
        let places: i128 = scan.places as i128;
        let scale: i128 = if scan.negative {
            -power - places
        } else {
            power - places
        };
        let magnitude: i128 = scale + (len - lead) as i128 - 1;
        if magnitude < -1075 || magnitude > 308 {
            return None;
        }
        let value = Decimal::normalized(&scan.digits, scale);
        if value.in_range() {
            Some(value)
        } else {
            None
        }
    }

    /// Reads a decimal number: one digit or more, then optionally a point and
    /// further digits, then optionally `e` or `E`, an optional sign and one
    /// digit or more. The whole text must be the number, and the number zero
    /// or in range; any other text is refused as [`Error::InvalidFloat`].
    pub fn parse(s: &str) -> (r: Result<Decimal, Error>)
        ensures
            match decimal_of(s@) {
                Some(v) => r matches Ok(d) && d@ == v && d.wf(),
                None => r matches Err(Error::InvalidFloat(t)) && t@ == s@,
            },
    {
        let text = chars_of(s);
        match scan_number(&text) {
            Some(scan) => {
                if scan.end == text.len() {
                    match Decimal::from_scan(&scan, Ghost(numeral_at(s@)->0)) {
                        Some(d) => Ok(d),
                        None => Err(Error::InvalidFloat(String::from_str(s))),
                    }
                } else {
                    Err(Error::InvalidFloat(String::from_str(s)))
                }
            },
            None => Err(Error::InvalidFloat(String::from_str(s))),
        }
    }

    /// Writes the number out in full, without a power of ten.
    #[verifier::rlimit(50)]
    pub fn to_string(&self) -> (r: String)
        ensures
            r@ == plain_text(self@),
    {
        proof {
            use_type_invariant(self);
        }
        let mut out = String::new();
        let n = self.digits.len();
        if n == 0 {
            push_digit(&mut out, 0);
            assert(out@ =~= seq!['0']);
            return out;
        }
        if self.exponent >= 0 {
            push_digits(&mut out, &self.digits, 0, n);
            push_zeros(&mut out, self.exponent as u128);
            assert(self.digits@.subrange(0, n as int) =~= self.digits@);
        } else if -self.exponent < n as i128 {
            let split: usize = (n as i128 + self.exponent) as usize;
            push_digits(&mut out, &self.digits, 0, split);
            proof {
                reveal_strlit(".");
            }
            out.append(".");
            push_digits(&mut out, &self.digits, split, n);
            assert(self.digits@.subrange(0, split as int) =~= self.digits@.take(split as int));
            assert(self.digits@.subrange(split as int, n as int) =~= self.digits@.skip(
                split as int,
            ));
            assert(out@ =~= plain_text(self@));
        } else {
            proof {
                reveal_strlit("0.");
            }
            out.append("0.");
            push_zeros(&mut out, (-self.exponent - n as i128) as u128);
            push_digits(&mut out, &self.digits, 0, n);
            assert(self.digits@.subrange(0, n as int) =~= self.digits@);
            assert(out@ =~= plain_text(self@));
        }
        out
    }
    /// The number one.
    pub(crate) fn one() -> (r: Decimal)
        ensures
            r.wf(),
            r@.digits == seq![1u8],
            r@.exponent == 0,
            r@.coefficient() == 1,
    {
        let mut digits: Vec<u8> = Vec::new();
        digits.push(1);
        proof {
            assert(digits@ =~= seq![1u8]);
            lemma_value_single(1);
        }
        Decimal { digits, exponent: 0 }
    }

    /// Whether the number is zero, or lies above the one limit and below the
    /// other.
    pub fn in_range(&self) -> (r: bool)
        ensures
            r == self@.in_range(),
    {
        if self.is_zero() {
            true
        } else {
            let low = Decimal::positive_limit();
            let high = Decimal::finite_limit();
            low.lt(self) && self.lt(&high)
        }
    }

    /// This number times `factor` times ten to the power `shift`.
    pub(crate) fn scaled(&self, factor: u64, shift: i128) -> (r: Decimal)
        requires
            factor <= FACTOR_LIMIT,
            -SCALE_LIMIT <= self@.magnitude() + shift <= SCALE_LIMIT,
        ensures
            r.wf(),
            r@.denotes(self@.coefficient() * factor as nat, self@.exponent + shift),
    {
        proof {
            use_type_invariant(self);
        }
        let n = self.digits.len();
        assert(self@.magnitude() == if n == 0 {
            0
        } else {
            self.exponent + n - 1
        });
        let product = times(&self.digits, factor);
        proof {
            lemma_canonical_of(product@, self.exponent + shift);
        }
        Decimal::normalized(&product, self.exponent + shift)
    }
}

impl Clone for Decimal {
    /// A decimal that is the same number.
    fn clone(&self) -> (r: Decimal)
        ensures
            r@ == self@,
    {
        proof {
            use_type_invariant(self);
        }
        let digits = self.digits.clone();
        assert(digits@ =~= self.digits@);
        Decimal { digits, exponent: self.exponent }
    }
}

/// Writes the digit `d` at the end of `out`.
fn push_digit(out: &mut String, d: u8)
    requires
        d <= 9,
    ensures
        final(out)@ == old(out)@.push(digit_char(d)),
{
    proof {
        reveal_strlit("0");
        reveal_strlit("1");
        reveal_strlit("2");
        reveal_strlit("3");
        reveal_strlit("4");
        reveal_strlit("5");
        reveal_strlit("6");
        reveal_strlit("7");
        reveal_strlit("8");
        reveal_strlit("9");
    }
    let digit: &str = if d == 0 {
        "0"
    } else if d == 1 {
        "1"
    } else if d == 2 {
        "2"
    } else if d == 3 {
        "3"
    } else if d == 4 {
        "4"
    } else if d == 5 {
        "5"
    } else if d == 6 {
        "6"
    } else if d == 7 {
        "7"
    } else if d == 8 {
        "8"
    } else {
        "9"
    };
    assert(digit@ =~= seq![digit_char(d)]);
    out.append(digit);
    assert(out@ =~= old(out)@.push(digit_char(d)));
}

/// Writes the digits of `digits` from the place `from` up to `to` at the end
/// of `out`.
pub(crate) fn push_digits(out: &mut String, digits: &Vec<u8>, from: usize, to: usize)
    requires
        from <= to <= digits.len(),
        all_digits(digits@),
    ensures
        final(out)@ == old(out)@ + digit_chars(digits@.subrange(from as int, to as int)),
{
    let mut i: usize = from;
    assert(out@ =~= old(out)@ + digit_chars(digits@.subrange(from as int, from as int)));
    while i < to
        invariant
            from <= i <= to <= digits.len(),
            all_digits(digits@),
            out@ == old(out)@ + digit_chars(digits@.subrange(from as int, i as int)),
        decreases to - i,
    {
        push_digit(out, digits[i]);
        i += 1;
        assert(out@ =~= old(out)@ + digit_chars(digits@.subrange(from as int, i as int)));
    }
}

/// Writes `count` zeros at the end of `out`.
fn push_zeros(out: &mut String, count: u128)
    ensures
        final(out)@ == old(out)@ + zeros(count as nat),
{
    let mut i: u128 = 0;
    assert(out@ =~= old(out)@ + zeros(0));
    while i < count
        invariant
            i <= count,
            out@ == old(out)@ + zeros(i as nat),
        decreases count - i,
    {
        push_digit(out, 0);
        i += 1;
        assert(out@ =~= old(out)@ + zeros(i as nat));
    }
}

/// The largest exponent, in absolute value, of a product that [`Decimal::scaled`]
/// forms.
pub(crate) const SCALE_LIMIT: i128 = 0x1_0000_0000_0000_0000_0000;

/// The largest factor that [`times`] takes.
pub(crate) const FACTOR_LIMIT: u64 = 0xffff_ffff;

/// One digit writes itself.
proof fn lemma_value_single(d: u8)
    ensures
        digits_value(seq![d]) == d,
{
    reveal_with_fuel(digits_value, 2);
    assert(seq![d].drop_last() =~= Seq::<u8>::empty());
}

/// The digits of the number that `digits` write, times `factor`.
#[verifier::rlimit(50)]
pub(crate) fn times(digits: &Vec<u8>, factor: u64) -> (r: Vec<u8>)
    requires
        all_digits(digits@),
        factor <= FACTOR_LIMIT,
    ensures
        all_digits(r@),
        digits_value(r@) == digits_value(digits@) * factor as nat,
{
    let n = digits.len();
    let mut out: Vec<u8> = Vec::new();
    let mut carry: u64 = 0;
    let mut i: usize = n;
    proof {
        assert(digits@.skip(n as int) =~= Seq::<u8>::empty());
        assert(0 * factor as nat == 0) by (nonlinear_arith);
        assert(0 * pow10(0) == 0) by (nonlinear_arith);
    }
    while i > 0
        invariant
            i <= n,
            n == digits.len(),
            all_digits(digits@),
            all_digits(out@),
            factor <= FACTOR_LIMIT,
            carry <= factor,
            out.len() == n - i,
            digits_value(out@) + carry * pow10(out@.len()) == digits_value(
                digits@.skip(i as int),
            ) * factor,
        decreases i,
    {
        let d = digits[i - 1];
        assert(d <= 9);
        assert(d * factor <= 9 * 0xffff_ffff) by (nonlinear_arith)
            requires
                d <= 9,
                factor <= 0xffff_ffff,
        ;
        let t: u64 = d as u64 * factor + carry;
        let low: u8 = (t % 10) as u8;
        let ghost before = out@;
        let ghost p = pow10(before.len());
        out.insert(0, low);
        proof {
            assert(out@ =~= seq![low] + before);
            lemma_value_concat(seq![low], before);
            lemma_value_single(low);
            let rest = digits@.skip(i as int);
            assert(digits@.skip(i - 1) =~= seq![d] + rest);
            lemma_value_concat(seq![d], rest);
            lemma_value_single(d);
            assert(pow10(out@.len()) == 10 * p);
            assert(rest.len() == n - i);
            let vb = digits_value(before) as int;
            let vr = digits_value(rest) as int;
            let pr = pow10(rest.len()) as int;
            let c = carry as int;
            let f = factor as int;
            let q = (t / 10) as int;
            assert(t == q * 10 + low);
            assert(low * p + vb + q * (10 * p) == (d * p + vr) * f) by (nonlinear_arith)
                requires
                    vb + c * p == vr * f,
                    d * f + c == q * 10 + low,
            ;
            assert(pr == p);
            assert(q <= f) by (nonlinear_arith)
                requires
                    d * f + c == q * 10 + low,
                    d <= 9,
                    c <= f,
                    0 <= low,
                    0 <= f,
            ;
            assert forall|k: int| 0 <= k < out@.len() implies #[trigger] out@[k] <= 9 by {
                if k > 0 {
                    assert(out@[k] == before[k - 1]);
                }
            }
        }
        carry = t / 10;
        i -= 1;
    }
    assert(digits@.skip(0) =~= digits@);
    while carry > 0
        invariant
            all_digits(out@),
            digits_value(out@) + carry * pow10(out@.len()) == digits_value(digits@) * factor,
        decreases carry,
    {
        let low: u8 = (carry % 10) as u8;
        let ghost before = out@;
        let ghost p = pow10(before.len());
        out.insert(0, low);
        proof {
            assert(out@ =~= seq![low] + before);
            lemma_value_concat(seq![low], before);
            lemma_value_single(low);
            assert(pow10(out@.len()) == 10 * p);
            let vb = digits_value(before) as int;
            let c = carry as int;
            let q = (carry / 10) as int;
            let total = digits_value(digits@) * factor;
            assert(low * p + vb + q * (10 * p) == total) by (nonlinear_arith)
                requires
                    vb + c * p == total,
                    c == q * 10 + low,
            ;
            assert forall|k: int| 0 <= k < out@.len() implies #[trigger] out@[k] <= 9 by {
                if k > 0 {
                    assert(out@[k] == before[k - 1]);
                }
            }
        }
        carry = carry / 10;
    }
    assert(0 * pow10(out@.len()) == 0) by (nonlinear_arith);
    out
}

} // verus!
