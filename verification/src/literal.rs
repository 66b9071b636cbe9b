use vstd::prelude::*;
use num::rational::Ratio;
use num_bigint::BigInt;

verus! {

// ---------------------------------------------------------------------------
// Mathematical model of exact rationals.
//
// A rational value is modelled as a numerator/denominator pair of unbounded
// integers in lowest terms with a positive denominator, which is exactly the
// representation that `num::rational::Ratio` maintains for every value it
// hands out.
// ---------------------------------------------------------------------------

/// Model of one exact rational: numerator `n` over denominator `d`.
pub ghost struct RatV {
    pub n: int,
    pub d: int,
}

/// Model of one exact complex value: real and imaginary part, both rational.
pub ghost struct CpxV {
    pub re: RatV,
    pub im: RatV,
}

/// Absolute value on unbounded integers.
pub open spec fn iabs(n: int) -> nat {
    if n >= 0 {
        n as nat
    } else {
        (-n) as nat
    }
}

/// Greatest common divisor, by Euclid's algorithm.
pub open spec fn gcd_n(a: nat, b: nat) -> nat
    decreases b,
{
    if b == 0 {
        a
    } else {
        gcd_n(b, a % b)
    }
}

/// The canonical (lowest terms, positive denominator) pair for `n / d`.
/// Total: the denominator `0`, which no rational has, is mapped to zero.
/// The final guard restates that a nonzero value keeps a nonzero numerator
/// (the divisor divides `n` exactly), so a zero numerator always comes with
/// denominator one.
pub open spec fn rat_norm_v(n: int, d: int) -> RatV {
    if d == 0 || n == 0 {
        RatV { n: 0, d: 1 }
    } else {
        let g = gcd_n(iabs(n), iabs(d)) as int;
        let res = if d > 0 {
            RatV { n: n / g, d: d / g }
        } else {
            RatV { n: (-n) / g, d: (-d) / g }
        };
        if res.n == 0 {
            RatV { n: 0, d: 1 }
        } else {
            res
        }
    }
}

/// A pair is in canonical form: positive denominator, lowest terms.
pub open spec fn rat_reduced(a: RatV) -> bool {
    a.d > 0 && gcd_n(iabs(a.n), a.d as nat) == 1
}

pub open spec fn rat_zero_v() -> RatV {
    RatV { n: 0, d: 1 }
}

pub open spec fn rat_one_v() -> RatV {
    RatV { n: 1, d: 1 }
}

/// Sum of two rationals, in canonical form.
pub open spec fn rat_add_v(a: RatV, b: RatV) -> RatV {
    rat_norm_v(a.n * b.d + b.n * a.d, a.d * b.d)
}

/// Difference of two rationals, in canonical form.
pub open spec fn rat_sub_v(a: RatV, b: RatV) -> RatV {
    rat_norm_v(a.n * b.d - b.n * a.d, a.d * b.d)
}

/// Product of two rationals, in canonical form.
pub open spec fn rat_mul_v(a: RatV, b: RatV) -> RatV {
    rat_norm_v(a.n * b.n, a.d * b.d)
}

/// Absolute value of a canonical rational.
pub open spec fn rat_abs_v(a: RatV) -> RatV {
    RatV { n: iabs(a.n) as int, d: a.d }
}

/// Reciprocal of a canonical rational. Total: zero is mapped to zero.
pub open spec fn rat_recip_v(a: RatV) -> RatV {
    if a.n > 0 {
        RatV { n: a.d, d: a.n }
    } else if a.n < 0 {
        RatV { n: -a.d, d: -a.n }
    } else {
        rat_zero_v()
    }
}

/// A zero value is carried only by the canonical zero pair. Every rational
/// this library constructs satisfies this: inputs are reduced, and computed
/// values come out of `rat_norm_v`.
pub open spec fn zero_canonical_rat(v: RatV) -> bool {
    v.n == 0 ==> v == rat_zero_v()
}

pub open spec fn zero_canonical_cpx(v: CpxV) -> bool {
    zero_canonical_rat(v.re) && zero_canonical_rat(v.im)
}

pub proof fn lemma_cpx_mul_zero_canonical(a: CpxV, b: CpxV)
    ensures
        zero_canonical_cpx(cpx_mul_v(a, b)),
        zero_canonical_cpx(cpx_add_v(a, b)),
{
}

pub proof fn lemma_cpx_recip_zero_canonical(a: CpxV)
    ensures
        zero_canonical_cpx(cpx_recip_v(a)),
{
}

pub proof fn lemma_cpx_pow_zero_canonical(v: CpxV, k: nat)
    requires
        zero_canonical_cpx(v),
    ensures
        zero_canonical_cpx(cpx_pow_v(v, k)),
    decreases k,
{
    if k > 1 {
        lemma_cpx_pow_zero_canonical(v, (k - 1) as nat);
        lemma_cpx_mul_zero_canonical(cpx_pow_v(v, (k - 1) as nat), v);
    }
}

// ---------------------------------------------------------------------------
// The exact rational type, backed by `num`'s arbitrary-precision `Ratio`.
// ---------------------------------------------------------------------------

#[verifier::external_type_specification]
#[verifier::external_body]
#[verifier::reject_recursive_types(T)]
pub struct ExRatio<T>(Ratio<T>);

#[verifier::external_type_specification]
#[verifier::external_body]
pub struct ExBigInt(BigInt);

/// The numerator that a `Ratio` holds, as an unbounded integer.
pub uninterp spec fn rat_numer_of(r: Ratio<BigInt>) -> int;

/// The denominator that a `Ratio` holds, as an unbounded integer.
pub uninterp spec fn rat_denom_of(r: Ratio<BigInt>) -> int;

/// An exact arbitrary-precision rational number.
///
/// Every `Num` is kept in canonical form: lowest terms, positive denominator.
/// `Ratio` itself maintains this for every value produced by its constructors
/// and arithmetic; `Num` never calls the one constructor that does not.
#[derive(Debug)]
pub struct Num {
    r: Ratio<BigInt>,
}

impl View for Num {
    type V = RatV;

    closed spec fn view(&self) -> RatV {
        RatV { n: rat_numer_of(self.r), d: rat_denom_of(self.r) }
    }
}

/// Relies on `Ratio::clone` (derived), which copies both parts.
#[verifier::external_body]
fn ratio_dup(x: &Num) -> (r: Num)
    ensures
        rat_numer_of(r.r) == rat_numer_of(x.r),
        rat_denom_of(r.r) == rat_denom_of(x.r),
{
    Num { r: x.r.clone() }
}

impl Num {
    #[verifier::type_invariant]
    pub closed spec fn inv(self) -> bool {
        rat_reduced(self@)
    }
}

/// Builds the rational `n / 1`.
///
/// Relies on `Ratio::from_integer`, which pairs the numerator with
/// denominator one; `BigInt::from` converts the machine integer.
#[verifier::external_body]
pub fn new_integer(n: isize) -> (r: Num)
    ensures
        r@ == (RatV { n: n as int, d: 1 }),
{
    Num { r: Ratio::from_integer(BigInt::from(n)) }
}

/// Builds the rational `numer / denom` in lowest terms.
///
/// Relies on `Ratio::new`, which reduces by the greatest common divisor and
/// keeps the denominator positive; it panics on a zero denominator, which the
/// precondition rules out. `BigInt::from` converts the machine integers.
#[verifier::external_body]
pub fn new_number(numer: isize, denom: isize) -> (r: Num)
    requires
        denom != 0,
    ensures
        r@ == rat_norm_v(numer as int, denom as int),
{
    Num { r: Ratio::new(BigInt::from(numer), BigInt::from(denom)) }
}

impl Num {
    /// The rational zero.
    pub fn zero() -> (r: Num)
        ensures
            r@ == rat_zero_v(),
    {
        new_integer(0)
    }

    /// The rational one.
    pub fn one() -> (r: Num)
        ensures
            r@ == rat_one_v(),
    {
        new_integer(1)
    }

    /// An identical copy.
    pub fn dup(&self) -> (r: Num)
        ensures
            r@ == self@,
    {
        ratio_dup(self)
    }

    /// Sum. Relies on `Add for Ratio`, which reduces its result to canonical
    /// form through `Ratio::new`.
    #[verifier::external_body]
    pub fn plus(&self, other: &Num) -> (r: Num)
        ensures
            r@ == rat_add_v(self@, other@),
    {
        Num { r: &self.r + &other.r }
    }

    /// Difference. Relies on `Sub for Ratio`, which reduces its result to
    /// canonical form through `Ratio::new`.
    #[verifier::external_body]
    pub fn minus(&self, other: &Num) -> (r: Num)
        ensures
            r@ == rat_sub_v(self@, other@),
    {
        Num { r: &self.r - &other.r }
    }

    /// Product. Relies on `Mul for Ratio`, which reduces its result to
    /// canonical form through `Ratio::new`.
    #[verifier::external_body]
    pub fn times(&self, other: &Num) -> (r: Num)
        ensures
            r@ == rat_mul_v(self@, other@),
    {
        Num { r: &self.r * &other.r }
    }

    /// Reciprocal of a nonzero rational.
    ///
    /// Relies on `Ratio::recip`, which swaps the two parts and moves the sign
    /// to the numerator; it panics on zero, which the precondition rules out.
    #[verifier::external_body]
    pub fn recip(&self) -> (r: Num)
        requires
            self@.n != 0,
        ensures
            r@ == rat_recip_v(self@),
    {
        Num { r: self.r.recip() }
    }

    /// Absolute value. Relies on `Signed::abs` for `Ratio`, which negates the
    /// numerator of a negative value and copies any other.
    #[verifier::external_body]
    pub fn abs_val(&self) -> (r: Num)
        ensures
            r@ == rat_abs_v(self@),
    {
        Num { r: num::traits::Signed::abs(&self.r) }
    }

    /// Whether the value is negative. Relies on `Signed::is_negative` for
    /// `Ratio`, which on a positive denominator tests the numerator's sign.
    #[verifier::external_body]
    pub fn is_negative(&self) -> (r: bool)
        ensures
            r == (self@.n < 0),
    {
        num::traits::Signed::is_negative(&self.r)
    }

    /// Whether the value is zero. Relies on `Zero::is_zero` for `Ratio`,
    /// which tests the numerator against zero.
    #[verifier::external_body]
    pub fn is_zero(&self) -> (r: bool)
        ensures
            r == (self@.n == 0),
    {
        num::traits::Zero::is_zero(&self.r)
    }

    /// Whether the value is one. Relies on `One::is_one` for `Ratio`, which
    /// compares numerator and denominator.
    #[verifier::external_body]
    pub fn is_one(&self) -> (r: bool)
        ensures
            r == (self@.n == self@.d),
    {
        num::traits::One::is_one(&self.r)
    }

    /// Whether the value is an integer. Relies on `Ratio::is_integer`, which
    /// tests the denominator against one.
    #[verifier::external_body]
    pub fn is_integer(&self) -> (r: bool)
        ensures
            r == (self@.d == 1),
    {
        self.r.is_integer()
    }

    /// The numerator as a machine-sized unsigned integer, if it fits.
    ///
    /// Relies on `Ratio::numer` and `ToPrimitive::to_usize` for `BigInt`,
    /// which converts exactly when the value lies in `usize`'s range.
    #[verifier::external_body]
    pub fn numer_to_usize(&self) -> (r: Option<usize>)
        ensures
            match r {
                Some(k) => 0 <= self@.n <= usize::MAX && k == self@.n,
                None => !(0 <= self@.n <= usize::MAX),
            },
    {
        num_traits::cast::ToPrimitive::to_usize(self.r.numer())
    }

    /// The unit fraction `1 / d` for this value's denominator `d`.
    ///
    /// Relies on `Ratio::denom`, `Ratio::from_integer` and `Ratio::recip`;
    /// the denominator is always positive, so the reciprocal cannot panic and
    /// the result is already canonical.
    #[verifier::external_body]
    pub fn denom_unit_fraction(&self) -> (r: Num)
        ensures
            r@ == (RatV { n: 1, d: self@.d }),
    {
        Num { r: Ratio::from_integer(self.r.denom().clone()).recip() }
    }
}

impl Num {
    /// Relies on `PartialEq for Ratio`, which compares the two values as
    /// rationals; on values in canonical form that coincides with comparing
    /// both parts.
    #[verifier::external_body]
    fn ratio_eq(&self, other: &Num) -> (r: bool)
        ensures
            r == (self@ == other@),
    {
        self.r == other.r
    }
}

impl PartialEq for Num {
    fn eq(&self, other: &Num) -> bool {
        self.ratio_eq(other)
    }
}

impl vstd::std_specs::cmp::PartialEqSpecImpl for Num {
    open spec fn obeys_eq_spec() -> bool {
        true
    }

    open spec fn eq_spec(&self, other: &Num) -> bool {
        self@ == other@
    }
}

// ---------------------------------------------------------------------------
// Exact complex values: two rationals. All operations are verified against
// the rational primitives above.
// ---------------------------------------------------------------------------

pub open spec fn cpx_zero_v() -> CpxV {
    CpxV { re: rat_zero_v(), im: rat_zero_v() }
}

pub open spec fn cpx_one_v() -> CpxV {
    CpxV { re: rat_one_v(), im: rat_zero_v() }
}

/// Whether a complex value is zero, read off the numerators.
pub open spec fn cpx_is_zero_v(v: CpxV) -> bool {
    v.re.n == 0 && v.im.n == 0
}

/// Whether a complex value is one, read off the parts.
pub open spec fn cpx_is_one_v(v: CpxV) -> bool {
    v.re.n == v.re.d && v.im.n == 0
}

/// Componentwise sum.
pub open spec fn cpx_add_v(a: CpxV, b: CpxV) -> CpxV {
    CpxV { re: rat_add_v(a.re, b.re), im: rat_add_v(a.im, b.im) }
}

/// Complex product: `(a + bi)(c + di) = (ac - bd) + (ad + bc)i`.
pub open spec fn cpx_mul_v(a: CpxV, b: CpxV) -> CpxV {
    CpxV {
        re: rat_sub_v(rat_mul_v(a.re, b.re), rat_mul_v(a.im, b.im)),
        im: rat_add_v(rat_mul_v(a.re, b.im), rat_mul_v(a.im, b.re)),
    }
}

/// Complex reciprocal: the conjugate over the squared magnitude.
/// Total: zero is mapped to zero.
pub open spec fn cpx_recip_v(a: CpxV) -> CpxV {
    let sq = rat_add_v(rat_mul_v(a.re, a.re), rat_mul_v(a.im, a.im));
    if sq.n == 0 {
        cpx_zero_v()
    } else {
        let inv = rat_recip_v(sq);
        CpxV {
            re: rat_mul_v(a.re, inv),
            im: rat_mul_v(rat_sub_v(rat_zero_v(), a.im), inv),
        }
    }
}

/// Integer power by repeated multiplication, with `v` itself for exponent one.
pub open spec fn cpx_pow_v(v: CpxV, k: nat) -> CpxV
    decreases k,
{
    if k == 0 {
        cpx_one_v()
    } else if k == 1 {
        v
    } else {
        cpx_mul_v(cpx_pow_v(v, (k - 1) as nat), v)
    }
}

/// An exact complex number: real and imaginary part, both exact rationals.
#[derive(Debug)]
pub struct Complex {
    pub re: Num,
    pub im: Num,
}

impl View for Complex {
    type V = CpxV;

    open spec fn view(&self) -> CpxV {
        CpxV { re: self.re@, im: self.im@ }
    }
}

impl Complex {
    pub fn new(re: Num, im: Num) -> (r: Complex)
        ensures
            r@ == (CpxV { re: re@, im: im@ }),
    {
        Complex { re, im }
    }

    /// A real value: zero imaginary part.
    pub fn from_real(re: Num) -> (r: Complex)
        ensures
            r@ == (CpxV { re: re@, im: rat_zero_v() }),
    {
        Complex { re, im: Num::zero() }
    }

    pub fn zero() -> (r: Complex)
        ensures
            r@ == cpx_zero_v(),
    {
        Complex { re: Num::zero(), im: Num::zero() }
    }

    pub fn one() -> (r: Complex)
        ensures
            r@ == cpx_one_v(),
    {
        Complex { re: Num::one(), im: Num::zero() }
    }

    pub fn dup(&self) -> (r: Complex)
        ensures
            r@ == self@,
    {
        Complex { re: self.re.dup(), im: self.im.dup() }
    }

    pub fn is_zero(&self) -> (r: bool)
        ensures
            r == cpx_is_zero_v(self@),
    {
        self.re.is_zero() && self.im.is_zero()
    }

    pub fn is_one(&self) -> (r: bool)
        ensures
            r == cpx_is_one_v(self@),
    {
        self.re.is_one() && self.im.is_zero()
    }

    pub fn plus(&self, other: &Complex) -> (r: Complex)
        ensures
            r@ == cpx_add_v(self@, other@),
    {
        Complex { re: self.re.plus(&other.re), im: self.im.plus(&other.im) }
    }

    pub fn times(&self, other: &Complex) -> (r: Complex)
        ensures
            r@ == cpx_mul_v(self@, other@),
    {
        Complex {
            re: self.re.times(&other.re).minus(&self.im.times(&other.im)),
            im: self.re.times(&other.im).plus(&self.im.times(&other.re)),
        }
    }

    /// Reciprocal; zero is mapped to zero.
    pub fn recip(&self) -> (r: Complex)
        ensures
            r@ == cpx_recip_v(self@),
    {
        let sq = self.re.times(&self.re).plus(&self.im.times(&self.im));
        if sq.is_zero() {
            Complex::zero()
        } else {
            let inv = sq.recip();
            Complex {
                re: self.re.times(&inv),
                im: Num::zero().minus(&self.im).times(&inv),
            }
        }
    }

    /// Integer power by repeated exact multiplication.
    pub fn int_pow(&self, k: usize) -> (r: Complex)
        ensures
            r@ == cpx_pow_v(self@, k as nat),
    {
        if k == 0 {
            Complex::one()
        } else {
            let mut acc = self.dup();
            let mut i: usize = 1;
            while i < k
                invariant
                    1 <= i <= k,
                    acc@ == cpx_pow_v(self@, i as nat),
                decreases k - i,
            {
                acc = acc.times(self);
                i = i + 1;
            }
            acc
        }
    }
}

impl PartialEq for Complex {
    fn eq(&self, other: &Complex) -> bool {
        let same = self.re == other.re && self.im == other.im;
        proof {
            if same {
                assert(self@ == other@);
            }
        }
        same
    }
}

impl vstd::std_specs::cmp::PartialEqSpecImpl for Complex {
    open spec fn obeys_eq_spec() -> bool {
        true
    }

    open spec fn eq_spec(&self, other: &Complex) -> bool {
        self@ == other@
    }
}

/// The decimal digit character for `n` in `0 ..= 9`.
pub open spec fn digit_char(n: int) -> char {
    if n == 0 {
        '0'
    } else if n == 1 {
        '1'
    } else if n == 2 {
        '2'
    } else if n == 3 {
        '3'
    } else if n == 4 {
        '4'
    } else if n == 5 {
        '5'
    } else if n == 6 {
        '6'
    } else if n == 7 {
        '7'
    } else if n == 8 {
        '8'
    } else {
        '9'
    }
}

/// The decimal digits of a non-negative integer, most significant first,
/// without leading zeros.
pub open spec fn dec_str(n: nat) -> Seq<char>
    decreases n,
{
    if n < 10 {
        seq![digit_char(n as int)]
    } else {
        dec_str(n / 10).push(digit_char((n % 10) as int))
    }
}

/// The decimal rendering of an integer: a leading minus for negatives.
pub open spec fn int_str(n: int) -> Seq<char> {
    if n < 0 {
        seq!['-'] + dec_str((-n) as nat)
    } else {
        dec_str(n as nat)
    }
}

/// The rendering of a rational: the numerator alone for integers, else
/// `numerator/denominator`.
pub open spec fn rat_str_v(v: RatV) -> Seq<char> {
    if v.d == 1 {
        int_str(v.n)
    } else {
        int_str(v.n) + seq!['/'] + int_str(v.d)
    }
}

/// The rendering of a complex literal: the real part alone when the
/// imaginary part is zero, else `re+imi`.
pub open spec fn cpx_str_v(v: CpxV) -> Seq<char> {
    if v.im.n == 0 {
        rat_str_v(v.re)
    } else {
        rat_str_v(v.re) + seq!['+'] + rat_str_v(v.im) + seq!['i']
    }
}


impl Num {
    /// The decimal rendering of this rational.
    ///
    /// Relies on `Display` for `Ratio` and for `BigInt`: decimal digits
    /// without leading zeros, a leading minus for a negative value, and
    /// `numer/denom` exactly when the denominator is not one.
    #[verifier::external_body]
    pub fn render(&self) -> (r: String)
        ensures
            r@ == rat_str_v(self@),
    {
        format!("{}", self.r)
    }
}

impl Complex {
    /// The rendering of this literal.
    pub fn render(&self) -> (r: String)
        ensures
            r@ == cpx_str_v(self@),
    {
        if self.im.is_zero() {
            self.re.render()
        } else {
            proof {
                reveal_strlit("+");
                reveal_strlit("i");
            }
            let mut s = self.re.render();
            s.append("+");
            s.append(self.im.render().as_str());
            s.append("i");
            proof {
                assert(s@ =~= cpx_str_v(self@));
            }
            s
        }
    }
}

} // verus!
