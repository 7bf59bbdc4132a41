//! Exact base-10 fixed-point numbers.
//!
//! A [`Decimal`] is a 96-bit signed integer mantissa together with a scale
//! between 0 and 28; its numeric value is `mantissa / 10^scale`. The
//! arithmetic itself is performed by the `rust_decimal` crate behind trusted
//! wrappers; this module states over the mathematical model [`DecV`] what
//! each operation returns, exactly where the outside source shows an exact
//! result, and under a named, uninterpreted result where it rounds.

use vstd::prelude::*;

verus! {

/// Mathematical model of a decimal: the numeric value is `m / 10^e`.
pub struct DecV {
    /// The integer mantissa.
    pub m: int,
    /// The scale: how many fractional digits the mantissa carries.
    pub e: nat,
}

/// The largest mantissa magnitude a decimal can carry: `2^96 - 1`.
pub open spec fn dec_max_mantissa() -> int {
    79228162514264337593543950335
}

/// The largest scale a decimal can carry.
pub open spec fn dec_max_scale() -> nat {
    28
}

/// A model value that a real decimal can represent.
pub open spec fn dec_wf(v: DecV) -> bool {
    &&& -dec_max_mantissa() <= v.m <= dec_max_mantissa()
    &&& v.e <= dec_max_scale()
}

pub open spec fn pow10(e: nat) -> int
    decreases e,
{
    if e == 0 {
        1
    } else {
        10 * pow10((e - 1) as nat)
    }
}

pub open spec fn int_abs(x: int) -> int {
    if x >= 0 {
        x
    } else {
        -x
    }
}

pub proof fn lemma_pow10_pos(e: nat)
    ensures
        pow10(e) >= 1,
    decreases e,
{
    if e > 0 {
        lemma_pow10_pos((e - 1) as nat);
    }
}

pub proof fn lemma_pow10_mono(e1: nat, e2: nat)
    requires
        e1 <= e2,
    ensures
        pow10(e1) <= pow10(e2),
    decreases e2,
{
    if e1 < e2 {
        lemma_pow10_mono(e1, (e2 - 1) as nat);
        lemma_pow10_pos((e2 - 1) as nat);
    }
}

/// Integer division truncated toward zero, as the decimal layer truncates.
pub open spec fn tdiv(a: int, b: int) -> int {
    if a >= 0 {
        a / b
    } else {
        -((-a) / b)
    }
}

/// Numeric equality of two model values: `a.m / 10^a.e == b.m / 10^b.e`.
pub open spec fn dec_num_eq(a: DecV, b: DecV) -> bool {
    a.m * pow10(b.e) == b.m * pow10(a.e)
}

/// Numeric strict order of two model values.
pub open spec fn dec_num_lt(a: DecV, b: DecV) -> bool {
    a.m * pow10(b.e) < b.m * pow10(a.e)
}

/// Numeric non-strict order of two model values.
pub open spec fn dec_num_le(a: DecV, b: DecV) -> bool {
    a.m * pow10(b.e) <= b.m * pow10(a.e)
}

/// The common scale at which two decimals are aligned before adding.
pub open spec fn dec_common_scale(a: DecV, b: DecV) -> nat {
    if a.e >= b.e {
        a.e
    } else {
        b.e
    }
}

/// The mantissa of `v` rescaled up to scale `s` (meaningful for `s >= v.e`).
pub open spec fn dec_rescaled(v: DecV, s: nat) -> int {
    v.m * pow10((s - v.e) as nat)
}

/// The exact sum of two decimals at their common scale.
pub open spec fn dec_add_exact(a: DecV, b: DecV) -> DecV {
    let s = dec_common_scale(a, b);
    DecV { m: dec_rescaled(a, s) + dec_rescaled(b, s), e: s }
}

/// The exact difference of two decimals at their common scale.
pub open spec fn dec_sub_exact(a: DecV, b: DecV) -> DecV {
    let s = dec_common_scale(a, b);
    DecV { m: dec_rescaled(a, s) - dec_rescaled(b, s), e: s }
}

/// Whether both mantissas, rescaled to the common scale, and the given
/// result mantissa stay within the 96-bit limit, so that the outside
/// addition takes its exact path.
pub open spec fn dec_add_fits(a: DecV, b: DecV, result_m: int) -> bool {
    let s = dec_common_scale(a, b);
    &&& int_abs(dec_rescaled(a, s)) <= dec_max_mantissa()
    &&& int_abs(dec_rescaled(b, s)) <= dec_max_mantissa()
    &&& int_abs(result_m) <= dec_max_mantissa()
}

pub uninterp spec fn dec_add_raw(a: DecV, b: DecV) -> Option<DecV>;

/// What `rust_decimal`'s checked addition returns. A zero operand hands the
/// other operand back unchanged; when the aligned mantissas and their sum
/// fit in 96 bits the sum is exact at the common scale; otherwise the
/// result is the named, rounded-or-overflowed one.
pub open spec fn dec_add_of(a: DecV, b: DecV) -> Option<DecV> {
    if a.m == 0 {
        Some(b)
    } else if b.m == 0 {
        Some(a)
    } else if dec_add_fits(a, b, dec_add_exact(a, b).m) {
        Some(dec_add_exact(a, b))
    } else {
        dec_add_raw(a, b)
    }
}

pub uninterp spec fn dec_sub_raw(a: DecV, b: DecV) -> Option<DecV>;

/// What `rust_decimal`'s checked subtraction returns; the zero and exact
/// cases mirror those of addition.
pub open spec fn dec_sub_of(a: DecV, b: DecV) -> Option<DecV> {
    if a.m == 0 {
        Some(DecV { m: -b.m, e: b.e })
    } else if b.m == 0 {
        Some(a)
    } else if dec_add_fits(a, b, dec_sub_exact(a, b).m) {
        Some(dec_sub_exact(a, b))
    } else {
        dec_sub_raw(a, b)
    }
}

pub uninterp spec fn dec_mul_raw(a: DecV, b: DecV) -> Option<DecV>;

/// What `rust_decimal`'s checked multiplication returns. A zero operand
/// gives the canonical zero; when the product mantissa fits in 96 bits and
/// the scales sum to at most 28 the product is exact; otherwise the result
/// is the named, rounded-or-overflowed one.
pub open spec fn dec_mul_of(a: DecV, b: DecV) -> Option<DecV> {
    if a.m == 0 || b.m == 0 {
        Some(DecV { m: 0, e: 0 })
    } else if a.e + b.e <= dec_max_scale() && int_abs(a.m * b.m) <= dec_max_mantissa() {
        Some(DecV { m: a.m * b.m, e: a.e + b.e })
    } else {
        dec_mul_raw(a, b)
    }
}

pub uninterp spec fn dec_div_raw(a: DecV, b: DecV) -> Option<DecV>;

/// What `rust_decimal`'s checked division returns: `None` on a zero
/// divisor, and otherwise the named full-precision quotient, which is
/// `None` exactly when the quotient overflows.
pub open spec fn dec_div_of(a: DecV, b: DecV) -> Option<DecV> {
    if b.m == 0 {
        None
    } else {
        dec_div_raw(a, b)
    }
}

pub uninterp spec fn dec_rem_raw(a: DecV, b: DecV) -> Option<DecV>;

/// What `rust_decimal`'s checked remainder returns: `None` on a zero
/// divisor, the canonical zero for a zero dividend, and otherwise the named
/// remainder of the truncated division.
pub open spec fn dec_rem_of(a: DecV, b: DecV) -> Option<DecV> {
    if b.m == 0 {
        None
    } else if a.m == 0 {
        Some(DecV { m: 0, e: 0 })
    } else {
        dec_rem_raw(a, b)
    }
}

/// What truncation toward zero returns: the integer part at scale 0.
pub open spec fn dec_trunc_of(v: DecV) -> DecV {
    DecV { m: tdiv(v.m, pow10(v.e)), e: 0 }
}

/// What conversion to `i64` returns: the value truncated toward zero when
/// that integer fits, and `None` otherwise.
pub open spec fn dec_to_i64_of(v: DecV) -> Option<i64> {
    let t = tdiv(v.m, pow10(v.e));
    if i64::MIN <= t <= i64::MAX {
        Some(t as i64)
    } else {
        None
    }
}

pub uninterp spec fn dec_parse_raw(s: Seq<char>) -> Option<DecV>;

pub uninterp spec fn dec_str_raw(v: DecV) -> Seq<char>;

/// An exact decimal number: mantissa `m` (at most 96 bits in magnitude)
/// and scale `e` (at most 28); the value is `m / 10^e`.
#[derive(Clone, Copy, Debug)]
pub struct Decimal {
    m: i128,
    e: u32,
}

impl View for Decimal {
    type V = DecV;

    closed spec fn view(&self) -> DecV {
        DecV { m: self.m as int, e: self.e as nat }
    }
}

impl Decimal {
    #[verifier::type_invariant]
    spec fn inv(self) -> bool {
        dec_wf(self@)
    }

    /// The decimal `num / 10^scale`.
    pub fn new(num: i64, scale: u32) -> (r: Decimal)
        requires
            scale <= dec_max_scale(),
        ensures
            r@ == (DecV { m: num as int, e: scale as nat }),
    {
        Decimal { m: num as i128, e: scale }
    }

    /// The decimal `num / 10^scale` for a mantissa beyond the `i64` range.
    pub fn from_i128_with_scale(num: i128, scale: u32) -> (r: Decimal)
        requires
            -dec_max_mantissa() <= num <= dec_max_mantissa(),
            scale <= dec_max_scale(),
        ensures
            r@ == (DecV { m: num as int, e: scale as nat }),
    {
        Decimal { m: num, e: scale }
    }

    /// The decimal zero.
    pub fn zero() -> (r: Decimal)
        ensures
            r@ == (DecV { m: 0, e: 0 }),
    {
        Decimal { m: 0, e: 0 }
    }

    /// The mantissa of this decimal.
    pub fn mantissa(&self) -> (r: i128)
        ensures
            r == self@.m,
    {
        self.m
    }

    /// The scale of this decimal.
    pub fn scale(&self) -> (r: u32)
        ensures
            r == self@.e,
    {
        self.e
    }

    /// The negation of this decimal: same scale, negated mantissa.
    pub fn neg(&self) -> (r: Decimal)
        ensures
            r@ == (DecV { m: -self@.m, e: self@.e }),
    {
        proof {
            use_type_invariant(self);
        }
        Decimal { m: -self.m, e: self.e }
    }

    /// The absolute value of this decimal: same scale, mantissa magnitude.
    pub fn abs(&self) -> (r: Decimal)
        ensures
            r@ == (DecV { m: int_abs(self@.m), e: self@.e }),
    {
        proof {
            use_type_invariant(self);
        }
        if self.m < 0 {
            Decimal { m: -self.m, e: self.e }
        } else {
            Decimal { m: self.m, e: self.e }
        }
    }

    /// Relies on `rust_decimal::Decimal::checked_add`; converts through
    /// `from_i128_with_scale`, `mantissa` and `scale`.
    #[verifier::external_body]
    pub(crate) fn checked_add(&self, other: &Decimal) -> (r: Option<Decimal>)
        ensures
            r is Some <==> dec_add_raw(self@, other@) is Some,
            r matches Some(d) ==> d@ == dec_add_raw(self@, other@)->0,
            r is Some <==> dec_add_of(self@, other@) is Some,
            r matches Some(d) ==> d@ == dec_add_of(self@, other@)->0,
    {
        let a = rust_decimal::Decimal::from_i128_with_scale(self.m, self.e);
        let b = rust_decimal::Decimal::from_i128_with_scale(other.m, other.e);
        a.checked_add(b).map(|d| Decimal { m: d.mantissa(), e: d.scale() })
    }

    /// Relies on `rust_decimal::Decimal::checked_sub`; converts through
    /// `from_i128_with_scale`, `mantissa` and `scale`.
    #[verifier::external_body]
    pub(crate) fn checked_sub(&self, other: &Decimal) -> (r: Option<Decimal>)
        ensures
            r is Some <==> dec_sub_raw(self@, other@) is Some,
            r matches Some(d) ==> d@ == dec_sub_raw(self@, other@)->0,
            r is Some <==> dec_sub_of(self@, other@) is Some,
            r matches Some(d) ==> d@ == dec_sub_of(self@, other@)->0,
    {
        let a = rust_decimal::Decimal::from_i128_with_scale(self.m, self.e);
        let b = rust_decimal::Decimal::from_i128_with_scale(other.m, other.e);
        a.checked_sub(b).map(|d| Decimal { m: d.mantissa(), e: d.scale() })
    }

    /// Relies on `rust_decimal::Decimal::checked_mul`; converts through
    /// `from_i128_with_scale`, `mantissa` and `scale`.
    #[verifier::external_body]
    pub(crate) fn checked_mul(&self, other: &Decimal) -> (r: Option<Decimal>)
        ensures
            r is Some <==> dec_mul_raw(self@, other@) is Some,
            r matches Some(d) ==> d@ == dec_mul_raw(self@, other@)->0,
            r is Some <==> dec_mul_of(self@, other@) is Some,
            r matches Some(d) ==> d@ == dec_mul_of(self@, other@)->0,
    {
        let a = rust_decimal::Decimal::from_i128_with_scale(self.m, self.e);
        let b = rust_decimal::Decimal::from_i128_with_scale(other.m, other.e);
        a.checked_mul(b).map(|d| Decimal { m: d.mantissa(), e: d.scale() })
    }

    /// Relies on `rust_decimal::Decimal::checked_div`; converts through
    /// `from_i128_with_scale`, `mantissa` and `scale`.
    #[verifier::external_body]
    pub(crate) fn checked_div(&self, other: &Decimal) -> (r: Option<Decimal>)
        ensures
            r is Some <==> dec_div_raw(self@, other@) is Some,
            r matches Some(d) ==> d@ == dec_div_raw(self@, other@)->0,
            r is Some <==> dec_div_of(self@, other@) is Some,
            r matches Some(d) ==> d@ == dec_div_of(self@, other@)->0,
    {
        let a = rust_decimal::Decimal::from_i128_with_scale(self.m, self.e);
        let b = rust_decimal::Decimal::from_i128_with_scale(other.m, other.e);
        a.checked_div(b).map(|d| Decimal { m: d.mantissa(), e: d.scale() })
    }

    /// Relies on `rust_decimal::Decimal::checked_rem`; converts through
    /// `from_i128_with_scale`, `mantissa` and `scale`.
    #[verifier::external_body]
    pub(crate) fn checked_rem(&self, other: &Decimal) -> (r: Option<Decimal>)
        ensures
            r is Some <==> dec_rem_raw(self@, other@) is Some,
            r matches Some(d) ==> d@ == dec_rem_raw(self@, other@)->0,
            r is Some <==> dec_rem_of(self@, other@) is Some,
            r matches Some(d) ==> d@ == dec_rem_of(self@, other@)->0,
    {
        let a = rust_decimal::Decimal::from_i128_with_scale(self.m, self.e);
        let b = rust_decimal::Decimal::from_i128_with_scale(other.m, other.e);
        a.checked_rem(b).map(|d| Decimal { m: d.mantissa(), e: d.scale() })
    }

    /// Relies on `rust_decimal::Decimal::trunc`: the integer part, truncated
    /// toward zero, at scale 0; converts through `from_i128_with_scale`,
    /// `mantissa` and `scale`.
    #[verifier::external_body]
    pub(crate) fn trunc(&self) -> (r: Decimal)
        ensures
            r@ == dec_trunc_of(self@),
    {
        let a = rust_decimal::Decimal::from_i128_with_scale(self.m, self.e);
        let t = a.trunc();
        Decimal { m: t.mantissa(), e: t.scale() }
    }

    /// Relies on `rust_decimal`'s `ToPrimitive::to_i64`: the value truncated
    /// toward zero when it fits in an `i64`, `None` otherwise.
    #[verifier::external_body]
    pub(crate) fn to_i64(&self) -> (r: Option<i64>)
        ensures
            r == dec_to_i64_of(self@),
    {
        let a = rust_decimal::Decimal::from_i128_with_scale(self.m, self.e);
        rust_decimal::prelude::ToPrimitive::to_i64(&a)
    }

    /// Relies on `rust_decimal::Decimal::cmp`, which orders decimals by
    /// numeric value: -1, 0 or 1 as `self` is below, at or above `other`.
    #[verifier::external_body]
    pub(crate) fn cmp8(&self, other: &Decimal) -> (r: i8)
        ensures
            r == -1 || r == 0 || r == 1,
            (r == -1) <==> dec_num_lt(self@, other@),
            (r == 0) <==> dec_num_eq(self@, other@),
    {
        let a = rust_decimal::Decimal::from_i128_with_scale(self.m, self.e);
        let b = rust_decimal::Decimal::from_i128_with_scale(other.m, other.e);
        match a.cmp(&b) {
            core::cmp::Ordering::Less => -1,
            core::cmp::Ordering::Equal => 0,
            core::cmp::Ordering::Greater => 1,
        }
    }

    /// Relies on `rust_decimal::Decimal::from_str`; converts through
    /// `mantissa` and `scale`.
    #[verifier::external_body]
    pub fn from_str(s: &str) -> (r: Option<Decimal>)
        ensures
            r is Some <==> dec_parse_raw(s@) is Some,
            r matches Some(d) ==> d@ == dec_parse_raw(s@)->0,
    {
        match <rust_decimal::Decimal as core::str::FromStr>::from_str(s) {
            Ok(d) => Some(Decimal { m: d.mantissa(), e: d.scale() }),
            Err(_) => None,
        }
    }

    /// Relies on `rust_decimal::Decimal`'s `Display`, the canonical textual
    /// form of the number; converts through `from_i128_with_scale`.
    #[verifier::external_body]
    pub fn display_string(&self) -> (r: String)
        ensures
            r@ == dec_str_raw(self@),
    {
        let a = rust_decimal::Decimal::from_i128_with_scale(self.m, self.e);
        format!("{}", a)
    }

    /// Numeric equality with another decimal: `1.0` equals `1.00`.
    pub fn eq_num(&self, other: &Decimal) -> (r: bool)
        ensures
            r == dec_num_eq(self@, other@),
    {
        self.cmp8(other) == 0
    }

    /// Numeric strict order below another decimal.
    pub fn lt_num(&self, other: &Decimal) -> (r: bool)
        ensures
            r == dec_num_lt(self@, other@),
    {
        self.cmp8(other) == -1
    }

    /// Numeric non-strict order below another decimal.
    pub fn le_num(&self, other: &Decimal) -> (r: bool)
        ensures
            r == dec_num_le(self@, other@),
    {
        self.cmp8(other) != 1
    }
}

impl PartialEq for Decimal {
    /// Equality is numeric, as the decimal layer defines it.
    fn eq(&self, other: &Self) -> (r: bool) {
        self.cmp8(other) == 0
    }
}

impl vstd::std_specs::cmp::PartialEqSpecImpl for Decimal {
    open spec fn obeys_eq_spec() -> bool {
        true
    }

    open spec fn eq_spec(&self, other: &Self) -> bool {
        dec_num_eq(self@, other@)
    }
}

impl Eq for Decimal {

}

/// `10^e` as an `i64`.
pub fn pow10_i64(e: u32) -> (r: i64)
    requires
        pow10(e as nat) <= i64::MAX,
    ensures
        r == pow10(e as nat),
{
    let mut r: i64 = 1;
    let mut j: u32 = 0;
    while j < e
        invariant
            0 <= j <= e,
            r == pow10(j as nat),
            pow10(e as nat) <= i64::MAX,
        decreases e - j,
    {
        proof {
            lemma_pow10_mono((j + 1) as nat, e as nat);
            lemma_pow10_pos(j as nat);
        }
        r = r * 10;
        j = j + 1;
    }
    r
}

} // verus!
