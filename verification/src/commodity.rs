//! Commodity values and their types.
//!
//! A [`Commodity`] pairs an exact decimal value with a [`CommodityTypeID`],
//! a short copyable identifier naming the unit the value is denominated in.
//! Arithmetic and comparisons between commodities first check that the two
//! identifiers are equal and reject incompatible operands.

use vstd::prelude::*;

use crate::decimal::{
    dec_add_of, dec_div_of, dec_max_scale, dec_mul_of, dec_num_eq, dec_num_le,
    dec_num_lt, dec_parse_raw, dec_rem_of, dec_str_raw, dec_sub_of, dec_to_i64_of, dec_trunc_of,
    int_abs, lemma_pow10_mono, lemma_pow10_pos, pow10, pow10_i64, DecV, Decimal,
};

verus! {

/// The maximum number of characters a [`CommodityTypeID`] can hold.
pub const COMMODITY_TYPE_ID_LENGTH: usize = 8;

/// An error arising from commodity construction, parsing or arithmetic.
#[derive(Debug)]
pub enum CommodityError {
    /// An arithmetic or comparison operation was attempted between
    /// commodities whose type ids differ; the operands and a reason naming
    /// the operation are kept for diagnostics.
    IncompatableCommodity {
        this_commodity: Commodity,
        other_commodity: Commodity,
        reason: String,
    },
    /// The given commodity type id text exceeds
    /// [`COMMODITY_TYPE_ID_LENGTH`] characters.
    TooLongCommodityTypeID(String),
    /// The given alpha-3 code matches no currency in the registry.
    InvalidISO4217Alpha3(String),
    /// The given text is not of the form `<decimal> <id>`.
    InvalidCommodityString(String),
}

impl PartialEq for CommodityError {
    /// Equality compares the kinds and their payloads; commodities inside
    /// an incompatibility report compare as commodities do.
    fn eq(&self, other: &Self) -> (r: bool) {
        match (self, other) {
            (
                CommodityError::IncompatableCommodity {
                    this_commodity: a1,
                    other_commodity: b1,
                    reason: r1,
                },
                CommodityError::IncompatableCommodity {
                    this_commodity: a2,
                    other_commodity: b2,
                    reason: r2,
                },
            ) => *a1 == *a2 && *b1 == *b2 && *r1 == *r2,
            (
                CommodityError::TooLongCommodityTypeID(s1),
                CommodityError::TooLongCommodityTypeID(s2),
            ) => *s1 == *s2,
            (
                CommodityError::InvalidISO4217Alpha3(s1),
                CommodityError::InvalidISO4217Alpha3(s2),
            ) => *s1 == *s2,
            (
                CommodityError::InvalidCommodityString(s1),
                CommodityError::InvalidCommodityString(s2),
            ) => *s1 == *s2,
            _ => false,
        }
    }
}

impl vstd::std_specs::cmp::PartialEqSpecImpl for CommodityError {
    open spec fn obeys_eq_spec() -> bool {
        true
    }

    open spec fn eq_spec(&self, other: &Self) -> bool {
        match (self, other) {
            (
                CommodityError::IncompatableCommodity {
                    this_commodity: a1,
                    other_commodity: b1,
                    reason: r1,
                },
                CommodityError::IncompatableCommodity {
                    this_commodity: a2,
                    other_commodity: b2,
                    reason: r2,
                },
            ) => a1.type_id@ == a2.type_id@ && dec_num_eq(a1.value@, a2.value@) && b1.type_id@
                == b2.type_id@ && dec_num_eq(b1.value@, b2.value@) && r1@ == r2@,
            (
                CommodityError::TooLongCommodityTypeID(s1),
                CommodityError::TooLongCommodityTypeID(s2),
            ) => s1@ == s2@,
            (
                CommodityError::InvalidISO4217Alpha3(s1),
                CommodityError::InvalidISO4217Alpha3(s2),
            ) => s1@ == s2@,
            (
                CommodityError::InvalidCommodityString(s1),
                CommodityError::InvalidCommodityString(s2),
            ) => s1@ == s2@,
            _ => false,
        }
    }
}

/// The id of a commodity type: a copyable string of at most
/// [`COMMODITY_TYPE_ID_LENGTH`] characters, stored inline.
#[derive(Debug, Clone, Copy, Hash)]
pub struct CommodityTypeID {
    chars: [char; COMMODITY_TYPE_ID_LENGTH],
    len: u8,
}

impl View for CommodityTypeID {
    type V = Seq<char>;

    closed spec fn view(&self) -> Seq<char> {
        Seq::new(self.len as nat, |i: int| self.chars@[i])
    }
}

/// Strict lexicographic order on character sequences, by code point.
pub open spec fn lex_lt(a: Seq<char>, b: Seq<char>) -> bool
    decreases a.len(),
{
    if b.len() == 0 {
        false
    } else if a.len() == 0 {
        true
    } else if a[0] != b[0] {
        (a[0] as u32) < (b[0] as u32)
    } else {
        lex_lt(a.drop_first(), b.drop_first())
    }
}

impl CommodityTypeID {
    #[verifier::type_invariant]
    spec fn inv(self) -> bool {
        self.len <= COMMODITY_TYPE_ID_LENGTH
    }

    /// An id made of the first `len` characters of `chars`.
    pub fn new(chars: [char; COMMODITY_TYPE_ID_LENGTH], len: u8) -> (r: CommodityTypeID)
        requires
            len <= COMMODITY_TYPE_ID_LENGTH,
        ensures
            r@ == chars@.take(len as int),
    {
        let r = CommodityTypeID { chars, len };
        proof {
            assert(r@ =~= chars@.take(len as int));
        }
        r
    }

    /// Parse an id from text: succeeds exactly when the text has at most
    /// [`COMMODITY_TYPE_ID_LENGTH`] characters, and keeps them all.
    pub fn from_str(id: &str) -> (r: Result<CommodityTypeID, CommodityError>)
        ensures
            id@.len() <= COMMODITY_TYPE_ID_LENGTH ==> (r matches Ok(x) && x@ == id@),
            id@.len() > COMMODITY_TYPE_ID_LENGTH ==> (r matches Err(
                CommodityError::TooLongCommodityTypeID(t),
            ) && t@ == id@),
    {
        let n = id.unicode_len();
        if n > COMMODITY_TYPE_ID_LENGTH {
            return Err(CommodityError::TooLongCommodityTypeID(id.to_owned()));
        }
        let mut chars: [char; COMMODITY_TYPE_ID_LENGTH] = [
            '\0',
            '\0',
            '\0',
            '\0',
            '\0',
            '\0',
            '\0',
            '\0',
        ];
        let mut j: usize = 0;
        while j < n
            invariant
                n == id@.len() <= COMMODITY_TYPE_ID_LENGTH,
                0 <= j <= n,
                forall|i: int| 0 <= i < j ==> chars@[i] == id@[i],
            decreases n - j,
        {
            chars[j] = id.get_char(j);
            j = j + 1;
        }
        let r = CommodityTypeID { chars, len: n as u8 };
        proof {
            assert(r@ =~= id@);
        }
        Ok(r)
    }

    /// The characters of this id, as an owned string.
    pub fn display_string(&self) -> (r: String)
        ensures
            r@ == self@,
    {
        proof {
            use_type_invariant(self);
        }
        let mut r = String::new();
        let n = self.len as usize;
        let mut j: usize = 0;
        while j < n
            invariant
                n == self.len <= COMMODITY_TYPE_ID_LENGTH,
                self.inv(),
                0 <= j <= n,
                r@ == self@.take(j as int),
            decreases n - j,
        {
            push_char(&mut r, self.chars[j]);
            proof {
                assert(self@.take(j as int).push(self@[j as int]) =~= self@.take(j + 1));
            }
            j = j + 1;
        }
        proof {
            assert(self@.take(n as int) =~= self@);
        }
        r
    }

    /// Whether this id reads exactly as the given text.
    pub fn eq_str(&self, s: &str) -> (r: bool)
        ensures
            r == (self@ == s@),
    {
        proof {
            use_type_invariant(self);
        }
        let n = s.unicode_len();
        if n != self.len as usize {
            return false;
        }
        let mut j: usize = 0;
        while j < n
            invariant
                n == s@.len() == self.len <= COMMODITY_TYPE_ID_LENGTH,
                self.inv(),
                0 <= j <= n,
                forall|i: int| 0 <= i < j ==> self@[i] == s@[i],
            decreases n - j,
        {
            if self.chars[j] != s.get_char(j) {
                return false;
            }
            j = j + 1;
        }
        proof {
            assert(self@ =~= s@);
        }
        true
    }

    /// Whether this id sorts strictly before `other` in lexicographic
    /// order by code point.
    pub fn lt_id(&self, other: &CommodityTypeID) -> (r: bool)
        ensures
            r == lex_lt(self@, other@),
    {
        proof {
            use_type_invariant(self);
            use_type_invariant(other);
        }
        let n1 = self.len as usize;
        let n2 = other.len as usize;
        let mut j: usize = 0;
        proof {
            assert(self@.skip(0) =~= self@);
            assert(other@.skip(0) =~= other@);
        }
        loop
            invariant
                n1 == self@.len() <= COMMODITY_TYPE_ID_LENGTH,
                n2 == other@.len() <= COMMODITY_TYPE_ID_LENGTH,
                self.inv(),
                other.inv(),
                0 <= j <= n1,
                0 <= j <= n2,
                lex_lt(self@, other@) == lex_lt(self@.skip(j as int), other@.skip(j as int)),
            ensures
                (j < n1 || j < n2) || lex_lt(self@, other@) == (n1 < n2),
                j < n1 && j < n2 ==> self.chars@[j as int] != other.chars@[j as int] && lex_lt(
                    self@,
                    other@,
                ) == ((self.chars@[j as int] as u32) < (other.chars@[j as int] as u32)),
            decreases n1 - j,
        {
            if j >= n1 || j >= n2 {
                proof {
                    if j >= n2 {
                        assert(other@.skip(j as int).len() == 0);
                        assert(!lex_lt(self@.skip(j as int), other@.skip(j as int)));
                    } else {
                        assert(self@.skip(j as int).len() == 0);
                        assert(other@.skip(j as int).len() > 0);
                        assert(lex_lt(self@.skip(j as int), other@.skip(j as int)));
                    }
                }
                break;
            }
            if self.chars[j] != other.chars[j] {
                proof {
                    assert(self@.skip(j as int)[0] == self@[j as int]);
                    assert(other@.skip(j as int)[0] == other@[j as int]);
                }
                break;
            }
            proof {
                assert(self@.skip(j as int).drop_first() =~= self@.skip(j + 1));
                assert(other@.skip(j as int).drop_first() =~= other@.skip(j + 1));
                assert(self@.skip(j as int)[0] == self@[j as int]);
                assert(other@.skip(j as int)[0] == other@[j as int]);
            }
            j = j + 1;
        }
        if j < n1 && j < n2 {
            (self.chars[j] as u32) < (other.chars[j] as u32)
        } else {
            n1 < n2
        }
    }
}

impl PartialEq for CommodityTypeID {
    /// Equality compares the character sequences.
    fn eq(&self, other: &Self) -> (r: bool) {
        proof {
            use_type_invariant(self);
            use_type_invariant(other);
        }
        if self.len != other.len {
            proof {
                assert(self@.len() != other@.len());
            }
            return false;
        }
        let n = self.len as usize;
        let mut j: usize = 0;
        while j < n
            invariant
                n == self.len == other.len,
                self.inv(),
                other.inv(),
                0 <= j <= n,
                forall|i: int| 0 <= i < j ==> self@[i] == other@[i],
            decreases n - j,
        {
            if self.chars[j] != other.chars[j] {
                proof {
                    assert(self@[j as int] != other@[j as int]);
                }
                return false;
            }
            j = j + 1;
        }
        proof {
            assert(self@ =~= other@);
        }
        true
    }
}

impl vstd::std_specs::cmp::PartialEqSpecImpl for CommodityTypeID {
    open spec fn obeys_eq_spec() -> bool {
        true
    }

    open spec fn eq_spec(&self, other: &Self) -> bool {
        self@ == other@
    }
}

impl Eq for CommodityTypeID {

}

/// A commodity type: an id together with an optional human-readable name.
#[derive(Debug, Clone)]
pub struct CommodityType {
    /// The short identifier of this commodity type.
    pub id: CommodityTypeID,
    /// The human-readable name of this commodity type.
    pub name: Option<String>,
}

impl CommodityType {
    /// A commodity type made of the given id and optional name.
    pub fn new(id: CommodityTypeID, name: Option<String>) -> (r: CommodityType)
        ensures
            r.id == id,
            r.name == name,
    {
        CommodityType { id, name }
    }

    /// A commodity type parsed from an id text and a name text; an empty
    /// name text stands for no name, and an over-long id is rejected.
    pub fn from_str(id: &str, name: &str) -> (r: Result<CommodityType, CommodityError>)
        ensures
            id@.len() <= COMMODITY_TYPE_ID_LENGTH ==> (r matches Ok(t) && t.id@ == id@ && (
            if name@.len() == 0 {
                t.name is None
            } else {
                t.name matches Some(n) && n@ == name@
            })),
            id@.len() > COMMODITY_TYPE_ID_LENGTH ==> (r matches Err(
                CommodityError::TooLongCommodityTypeID(t),
            ) && t@ == id@),
    {
        let id = CommodityTypeID::from_str(id)?;
        let name_option = if name.is_empty() {
            None
        } else {
            Some(name.to_owned())
        };
        Ok(CommodityType { id, name: name_option })
    }

    /// `"ID (name)"` when a name is present, `"ID"` otherwise.
    pub fn display_string(&self) -> (r: String)
        ensures
            match self.name {
                Some(n) => r@ == self.id@ + " ("@ + n@ + ")"@,
                None => r@ == self.id@,
            },
    {
        let mut r = self.id.display_string();
        match &self.name {
            Some(n) => {
                r.append(" (");
                r.append(n.as_str());
                r.append(")");
                r
            },
            None => r,
        }
    }
}

impl PartialEq for CommodityType {
    /// Equality compares the ids alone: the name is descriptive and two
    /// types with one id but different names are the same type.
    fn eq(&self, other: &Self) -> (r: bool) {
        self.id == other.id
    }
}

impl vstd::std_specs::cmp::PartialEqSpecImpl for CommodityType {
    open spec fn obeys_eq_spec() -> bool {
        true
    }

    open spec fn eq_spec(&self, other: &Self) -> bool {
        self.id@ == other.id@
    }
}

impl Eq for CommodityType {

}

impl<'a> From<&'a CommodityType> for CommodityTypeID {
    /// A commodity type narrows to its id.
    fn from(t: &'a CommodityType) -> (r: CommodityTypeID) {
        t.id
    }
}

impl<'a> vstd::std_specs::convert::FromSpecImpl<&'a CommodityType> for CommodityTypeID {
    open spec fn obeys_from_spec() -> bool {
        true
    }

    open spec fn from_spec(t: &'a CommodityType) -> Self {
        t.id
    }
}

/// Relies on `String::push`: appends the character to the end of the string.
#[verifier::external_body]
fn push_char(s: &mut String, c: char)
    ensures
        final(s)@ == old(s)@.push(c),
{
    s.push(c);
}

/// A commodity: an exact decimal value denominated in the unit its type id
/// names.
#[derive(Debug, Clone, Copy)]
pub struct Commodity {
    /// The value of this commodity.
    pub value: Decimal,
    /// The id of the type of this commodity.
    pub type_id: CommodityTypeID,
}

impl Commodity {
    /// A commodity of the given value and type.
    pub fn new(value: Decimal, type_id: CommodityTypeID) -> (r: Commodity)
        ensures
            r.value == value,
            r.type_id == type_id,
    {
        Commodity { value, type_id }
    }

    /// A commodity of value zero in the given type.
    pub fn zero(type_id: CommodityTypeID) -> (r: Commodity)
        ensures
            r.value@ == (DecV { m: 0, e: 0 }),
            r.type_id == type_id,
    {
        Commodity { value: Decimal::zero(), type_id }
    }

    /// Whether the types of the two commodities agree, so that they may
    /// meet in arithmetic and comparisons.
    pub fn compatible_with(&self, other: &Commodity) -> (r: bool)
        ensures
            r == (self.type_id@ == other.type_id@),
    {
        self.type_id == other.type_id
    }
}

/// The value whose magnitude `eq_approx` holds against the tolerance: the
/// smaller operand value subtracted from the larger.
pub open spec fn approx_diff(a: DecV, b: DecV) -> Option<DecV> {
    if dec_num_lt(b, a) {
        dec_sub_of(a, b)
    } else {
        dec_sub_of(b, a)
    }
}

/// Check that two commodities have one type, and if they do not, reject
/// them with the operands and the given reason.
fn check_commodity_type_compatible(
    this_commodity: &Commodity,
    other_commodity: &Commodity,
    reason: String,
) -> (r: Result<(), CommodityError>)
    ensures
        this_commodity.type_id@ == other_commodity.type_id@ ==> r is Ok,
        this_commodity.type_id@ != other_commodity.type_id@ ==> (r matches Err(
            CommodityError::IncompatableCommodity { this_commodity: t, other_commodity: o, reason: w },
        ) && t == *this_commodity && o == *other_commodity && w == reason),
{
    if !this_commodity.compatible_with(other_commodity) {
        return Err(
            CommodityError::IncompatableCommodity {
                this_commodity: *this_commodity,
                other_commodity: *other_commodity,
                reason,
            },
        );
    }
    Ok(())
}

impl Commodity {
    /// The sum `self + other`, in `self`'s type; commodities of different
    /// types are incompatible and rejected.
    pub fn add(&self, other: &Commodity) -> (r: Result<Commodity, CommodityError>)
        requires
            self.type_id@ == other.type_id@ ==> dec_add_of(self.value@, other.value@) is Some,
        ensures
            self.type_id@ == other.type_id@ ==> (r matches Ok(c) && c.value@ == dec_add_of(
                self.value@,
                other.value@,
            )->0 && c.type_id == self.type_id),
            self.type_id@ != other.type_id@ ==> (r matches Err(
                CommodityError::IncompatableCommodity { this_commodity: t, other_commodity: o, reason: w },
            ) && t == *self && o == *other && w@ == "cannot add commodities with different currencies"@),
    {
        check_commodity_type_compatible(
            self,
            other,
            "cannot add commodities with different currencies".to_owned(),
        )?;
        let value = self.value.checked_add(&other.value).unwrap();
        Ok(Commodity { value, type_id: self.type_id })
    }

    /// The difference `self - other`, in `self`'s type; commodities of
    /// different types are incompatible and rejected.
    pub fn sub(&self, other: &Commodity) -> (r: Result<Commodity, CommodityError>)
        requires
            self.type_id@ == other.type_id@ ==> dec_sub_of(self.value@, other.value@) is Some,
        ensures
            self.type_id@ == other.type_id@ ==> (r matches Ok(c) && c.value@ == dec_sub_of(
                self.value@,
                other.value@,
            )->0 && c.type_id == self.type_id),
            self.type_id@ != other.type_id@ ==> (r matches Err(
                CommodityError::IncompatableCommodity { this_commodity: t, other_commodity: o, reason: w },
            ) && t == *self && o == *other && w@
                == "cannot subtract commodities with different currencies"@),
    {
        check_commodity_type_compatible(
            self,
            other,
            "cannot subtract commodities with different currencies".to_owned(),
        )?;
        let value = self.value.checked_sub(&other.value).unwrap();
        Ok(Commodity { value, type_id: self.type_id })
    }

    /// The negation `-self`: same type, negated value.
    pub fn neg(&self) -> (r: Commodity)
        ensures
            r.value@ == (DecV { m: -self.value@.m, e: self.value@.e }),
            r.type_id == self.type_id,
    {
        Commodity { value: self.value.neg(), type_id: self.type_id }
    }

    /// The absolute value: same type, value magnitude.
    pub fn abs(&self) -> (r: Commodity)
        ensures
            r.value@ == (DecV { m: int_abs(self.value@.m), e: self.value@.e }),
            r.type_id == self.type_id,
    {
        Commodity { value: self.value.abs(), type_id: self.type_id }
    }

    /// Whether `self` is strictly below `other` by value; commodities of
    /// different types are incompatible and rejected.
    pub fn lt(&self, other: &Commodity) -> (r: Result<bool, CommodityError>)
        ensures
            self.type_id@ == other.type_id@ ==> r == Ok::<bool, CommodityError>(
                dec_num_lt(self.value@, other.value@),
            ),
            self.type_id@ != other.type_id@ ==> (r matches Err(
                CommodityError::IncompatableCommodity { this_commodity: t, other_commodity: o, reason: w },
            ) && t == *self && o == *other && w@
                == "cannot compare commodities with different currencies"@),
    {
        check_commodity_type_compatible(
            self,
            other,
            "cannot compare commodities with different currencies".to_owned(),
        )?;
        Ok(self.value.lt_num(&other.value))
    }

    /// Whether `self` is strictly above `other` by value; commodities of
    /// different types are incompatible and rejected.
    pub fn gt(&self, other: &Commodity) -> (r: Result<bool, CommodityError>)
        ensures
            self.type_id@ == other.type_id@ ==> r == Ok::<bool, CommodityError>(
                dec_num_lt(other.value@, self.value@),
            ),
            self.type_id@ != other.type_id@ ==> (r matches Err(
                CommodityError::IncompatableCommodity { this_commodity: t, other_commodity: o, reason: w },
            ) && t == *self && o == *other && w@
                == "cannot compare commodities with different currencies"@),
    {
        check_commodity_type_compatible(
            self,
            other,
            "cannot compare commodities with different currencies".to_owned(),
        )?;
        Ok(other.value.lt_num(&self.value))
    }

    /// The numeric order of `self` against `other`; commodities of
    /// different types are incompatible and rejected rather than compared.
    pub fn total_compare(&self, other: &Commodity) -> (r: Result<
        core::cmp::Ordering,
        CommodityError,
    >)
        ensures
            self.type_id@ == other.type_id@ ==> (r matches Ok(o) && (o
                == core::cmp::Ordering::Less <==> dec_num_lt(self.value@, other.value@)) && (o
                == core::cmp::Ordering::Equal <==> dec_num_eq(self.value@, other.value@)) && (o
                == core::cmp::Ordering::Greater <==> dec_num_lt(other.value@, self.value@))),
            self.type_id@ != other.type_id@ ==> (r matches Err(
                CommodityError::IncompatableCommodity { this_commodity: t, other_commodity: o, reason: w },
            ) && t == *self && o == *other && w@
                == "cannot compare commodities with different currencies"@),
    {
        check_commodity_type_compatible(
            self,
            other,
            "cannot compare commodities with different currencies".to_owned(),
        )?;
        let c = self.value.cmp8(&other.value);
        if c == -1 {
            Ok(core::cmp::Ordering::Less)
        } else if c == 0 {
            Ok(core::cmp::Ordering::Equal)
        } else {
            Ok(core::cmp::Ordering::Greater)
        }
    }

    /// The value multiplied by `rate`, in the type `type_id`.
    pub fn convert(&self, type_id: CommodityTypeID, rate: Decimal) -> (r: Commodity)
        requires
            dec_mul_of(self.value@, rate@) is Some,
        ensures
            r.value@ == dec_mul_of(self.value@, rate@)->0,
            r.type_id == type_id,
    {
        let value = self.value.checked_mul(&rate).unwrap();
        Commodity { value, type_id }
    }

    /// The value divided, exactly and without rounding below the decimal
    /// layer's precision, by the integer `i`, which the division receives
    /// as the decimal `(i * 100) / 10^2`.
    pub fn div_i64(&self, i: i64) -> (r: Commodity)
        requires
            dec_div_of(self.value@, (DecV { m: i * 100, e: 2 })) is Some,
        ensures
            r.value@ == dec_div_of(self.value@, (DecV { m: i * 100, e: 2 }))->0,
            r.type_id == self.type_id,
    {
        let divisor = Decimal::from_i128_with_scale((i as i128) * 100, 2);
        let value = self.value.checked_div(&divisor).unwrap();
        Commodity { value, type_id: self.type_id }
    }

    /// The default tolerance for approximate comparisons: `10^-6`.
    pub fn default_epsilon() -> (r: Decimal)
        ensures
            r@ == (DecV { m: 1, e: 6 }),
    {
        Decimal::new(1, 6)
    }

    /// Whether the two commodities have one type and their values differ
    /// by at most `epsilon`; for distinct types the answer is `false`
    /// whatever the values.
    pub fn eq_approx(&self, other: Commodity, epsilon: Decimal) -> (r: bool)
        requires
            self.type_id@ == other.type_id@ ==> approx_diff(self.value@, other.value@) is Some,
        ensures
            r == (self.type_id@ == other.type_id@ && dec_num_le(
                approx_diff(self.value@, other.value@)->0,
                epsilon@,
            )),
    {
        if !(other.type_id == self.type_id) {
            return false;
        }
        let diff = if other.value.lt_num(&self.value) {
            self.value.checked_sub(&other.value).unwrap()
        } else {
            other.value.checked_sub(&self.value).unwrap()
        };
        diff.le_num(&epsilon)
    }
}

impl PartialEq for Commodity {
    /// Equality asks for equal type ids and numerically equal values.
    fn eq(&self, other: &Self) -> (r: bool) {
        self.type_id == other.type_id && self.value == other.value
    }
}

impl vstd::std_specs::cmp::PartialEqSpecImpl for Commodity {
    open spec fn obeys_eq_spec() -> bool {
        true
    }

    open spec fn eq_spec(&self, other: &Self) -> bool {
        self.type_id@ == other.type_id@ && dec_num_eq(self.value@, other.value@)
    }
}

impl Eq for Commodity {

}

/// The characters on which commodity text is split into tokens: the
/// Unicode white-space code points, as `char::is_whitespace` defines them.
pub open spec fn is_ws(c: char) -> bool {
    let u = c as u32;
    ||| u == 0x20
    ||| (0x09 <= u && u <= 0x0d)
    ||| u == 0x85
    ||| u == 0xa0
    ||| u == 0x1680
    ||| (0x2000 <= u && u <= 0x200a)
    ||| u == 0x2028
    ||| u == 0x2029
    ||| u == 0x202f
    ||| u == 0x205f
    ||| u == 0x3000
}

fn is_whitespace_char(c: char) -> (r: bool)
    ensures
        r == is_ws(c),
{
    let u = c as u32;
    u == 0x20 || (0x09 <= u && u <= 0x0d) || u == 0x85 || u == 0xa0 || u == 0x1680 || (0x2000 <= u
        && u <= 0x200a) || u == 0x2028 || u == 0x2029 || u == 0x202f || u == 0x205f || u == 0x3000
}

/// The maximal runs of non-white-space characters of `s`, in order.
pub open spec fn split_ws(s: Seq<char>) -> Seq<Seq<char>>
    decreases s.len(),
{
    if s.len() == 0 {
        Seq::empty()
    } else {
        let rest = split_ws(s.drop_last());
        let c = s.last();
        if is_ws(c) {
            rest
        } else if s.len() >= 2 && !is_ws(s[s.len() - 2]) {
            rest.update(rest.len() - 1, rest.last().push(c))
        } else {
            rest.push(seq![c])
        }
    }
}

/// Split `s` into its maximal runs of non-white-space characters.
fn split_whitespace_tokens(s: &str) -> (r: Vec<String>)
    ensures
        r@.map_values(|t: String| t@) == split_ws(s@),
{
    let n = s.unicode_len();
    let mut toks: Vec<String> = Vec::new();
    let mut prev_ws: bool = true;
    let mut i: usize = 0;
    proof {
        assert(s@.take(0) =~= Seq::<char>::empty());
        assert(toks@.map_values(|t: String| t@) =~= split_ws(s@.take(0)));
    }
    while i < n
        invariant
            n == s@.len(),
            0 <= i <= n,
            toks@.map_values(|t: String| t@) == split_ws(s@.take(i as int)),
            prev_ws == (i == 0 || is_ws(s@[i - 1])),
            (i > 0 && !is_ws(s@[i - 1])) ==> toks@.len() >= 1,
        decreases n - i,
    {
        let ghost prefix = s@.take(i as int);
        let ghost longer = s@.take(i + 1);
        let c = s.get_char(i);
        proof {
            assert(longer.drop_last() =~= prefix);
            assert(longer.last() == s@[i as int]);
            assert(longer.len() == i + 1);
        }
        let ws = is_whitespace_char(c);
        if ws {
            proof {
                assert(split_ws(longer) == split_ws(prefix));
            }
        } else if !prev_ws {
            let ghost old_toks = toks@;
            let mut t = toks.pop().unwrap();
            push_char(&mut t, c);
            toks.push(t);
            proof {
                assert(longer[i - 1] == s@[i - 1]);
                let rest = split_ws(prefix);
                assert(split_ws(longer) == rest.update(rest.len() - 1, rest.last().push(s@[i as int])));
                assert(toks@ =~= old_toks.update(old_toks.len() - 1, t));
                assert(toks@.map_values(|x: String| x@) =~= split_ws(longer));
            }
        } else {
            let mut t = String::new();
            push_char(&mut t, c);
            toks.push(t);
            proof {
                let rest = split_ws(prefix);
                assert(t@ =~= seq![s@[i as int]]);
                assert(split_ws(longer) == rest.push(seq![s@[i as int]]));
                assert(toks@.map_values(|x: String| x@) =~= split_ws(longer));
            }
        }
        prev_ws = ws;
        i = i + 1;
    }
    proof {
        assert(s@.take(n as int) =~= s@);
    }
    toks
}

impl Commodity {
    /// Parse a commodity from text of the form `<decimal> <id>`: exactly
    /// two white-space-separated tokens, the first a decimal number, the
    /// second a type id of at most [`COMMODITY_TYPE_ID_LENGTH`] characters.
    pub fn from_str(commodity_string: &str) -> (r: Result<Commodity, CommodityError>)
        ensures
            ({
                let toks = split_ws(commodity_string@);
                &&& toks.len() != 2 ==> (r matches Err(CommodityError::InvalidCommodityString(t))
                    && t@ == commodity_string@)
                &&& toks.len() == 2 && dec_parse_raw(toks[0]) is None ==> (r matches Err(
                    CommodityError::InvalidCommodityString(t),
                ) && t@ == commodity_string@)
                &&& toks.len() == 2 && dec_parse_raw(toks[0]) is Some && toks[1].len()
                    > COMMODITY_TYPE_ID_LENGTH ==> (r matches Err(
                    CommodityError::TooLongCommodityTypeID(t),
                ) && t@ == toks[1])
                &&& toks.len() == 2 && dec_parse_raw(toks[0]) is Some && toks[1].len()
                    <= COMMODITY_TYPE_ID_LENGTH ==> (r matches Ok(c) && c.value@ == dec_parse_raw(
                    toks[0],
                )->0 && c.type_id@ == toks[1])
            }),
    {
        let elements = split_whitespace_tokens(commodity_string);
        if elements.len() != 2 {
            return Err(CommodityError::InvalidCommodityString(commodity_string.to_owned()));
        }
        let t0 = &elements[0];
        let value = match Decimal::from_str(t0.as_str()) {
            Some(d) => d,
            None => {
                return Err(CommodityError::InvalidCommodityString(commodity_string.to_owned()));
            },
        };
        let t1 = &elements[1];
        let type_id = CommodityTypeID::from_str(t1.as_str())?;
        Ok(Commodity { value, type_id })
    }

    /// `"<decimal> <id>"`: the value's canonical decimal text, one space,
    /// and the type id.
    pub fn display_string(&self) -> (r: String)
        ensures
            r@ == dec_str_raw(self.value@) + " "@ + self.type_id@,
    {
        let mut r = self.value.display_string();
        r.append(" ");
        let id = self.type_id.display_string();
        r.append(id.as_str());
        r
    }
}

/// The sign of an integer: -1, 0 or 1.
pub open spec fn sign_of(x: int) -> int {
    if x > 0 {
        1
    } else if x < 0 {
        -1
    } else {
        0
    }
}

/// The divisor a share split by `i` at precision `dp` divides by:
/// `(i * 10^dp) / 10^dp`, numerically `i`.
pub open spec fn ds_divisor(i: int, dp: nat) -> DecV {
    DecV { m: i * pow10(dp), e: dp }
}

/// One least-significant unit at precision `dp`: `10^-dp`.
pub open spec fn ds_unit(dp: nat) -> DecV {
    DecV { m: 1, e: dp }
}

/// The quotient of the split: the value divided by the divisor.
pub open spec fn ds_quot(v: DecV, i: int, dp: nat) -> Option<DecV> {
    dec_div_of(v, ds_divisor(i, dp))
}

/// The common share: the quotient truncated toward zero.
pub open spec fn ds_trunc(v: DecV, i: int, dp: nat) -> DecV {
    dec_trunc_of(ds_quot(v, i, dp)->0)
}

/// The signed remainder of the split.
pub open spec fn ds_rem(v: DecV, i: int, dp: nat) -> Option<DecV> {
    dec_rem_of(v, ds_divisor(i, dp))
}

/// The residue as a signed count of units at precision `dp`.
pub open spec fn ds_units_count(v: DecV, i: int, dp: nat) -> Option<i64> {
    match ds_rem(v, i, dp) {
        None => None,
        Some(r) => match dec_div_of(r, ds_unit(dp)) {
            None => None,
            Some(q) => dec_to_i64_of(q),
        },
    }
}

/// The adjusted share: the common share moved by one signed unit.
pub open spec fn ds_adjust(v: DecV, i: int, dp: nat) -> Option<DecV> {
    let k = ds_units_count(v, i, dp)->0;
    let s = sign_of(k as int) * sign_of(i);
    match dec_mul_of(ds_unit(dp), DecV { m: s, e: 0 }) {
        None => None,
        Some(step) => dec_add_of(ds_trunc(v, i, dp), step),
    }
}

/// The inputs on which the share split is defined: a nonzero count whose
/// scaled mantissa fits the machine, and decimal steps that all succeed.
pub open spec fn divide_share_defined(v: DecV, i: int, dp: nat) -> bool {
    &&& i != 0
    &&& i != i64::MIN
    &&& dp <= dec_max_scale()
    &&& i64::MIN <= i * pow10(dp) <= i64::MAX
    &&& ds_rem(v, i, dp) is Some
    &&& ds_quot(v, i, dp) is Some
    &&& (match ds_rem(v, i, dp) {
        Some(r) => dec_div_of(r, ds_unit(dp)) is Some,
        None => false,
    })
    &&& ds_units_count(v, i, dp) is Some
    &&& ds_units_count(v, i, dp)->0 != i64::MIN
    &&& (ds_units_count(v, i, dp)->0 != 0 ==> ds_adjust(v, i, dp) is Some)
}

/// The value of share `j` (counting from zero): the first `|k|` shares
/// carry the adjusted value, the rest the common one.
pub open spec fn ds_share(v: DecV, i: int, dp: nat, j: int) -> DecV {
    if j < int_abs(ds_units_count(v, i, dp)->0 as int) {
        ds_adjust(v, i, dp)->0
    } else {
        ds_trunc(v, i, dp)
    }
}

impl Commodity {
    /// Split this commodity into `|i|` shares at precision `dp`, or `None`
    /// on the inputs the split is not defined for: a zero count, a count
    /// or precision beyond the machine's range, or a decimal step that the
    /// decimal layer rejects.
    pub fn divide_share_checked(&self, i: i64, dp: u32) -> (r: Option<Vec<Commodity>>)
        ensures
            r is Some <==> divide_share_defined(self.value@, i as int, dp as nat),
            r matches Some(shares) ==> shares@.len() == int_abs(i as int) && forall|j: int|
                0 <= j < shares@.len() ==> (#[trigger] shares@[j]).type_id == self.type_id
                    && shares@[j].value@ == ds_share(self.value@, i as int, dp as nat, j),
    {
        if i == 0 || i == i64::MIN {
            return None;
        }
        if dp > 18 {
            proof {
                reveal_with_fuel(pow10, 20);
                assert(pow10(19) == 10000000000000000000);
                if dp as nat <= dec_max_scale() {
                    lemma_pow10_mono(19, dp as nat);
                    lemma_pow10_pos(dp as nat);
                    let p = pow10(dp as nat);
                    if i >= 1 {
                        assert((i as int) * p >= p) by (nonlinear_arith)
                            requires
                                i >= 1,
                                p > 0,
                        ;
                    } else {
                        assert((i as int) * p <= -p) by (nonlinear_arith)
                            requires
                                i <= -1,
                                p > 0,
                        ;
                    }
                }
            }
            return None;
        }
        proof {
            reveal_with_fuel(pow10, 19);
            assert(pow10(18) == 1000000000000000000);
            lemma_pow10_mono(dp as nat, 18);
        }
        let p = pow10_i64(dp);
        let m = match i.checked_mul(p) {
            Some(m) => m,
            None => {
                return None;
            },
        };
        let divisor = Decimal::new(m, dp);
        let remainder = match self.value.checked_rem(&divisor) {
            Some(r) => r,
            None => {
                return None;
            },
        };
        let divided = match self.value.checked_div(&divisor) {
            Some(d) => d,
            None => {
                return None;
            },
        };
        let truncated = divided.trunc();
        let dp_divisor = Decimal::new(1, dp);
        let rb = match remainder.checked_div(&dp_divisor) {
            Some(q) => q,
            None => {
                return None;
            },
        };
        let remainder_bits = match rb.to_i64() {
            Some(k) => k,
            None => {
                return None;
            },
        };
        if remainder_bits == i64::MIN {
            return None;
        }
        let remainder_bits_abs: i64 = if remainder_bits < 0 {
            -remainder_bits
        } else {
            remainder_bits
        };
        let i_abs: i64 = if i < 0 {
            -i
        } else {
            i
        };
        let sk: i64 = if remainder_bits > 0 {
            1
        } else if remainder_bits < 0 {
            -1
        } else {
            0
        };
        let si: i64 = if i > 0 {
            1
        } else {
            -1
        };
        proof {
            assert(-1 <= sk * si <= 1) by (nonlinear_arith)
                requires
                    -1 <= sk <= 1,
                    -1 <= si <= 1,
            ;
        }
        let sign = Decimal::new(sk * si, 0);
        let share_value = if remainder_bits != 0 {
            let step = dp_divisor.checked_mul(&sign).unwrap();
            match truncated.checked_add(&step) {
                Some(v) => v,
                None => {
                    return None;
                },
            }
        } else {
            truncated
        };
        let mut commodities: Vec<Commodity> = Vec::new();
        let mut j: i64 = 0;
        while j < i_abs
            invariant
                0 <= j <= i_abs,
                i_abs == int_abs(i as int),
                remainder_bits_abs == int_abs(remainder_bits as int),
                divide_share_defined(self.value@, i as int, dp as nat),
                remainder_bits == ds_units_count(self.value@, i as int, dp as nat)->0,
                truncated@ == ds_trunc(self.value@, i as int, dp as nat),
                remainder_bits != 0 ==> share_value@ == ds_adjust(self.value@, i as int, dp as nat)->0,
                commodities@.len() == j,
                forall|jj: int|
                    0 <= jj < j ==> (#[trigger] commodities@[jj]).type_id == self.type_id
                        && commodities@[jj].value@ == ds_share(
                        self.value@,
                        i as int,
                        dp as nat,
                        jj,
                    ),
            decreases i_abs - j,
        {
            let value = if j < remainder_bits_abs {
                share_value
            } else {
                truncated
            };
            commodities.push(Commodity { value, type_id: self.type_id });
            j = j + 1;
        }
        Some(commodities)
    }

    /// Split this commodity into `|i|` shares at precision `dp`: every
    /// share carries the truncated common quotient, and the first `|k|`
    /// shares are moved one unit `10^-dp` in the direction the signs of
    /// the residue and of `i` give, where `k` counts the units of residue.
    pub fn divide_share(&self, i: i64, dp: u32) -> (r: Vec<Commodity>)
        requires
            divide_share_defined(self.value@, i as int, dp as nat),
        ensures
            r@.len() == int_abs(i as int),
            forall|j: int|
                0 <= j < r@.len() ==> (#[trigger] r@[j]).type_id == self.type_id && r@[j].value@
                    == ds_share(self.value@, i as int, dp as nat, j),
    {
        self.divide_share_checked(i, dp).unwrap()
    }
}

pub uninterp spec fn alpha3_name_raw(code: Seq<char>) -> Option<Seq<char>>;

/// The human-readable name the currency registry holds for an alpha-3
/// code, or `None` where the registry has no entry. Every code in the
/// registry is three characters long, so no other length matches.
pub open spec fn alpha3_name(code: Seq<char>) -> Option<Seq<char>> {
    if code.len() == 3 {
        alpha3_name_raw(code)
    } else {
        None
    }
}

/// Relies on `iso4217::alpha3`, which looks the code up by equality in a
/// registry table whose entries all carry three-character codes; converts
/// the found entry to its name.
#[verifier::external_body]
fn iso4217_name(code: &str) -> (r: Option<String>)
    ensures
        r is Some <==> alpha3_name(code@) is Some,
        r matches Some(n) ==> n@ == alpha3_name(code@)->0,
        code@.len() == 3 ==> (r is Some <==> alpha3_name_raw(code@) is Some),
        code@.len() == 3 && r is Some ==> r->0@ == alpha3_name_raw(code@)->0,
{
    iso4217::alpha3(code).map(|c| c.name.to_string())
}

/// Relies on `iso4217::all`, the registry's own table, whose entries all
/// carry three-character codes and their names; converts each entry to the
/// pair of its code and its name.
#[verifier::external_body]
fn iso4217_all() -> (r: Vec<(String, String)>)
    ensures
        forall|i: int|
            0 <= i < r@.len() ==> (#[trigger] r@[i].0)@.len() == 3 && alpha3_name(r@[i].0@) == Some(
                r@[i].1@,
            ),
{
    iso4217::all().iter().map(|c| (c.alpha3.to_string(), c.name.to_string())).collect()
}

impl CommodityType {
    /// A commodity type looked up in the `ISO 4217` currency registry by
    /// its alpha-3 code; a code the registry does not know is rejected.
    pub fn from_currency_alpha3(alpha3: &str) -> (r: Result<CommodityType, CommodityError>)
        ensures
            alpha3_name(alpha3@) matches Some(n) ==> (r matches Ok(t) && t.id@ == alpha3@ && (
            if n.len() == 0 {
                t.name is None
            } else {
                t.name matches Some(nm) && nm@ == n
            })),
            alpha3_name(alpha3@) is None ==> (r matches Err(
                CommodityError::InvalidISO4217Alpha3(t),
            ) && t@ == alpha3@),
    {
        match iso4217_name(alpha3) {
            Some(name) => CommodityType::from_str(alpha3, name.as_str()),
            None => Err(CommodityError::InvalidISO4217Alpha3(alpha3.to_owned())),
        }
    }
}

/// All the currencies of the `ISO 4217` registry, as commodity types:
/// each carries a three-character code the registry knows, named as the
/// registry names it.
pub fn all_iso4217_currencies() -> (r: Vec<CommodityType>)
    ensures
        forall|i: int|
            0 <= i < r@.len() ==> (#[trigger] r@[i].id)@.len() == 3 && (match alpha3_name(
                r@[i].id@,
            ) {
                Some(n) => (if n.len() == 0 {
                    r@[i].name is None
                } else {
                    r@[i].name matches Some(nm) && nm@ == n
                }),
                None => false,
            }),
{
    let raw = iso4217_all();
    let mut currencies: Vec<CommodityType> = Vec::new();
    let n = raw.len();
    let mut j: usize = 0;
    while j < n
        invariant
            n == raw@.len(),
            0 <= j <= n,
            forall|i: int|
                0 <= i < raw@.len() ==> (#[trigger] raw@[i].0)@.len() == 3 && alpha3_name(
                    raw@[i].0@,
                ) == Some(raw@[i].1@),
            forall|i: int|
                0 <= i < currencies@.len() ==> (#[trigger] currencies@[i].id)@.len() == 3 && (
                match alpha3_name(currencies@[i].id@) {
                    Some(n) => (if n.len() == 0 {
                        currencies@[i].name is None
                    } else {
                        currencies@[i].name matches Some(nm) && nm@ == n
                    }),
                    None => false,
                }),
        decreases n - j,
    {
        let entry = &raw[j];
        let commodity_type = CommodityType::from_str(entry.0.as_str(), entry.1.as_str()).unwrap();
        currencies.push(commodity_type);
        j = j + 1;
    }
    currencies
}

} // verus!
