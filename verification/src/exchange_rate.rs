//! Exchange rates and conversions between commodity types.
//!
//! An [`ExchangeRate`] is a snapshot of decimal rates keyed by commodity
//! type id, with an optional distinguished base type: a commodity in the
//! base converts to a quoted type in one multiplication, a commodity in a
//! quoted type converts to the base in one division, and any other pair
//! composes a cross rate through the table.

use vstd::prelude::*;

use crate::commodity::{lex_lt, Commodity, CommodityTypeID};
use crate::decimal::{
    dec_div_of, dec_mul_of, dec_num_eq, dec_wf, DecV, Decimal,
};

verus! {

/// A calendar date, held as plain year, month and day numbers.
#[derive(Debug, Clone, Copy, PartialEq, Eq, Structural)]
pub struct CalendarDate {
    pub year: i32,
    pub month: u32,
    pub day: u32,
}

/// A point in time, held as seconds and nanoseconds since the Unix epoch.
#[derive(Debug, Clone, Copy, PartialEq, Eq, Structural)]
pub struct Timestamp {
    pub epoch_seconds: i64,
    pub nanoseconds: u32,
}

/// An error arising from a conversion through an exchange rate.
#[derive(Debug)]
pub enum ExchangeRateError {
    /// The table holds no rate for the given commodity type id.
    CommodityTypeNotPresent(CommodityTypeID),
    /// The decimal layer rejected the division of the first value by the
    /// second.
    DivideOverflow(Decimal, Decimal),
}

pub proof fn lemma_lex_lt_irrefl(a: Seq<char>)
    ensures
        !lex_lt(a, a),
    decreases a.len(),
{
    if a.len() > 0 {
        lemma_lex_lt_irrefl(a.drop_first());
    }
}

pub proof fn lemma_lex_lt_total(a: Seq<char>, b: Seq<char>)
    ensures
        a =~= b || lex_lt(a, b) || lex_lt(b, a),
    decreases a.len(),
{
    if a.len() == 0 {
        if b.len() == 0 {
            assert(a =~= b);
        }
    } else if b.len() == 0 {
    } else if a[0] != b[0] {
        if (a[0] as u32) == (b[0] as u32) {
            vstd::utf8::char_u32_cast(a[0], a[0] as u32);
            vstd::utf8::char_u32_cast(b[0], b[0] as u32);
            assert(false);
        }
    } else {
        let at = a.drop_first();
        let bt = b.drop_first();
        lemma_lex_lt_total(at, bt);
        if at =~= bt {
            assert forall|i: int| 0 <= i < a.len() implies a[i] == b[i] by {
                if i > 0 {
                    assert(at[i - 1] == a[i]);
                    assert(bt[i - 1] == b[i]);
                }
            }
            assert(a =~= b);
        }
    }
}

pub proof fn lemma_lex_lt_trans(a: Seq<char>, b: Seq<char>, c: Seq<char>)
    requires
        lex_lt(a, b),
        lex_lt(b, c),
    ensures
        lex_lt(a, c),
    decreases a.len(),
{
    if a.len() == 0 {
    } else {
        if a[0] == b[0] && b[0] == c[0] {
            lemma_lex_lt_trans(a.drop_first(), b.drop_first(), c.drop_first());
        }
    }
}

/// Entries stand in strictly increasing lexicographic order of their ids,
/// so each id occurs at most once and iteration order is deterministic.
pub open spec fn entries_sorted(s: Seq<(CommodityTypeID, Decimal)>) -> bool {
    forall|i: int, j: int|
        0 <= i < j < s.len() ==> lex_lt((#[trigger] s[i]).0@, (#[trigger] s[j]).0@)
}

/// Whether some entry of `s` carries the id `k`.
pub open spec fn entries_has_key(s: Seq<(CommodityTypeID, Decimal)>, k: Seq<char>) -> bool {
    exists|i: int| 0 <= i < s.len() && (#[trigger] s[i]).0@ == k
}

/// The rate an entry of `s` carries for the id `k`.
pub open spec fn entries_value(s: Seq<(CommodityTypeID, Decimal)>, k: Seq<char>) -> DecV {
    let i = choose|i: int| 0 <= i < s.len() && (#[trigger] s[i]).0@ == k;
    s[i].1@
}

/// The map a sorted entry sequence denotes.
pub open spec fn entries_map(s: Seq<(CommodityTypeID, Decimal)>) -> Map<Seq<char>, DecV> {
    Map::new(|k: Seq<char>| entries_has_key(s, k), |k: Seq<char>| entries_value(s, k))
}

proof fn lemma_entries_value_at(s: Seq<(CommodityTypeID, Decimal)>, i: int)
    requires
        entries_sorted(s),
        0 <= i < s.len(),
    ensures
        entries_has_key(s, s[i].0@),
        entries_value(s, s[i].0@) == s[i].1@,
{
    assert(entries_has_key(s, s[i].0@)) by {
        assert(0 <= i < s.len() && (s[i]).0@ == s[i].0@);
    }
    let j = choose|j: int| 0 <= j < s.len() && (#[trigger] s[j]).0@ == s[i].0@;
    if j != i {
        if j < i {
            assert(lex_lt(s[j].0@, s[i].0@));
        } else {
            assert(lex_lt(s[i].0@, s[j].0@));
        }
        lemma_lex_lt_irrefl(s[i].0@);
        assert(false);
    }
}

/// A table of decimal rates keyed by commodity type id, kept in strictly
/// increasing lexicographic id order.
#[derive(Debug)]
pub struct RateMap {
    entries: Vec<(CommodityTypeID, Decimal)>,
}

impl Clone for RateMap {
    /// The clone holds the same rates.
    fn clone(&self) -> (r: Self)
        ensures
            r@ == self@,
    {
        proof {
            use_type_invariant(self);
        }
        let n = self.entries.len();
        let mut entries: Vec<(CommodityTypeID, Decimal)> = Vec::new();
        let mut j: usize = 0;
        while j < n
            invariant
                n == self.entries@.len(),
                0 <= j <= n,
                entries@ == self.entries@.take(j as int),
            decreases n - j,
        {
            let e = self.entries[j];
            entries.push(e);
            proof {
                assert(self.entries@.take(j as int).push(self.entries@[j as int])
                    =~= self.entries@.take(j + 1));
            }
            j = j + 1;
        }
        proof {
            assert(self.entries@.take(n as int) =~= self.entries@);
        }
        RateMap { entries }
    }
}

impl View for RateMap {
    type V = Map<Seq<char>, DecV>;

    closed spec fn view(&self) -> Map<Seq<char>, DecV> {
        entries_map(self.entries@)
    }
}

impl RateMap {
    #[verifier::type_invariant]
    spec fn inv(self) -> bool {
        entries_sorted(self.entries@)
    }

    /// An empty rate table.
    pub fn new() -> (r: RateMap)
        ensures
            r@ == Map::<Seq<char>, DecV>::empty(),
    {
        let r = RateMap { entries: Vec::new() };
        proof {
            assert(r@ =~= Map::<Seq<char>, DecV>::empty());
        }
        r
    }

    /// The rate stored for `id`, if the table holds one.
    pub fn get(&self, id: &CommodityTypeID) -> (r: Option<&Decimal>)
        ensures
            match r {
                Some(d) => self@.dom().contains(id@) && d@ == self@[id@],
                None => !self@.dom().contains(id@),
            },
    {
        proof {
            use_type_invariant(self);
        }
        let n = self.entries.len();
        let mut j: usize = 0;
        while j < n
            invariant
                n == self.entries@.len(),
                entries_sorted(self.entries@),
                0 <= j <= n,
                forall|i: int| 0 <= i < j ==> (#[trigger] self.entries@[i]).0@ != id@,
            decreases n - j,
        {
            let e = &self.entries[j];
            if e.0 == *id {
                proof {
                    lemma_entries_value_at(self.entries@, j as int);
                }
                return Some(&e.1);
            }
            j = j + 1;
        }
        proof {
            assert(!entries_has_key(self.entries@, id@));
        }
        None
    }

    /// Store `rate` for `id`, replacing any rate the table already holds
    /// for it.
    pub fn insert(&mut self, id: CommodityTypeID, rate: Decimal)
        ensures
            final(self)@ == old(self)@.insert(id@, rate@),
    {
        proof {
            use_type_invariant(&*self);
        }
        let ghost olds = self.entries@;
        let mut entries: Vec<(CommodityTypeID, Decimal)> = Vec::new();
        core::mem::swap(&mut entries, &mut self.entries);
        let n = entries.len();
        let mut idx: usize = 0;
        loop
            invariant
                entries@ == olds,
                entries_sorted(olds),
                n == olds.len(),
                0 <= idx <= n,
                forall|i: int| 0 <= i < idx ==> lex_lt((#[trigger] olds[i]).0@, id@),
            ensures
                0 <= idx <= n,
                forall|i: int| 0 <= i < idx ==> lex_lt((#[trigger] olds[i]).0@, id@),
                idx < n ==> !lex_lt(olds[idx as int].0@, id@),
            decreases n - idx,
        {
            if idx == n {
                break;
            }
            let e = entries[idx];
            if !e.0.lt_id(&id) {
                break;
            }
            idx = idx + 1;
        }
        let replace = if idx < n {
            let e = entries[idx];
            e.0 == id
        } else {
            false
        };
        if replace {
            entries.remove(idx);
        }
        entries.insert(idx, (id, rate));
        let ghost news = entries@;
        proof {
            if replace {
                assert(news =~= olds.update(idx as int, (id, rate)));
            }
            // the new sequence is still strictly sorted
            assert forall|i: int, j: int| 0 <= i < j < news.len() implies lex_lt(
                (#[trigger] news[i]).0@,
                (#[trigger] news[j]).0@,
            ) by {
                if replace {
                    if i == idx {
                        assert(olds[idx as int].0@ == id@);
                        assert(lex_lt(olds[i].0@, olds[j].0@));
                    } else if j == idx {
                        assert(olds[idx as int].0@ == id@);
                        assert(lex_lt(olds[i].0@, olds[j].0@));
                    } else {
                        assert(lex_lt(olds[i].0@, olds[j].0@));
                    }
                } else {
                    lemma_lex_lt_total(olds[idx as int].0@, id@);
                    if j < idx {
                        assert(news[i] == olds[i] && news[j] == olds[j]);
                    } else if i > idx {
                        assert(news[i] == olds[i - 1] && news[j] == olds[j - 1]);
                    } else if i < idx && j == idx {
                        assert(news[i] == olds[i]);
                        assert(lex_lt(olds[i].0@, id@));
                    } else if i == idx {
                        assert(news[j] == olds[j - 1]);
                        if j - 1 > idx as int {
                            assert(lex_lt(olds[idx as int].0@, olds[j - 1].0@));
                            lemma_lex_lt_trans(id@, olds[idx as int].0@, olds[j - 1].0@);
                        }
                    } else {
                        // i < idx < j: both old entries around the insertion
                        assert(news[i] == olds[i] && news[j] == olds[j - 1]);
                        assert(lex_lt(olds[i].0@, id@));
                        if j - 1 == idx as int {
                            lemma_lex_lt_trans(olds[i].0@, id@, olds[j - 1].0@);
                        } else {
                            assert(lex_lt(olds[i].0@, olds[j - 1].0@));
                        }
                    }
                }
            }
        }
        self.entries = entries;
        proof {
            // the denoted map gained exactly the binding of `id`
            assert forall|k: Seq<char>| #[trigger]
                entries_map(news).dom().contains(k) == old(self)@.insert(
                    id@,
                    rate@,
                ).dom().contains(k) by {
                if k == id@ {
                    lemma_entries_value_at(news, idx as int);
                } else {
                    if entries_has_key(news, k) {
                        let i = choose|i: int| 0 <= i < news.len() && (#[trigger] news[i]).0@ == k;
                        if replace {
                            assert(olds[i].0@ == k);
                        } else {
                            if i < idx {
                                assert(olds[i].0@ == k);
                            } else {
                                assert(olds[i - 1].0@ == k);
                            }
                        }
                        assert(entries_has_key(olds, k));
                    }
                    if entries_has_key(olds, k) {
                        let i = choose|i: int| 0 <= i < olds.len() && (#[trigger] olds[i]).0@ == k;
                        if replace {
                            assert(news[i].0@ == k);
                        } else {
                            if i < idx {
                                assert(news[i].0@ == k);
                            } else {
                                assert(news[i + 1].0@ == k);
                            }
                        }
                        assert(entries_has_key(news, k));
                    }
                }
            }
            assert forall|k: Seq<char>|
                entries_map(news).dom().contains(k) implies #[trigger] entries_map(news)[k]
                == old(self)@.insert(id@, rate@)[k] by {
                if k == id@ {
                    lemma_entries_value_at(news, idx as int);
                } else {
                    let i = choose|i: int| 0 <= i < news.len() && (#[trigger] news[i]).0@ == k;
                    lemma_entries_value_at(news, i);
                    if replace {
                        assert(olds[i].0@ == k && olds[i].1 == news[i].1);
                        lemma_entries_value_at(olds, i);
                    } else {
                        if i < idx {
                            lemma_entries_value_at(olds, i);
                        } else {
                            assert(olds[i - 1] == news[i]);
                            lemma_entries_value_at(olds, i - 1);
                        }
                    }
                }
            }
            assert(entries_map(news) =~= old(self)@.insert(id@, rate@));
        }
    }

    /// The entries of the table, in their deterministic id order: one per
    /// id the table holds, each with its stored rate.
    pub fn entries(&self) -> (r: Vec<(CommodityTypeID, Decimal)>)
        ensures
            forall|i: int, j: int|
                0 <= i < j < r@.len() ==> lex_lt((#[trigger] r@[i]).0@, (#[trigger] r@[j]).0@),
            forall|i: int|
                0 <= i < r@.len() ==> self@.dom().contains((#[trigger] r@[i]).0@) && self@[r@[i].0@]
                    == r@[i].1@,
            forall|k: Seq<char>|
                self@.dom().contains(k) ==> exists|i: int|
                    0 <= i < r@.len() && (#[trigger] r@[i]).0@ == k,
    {
        proof {
            use_type_invariant(self);
        }
        let n = self.entries.len();
        let mut r: Vec<(CommodityTypeID, Decimal)> = Vec::new();
        let mut j: usize = 0;
        while j < n
            invariant
                n == self.entries@.len(),
                entries_sorted(self.entries@),
                0 <= j <= n,
                r@ == self.entries@.take(j as int),
            decreases n - j,
        {
            let e = self.entries[j];
            r.push(e);
            proof {
                assert(self.entries@.take(j as int).push(self.entries@[j as int]) =~= self.entries@.take(
                    j + 1,
                ));
            }
            j = j + 1;
        }
        proof {
            assert(self.entries@.take(n as int) =~= self.entries@);
            assert forall|i: int| 0 <= i < r@.len() implies self@.dom().contains(
                (#[trigger] r@[i]).0@,
            ) && self@[r@[i].0@] == r@[i].1@ by {
                lemma_entries_value_at(self.entries@, i);
            }
        }
        r
    }
}

/// The model of an exchange-rate failure.
pub enum RateErrorV {
    NotPresent(Seq<char>),
    DivideOverflow(DecV, DecV),
}

/// The base id of an exchange rate, as a character sequence.
pub open spec fn base_view(base: Option<CommodityTypeID>) -> Option<Seq<char>> {
    match base {
        Some(b) => Some(b@),
        None => None,
    }
}

/// What converting a value `cv` denominated in `cid` to `target` yields
/// over a rate table: one multiplication out of the base, one division
/// into the base, and otherwise a cross rate of one division and one
/// multiplication, with the commodity's own id checked first.
pub open spec fn convert_spec(
    base: Option<Seq<char>>,
    rates: Map<Seq<char>, DecV>,
    cv: DecV,
    cid: Seq<char>,
    target: Seq<char>,
) -> Result<DecV, RateErrorV> {
    if (base matches Some(b) && cid == b) && rates.dom().contains(target) {
        Ok(dec_mul_of(rates[target], cv)->0)
    } else if (base matches Some(b) && target == b) && rates.dom().contains(cid) {
        match dec_div_of(cv, rates[cid]) {
            Some(q) => Ok(q),
            None => Err(RateErrorV::DivideOverflow(cv, rates[cid])),
        }
    } else if !rates.dom().contains(cid) {
        Err(RateErrorV::NotPresent(cid))
    } else if !rates.dom().contains(target) {
        Err(RateErrorV::NotPresent(target))
    } else {
        match dec_div_of(cv, rates[cid]) {
            Some(q) => Ok(dec_mul_of(q, rates[target])->0),
            None => Err(RateErrorV::DivideOverflow(cv, rates[cid])),
        }
    }
}

/// The inputs on which `convert` is defined: the multiplications on the
/// path taken succeed. On all others the decimal layer would reject a
/// product as too large.
pub open spec fn convert_defined(
    base: Option<Seq<char>>,
    rates: Map<Seq<char>, DecV>,
    cv: DecV,
    cid: Seq<char>,
    target: Seq<char>,
) -> bool {
    if (base matches Some(b) && cid == b) && rates.dom().contains(target) {
        dec_mul_of(rates[target], cv) is Some
    } else if (base matches Some(b) && target == b) && rates.dom().contains(cid) {
        true
    } else if !rates.dom().contains(cid) || !rates.dom().contains(target) {
        true
    } else {
        match dec_div_of(cv, rates[cid]) {
            Some(q) => dec_mul_of(q, rates[target]) is Some,
            None => true,
        }
    }
}

/// What the rate between `from` and `to` is over a rate table: the quoted
/// rate out of the base, its reciprocal into the base, and otherwise the
/// quotient of the two quoted rates; `None` stands for an id the table
/// does not quote on the cross path.
pub open spec fn rb_spec(
    base: Option<Seq<char>>,
    rates: Map<Seq<char>, DecV>,
    from: Seq<char>,
    to: Seq<char>,
) -> Result<Option<DecV>, RateErrorV> {
    if (base matches Some(b) && from == b) && rates.dom().contains(to) {
        Ok(Some(rates[to]))
    } else if (base matches Some(b) && to == b) && rates.dom().contains(from) {
        match dec_div_of((DecV { m: 1, e: 0 }), rates[from]) {
            Some(v) => Ok(Some(v)),
            None => Err(RateErrorV::DivideOverflow((DecV { m: 1, e: 0 }), rates[from])),
        }
    } else if !rates.dom().contains(from) {
        Ok(None)
    } else if !rates.dom().contains(to) {
        Ok(None)
    } else {
        match dec_div_of(rates[to], rates[from]) {
            Some(v) => Ok(Some(v)),
            None => Err(RateErrorV::DivideOverflow(rates[to], rates[from])),
        }
    }
}

/// A snapshot of exchange rates between commodity types: a rate table
/// quoted against an optional base type, with an optional date and an
/// optional time of capture.
#[derive(Debug, Clone)]
pub struct ExchangeRate {
    /// The date the rates apply to.
    pub date: Option<CalendarDate>,
    /// When the snapshot was obtained.
    pub obtained_datetime: Option<Timestamp>,
    /// The id of the type all rates are quoted against, if any.
    pub base: Option<CommodityTypeID>,
    /// The rate of each quoted commodity type with respect to `base`, or
    /// free-standing reference rates when `base` is absent.
    pub rates: RateMap,
}

impl ExchangeRate {
    /// The rate stored for `commodity_type_id`, if the table holds one.
    pub fn get_rate(&self, commodity_type_id: &CommodityTypeID) -> (r: Option<&Decimal>)
        ensures
            match r {
                Some(d) => self.rates@.dom().contains(commodity_type_id@) && d@
                    == self.rates@[commodity_type_id@],
                None => !self.rates@.dom().contains(commodity_type_id@),
            },
    {
        self.rates.get(commodity_type_id)
    }

    /// Convert a commodity to the target commodity type through this
    /// exchange rate.
    pub fn convert(&self, commodity: Commodity, target_commodity_type: CommodityTypeID) -> (r:
        Result<Commodity, ExchangeRateError>)
        requires
            convert_defined(
                base_view(self.base),
                self.rates@,
                commodity.value@,
                commodity.type_id@,
                target_commodity_type@,
            ),
        ensures
            ({
                let s = convert_spec(
                    base_view(self.base),
                    self.rates@,
                    commodity.value@,
                    commodity.type_id@,
                    target_commodity_type@,
                );
                match s {
                    Ok(v) => r matches Ok(c) && c.value@ == v && c.type_id
                        == target_commodity_type,
                    Err(RateErrorV::NotPresent(idv)) => r matches Err(
                        ExchangeRateError::CommodityTypeNotPresent(x),
                    ) && x@ == idv,
                    Err(RateErrorV::DivideOverflow(n, d)) => r matches Err(
                        ExchangeRateError::DivideOverflow(nd, dd),
                    ) && nd@ == n && dd@ == d,
                }
            }),
    {
        if let Some(base) = &self.base {
            if commodity.type_id == *base {
                if let Some(rate) = self.rates.get(&target_commodity_type) {
                    let value = rate.checked_mul(&commodity.value).unwrap();
                    return Ok(Commodity::new(value, target_commodity_type));
                }
            }
            if target_commodity_type == *base {
                if let Some(rate) = self.rates.get(&commodity.type_id) {
                    return match commodity.value.checked_div(rate) {
                        Some(div) => Ok(Commodity::new(div, target_commodity_type)),
                        None => Err(ExchangeRateError::DivideOverflow(commodity.value, *rate)),
                    };
                }
            }
        }
        let commodity_rate = match self.rates.get(&commodity.type_id) {
            Some(rate) => rate,
            None => {
                return Err(ExchangeRateError::CommodityTypeNotPresent(commodity.type_id));
            },
        };
        let target_rate = match self.rates.get(&target_commodity_type) {
            Some(rate) => rate,
            None => {
                return Err(ExchangeRateError::CommodityTypeNotPresent(target_commodity_type));
            },
        };
        let div = match commodity.value.checked_div(commodity_rate) {
            Some(d) => d,
            None => {
                return Err(
                    ExchangeRateError::DivideOverflow(commodity.value, *commodity_rate),
                );
            },
        };
        let value = div.checked_mul(target_rate).unwrap();
        Ok(Commodity::new(value, target_commodity_type))
    }

    /// The exchange rate between two commodity types present in this
    /// table; `Ok(None)` reports an id the cross path does not find.
    pub fn rate_between(&self, from: &CommodityTypeID, to: &CommodityTypeID) -> (r: Result<
        Option<Decimal>,
        ExchangeRateError,
    >)
        ensures
            ({
                let s = rb_spec(base_view(self.base), self.rates@, from@, to@);
                match s {
                    Ok(Some(v)) => r matches Ok(Some(d)) && d@ == v,
                    Ok(None) => r matches Ok(None),
                    Err(RateErrorV::NotPresent(idv)) => r matches Err(
                        ExchangeRateError::CommodityTypeNotPresent(x),
                    ) && x@ == idv,
                    Err(RateErrorV::DivideOverflow(n, d)) => r matches Err(
                        ExchangeRateError::DivideOverflow(nd, dd),
                    ) && nd@ == n && dd@ == d,
                }
            }),
    {
        if let Some(base) = &self.base {
            if *from == *base {
                if let Some(rate) = self.rates.get(to) {
                    return Ok(Some(*rate));
                }
            }
            if *to == *base {
                if let Some(rate) = self.rates.get(from) {
                    let one = Decimal::new(1, 0);
                    return match one.checked_div(rate) {
                        Some(value) => Ok(Some(value)),
                        None => Err(ExchangeRateError::DivideOverflow(one, *rate)),
                    };
                }
            }
        }
        let from_rate = match self.rates.get(from) {
            Some(rate) => rate,
            None => {
                return Ok(None);
            },
        };
        let to_rate = match self.rates.get(to) {
            Some(rate) => rate,
            None => {
                return Ok(None);
            },
        };
        match to_rate.checked_div(from_rate) {
            Some(value) => Ok(Some(value)),
            None => Err(ExchangeRateError::DivideOverflow(*to_rate, *from_rate)),
        }
    }
}

/// Base pass-through: with a base set, converting a value already
/// denominated in the base to a type the table quotes multiplies the
/// value by that type's rate.
pub proof fn lemma_convert_base_pass_through(
    base: Seq<char>,
    rates: Map<Seq<char>, DecV>,
    value: DecV,
    target: Seq<char>,
)
    requires
        rates.dom().contains(target),
        dec_mul_of(rates[target], value) is Some,
    ensures
        convert_spec(Some(base), rates, value, base, target) == Ok::<DecV, RateErrorV>(
            dec_mul_of(rates[target], value)->0,
        ),
{
}

/// Base inverse: with a base set, converting a value denominated in a
/// quoted type other than the base into the base divides the value by
/// that type's rate, and reports the division the decimal layer rejects.
pub proof fn lemma_convert_base_inverse(
    base: Seq<char>,
    rates: Map<Seq<char>, DecV>,
    value: DecV,
    from: Seq<char>,
)
    requires
        from != base,
        rates.dom().contains(from),
    ensures
        match dec_div_of(value, rates[from]) {
            Some(q) => convert_spec(Some(base), rates, value, from, base) == Ok::<
                DecV,
                RateErrorV,
            >(q),
            None => convert_spec(Some(base), rates, value, from, base) == Err::<
                DecV,
                RateErrorV,
            >(RateErrorV::DivideOverflow(value, rates[from])),
        },
{
}

/// `rate_between` mirrors `convert` out of the base: converting one unit
/// of the base to a quoted type yields exactly the rate that
/// `rate_between` reports for the pair.
pub proof fn lemma_rate_between_mirrors_convert_from_base(
    base: Seq<char>,
    rates: Map<Seq<char>, DecV>,
    to: Seq<char>,
)
    requires
        rates.dom().contains(to),
        dec_wf(rates[to]),
    ensures
        rb_spec(Some(base), rates, base, to) == Ok::<Option<DecV>, RateErrorV>(
            Some(rates[to]),
        ),
        convert_spec(Some(base), rates, (DecV { m: 1, e: 0 }), base, to) matches Ok(v)
            && dec_num_eq(v, rates[to]),
{
    let one = DecV { m: 1, e: 0 };
    let rt = rates[to];
    if rt.m == 0 {
        assert(dec_mul_of(rt, one) == Some(DecV { m: 0, e: 0 }));
        assert(dec_num_eq(DecV { m: 0, e: 0 }, rt));
    } else {
        assert(rt.m * 1 == rt.m);
        assert(dec_mul_of(rt, one) == Some(rt));
    }
}

/// `rate_between` mirrors `convert` into the base: converting one unit of
/// a quoted type other than the base into the base performs the very
/// division whose result — or whose rejection by the decimal layer —
/// `rate_between` reports for the pair.
pub proof fn lemma_rate_between_mirrors_convert_to_base(
    base: Seq<char>,
    rates: Map<Seq<char>, DecV>,
    from: Seq<char>,
)
    requires
        from != base,
        rates.dom().contains(from),
    ensures
        ({
            let one = DecV { m: 1, e: 0 };
            match dec_div_of(one, rates[from]) {
                Some(q) => convert_spec(Some(base), rates, one, from, base) == Ok::<
                    DecV,
                    RateErrorV,
                >(q) && rb_spec(Some(base), rates, from, base) == Ok::<
                    Option<DecV>,
                    RateErrorV,
                >(Some(q)),
                None => convert_spec(Some(base), rates, one, from, base) == Err::<
                    DecV,
                    RateErrorV,
                >(RateErrorV::DivideOverflow(one, rates[from])) && rb_spec(
                    Some(base),
                    rates,
                    from,
                    base,
                ) == Err::<Option<DecV>, RateErrorV>(
                    RateErrorV::DivideOverflow(one, rates[from]),
                ),
            }
        }),
{
}

} // verus!
