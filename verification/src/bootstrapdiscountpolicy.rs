//! Discount-curve resolution used while bootstrapping.
use vstd::prelude::*;

use crate::cashflows::{AssetClass, Leg};
use crate::collateral::{
    csa_discount_index, fixed_income_discount_index, FixedIncomeDiscountPolicy,
    SingleCurveCSADiscountPolicy,
};
use crate::currency::Currency;
use crate::errors::QSError;
use crate::marketindex::{IndexKey, MarketIndex};

verus! {

/// The value of a [`BootstrapDiscountPolicy`].
pub struct DiscountPolicyView {
    /// The primary collateral (CSA) curve.
    pub csa_index: IndexKey,
    /// The currency of the CSA.
    pub csa_currency: Currency,
    /// Per-currency collateral curves that take precedence over the CSA.
    pub overrides: Map<Currency, IndexKey>,
    /// The override curves in the order they were registered.
    pub override_indices: Seq<IndexKey>,
}

/// The curve that discounts cashflows in `ccy` (FX asset class): the override
/// registered for `ccy`, else the CSA rule.
pub open spec fn policy_index_for_currency(p: DiscountPolicyView, ccy: Currency) -> IndexKey {
    if p.overrides.contains_key(ccy) {
        p.overrides[ccy]
    } else {
        csa_discount_index(p.csa_index, p.csa_currency, ccy)
    }
}

/// The curve that discounts `leg`, or the error returned for it.
pub open spec fn policy_index_for_leg<T>(p: DiscountPolicyView, leg: Leg<T>) -> Result<IndexKey, QSError> {
    match leg.asset_class {
        AssetClass::FixedIncome => match fixed_income_discount_index(leg, true) {
            Some(k) => Ok(k),
            None => Err(QSError::MissingDiscountIndex),
        },
        AssetClass::InterestRate | AssetClass::Fx => Ok(
            csa_discount_index(p.csa_index, p.csa_currency, leg.currency),
        ),
        _ => Err(QSError::UnsupportedAssetClass(leg.asset_class)),
    }
}

/// After `index` is registered for `currency`, cashflows in `currency` are
/// discounted on `index`, and every other currency keeps its discount curve.
pub proof fn lemma_override_then_discount(before: DiscountPolicyView, after: DiscountPolicyView, currency: Currency, index: IndexKey, other: Currency)
    requires
        after.csa_index == before.csa_index,
        after.csa_currency == before.csa_currency,
        after.overrides == before.overrides.insert(currency, index),
    ensures
        policy_index_for_currency(after, currency) == index,
        other != currency ==> policy_index_for_currency(after, other) == policy_index_for_currency(before, other),
{
}

/// Without an override, cashflows in the CSA currency are discounted on the
/// CSA curve, and those in any other currency on its collateral curve against
/// the CSA currency.
pub proof fn lemma_csa_discounting(p: DiscountPolicyView, ccy: Currency)
    requires
        !p.overrides.contains_key(ccy),
    ensures
        ccy == p.csa_currency ==> policy_index_for_currency(p, ccy) == p.csa_index,
        ccy != p.csa_currency ==> policy_index_for_currency(p, ccy) == IndexKey::Collateral(ccy, p.csa_currency),
{
}

/// A fixed-income leg is discounted on the discount index it names, else on
/// the index it refers to, else on none (an error); an interest-rate or FX leg
/// on the CSA curve when it pays in the CSA currency and on its currency's
/// collateral curve against the CSA currency otherwise (overrides apply to
/// currencies, not to legs); a leg of any other asset class is refused.
pub proof fn lemma_leg_discounting<T>(p: DiscountPolicyView, leg: Leg<T>)
    ensures
        leg.asset_class == AssetClass::FixedIncome ==> {
            &&& (leg.discount_index matches Some(i) ==> policy_index_for_leg(p, leg) == Ok::<IndexKey, QSError>(i@))
            &&& (leg.discount_index is None ==> (leg.market_index matches Some(m) ==> policy_index_for_leg(p, leg) == Ok::<IndexKey, QSError>(m@)))
            &&& (leg.discount_index is None && leg.market_index is None ==> policy_index_for_leg(p, leg) == Err::<IndexKey, QSError>(QSError::MissingDiscountIndex))
        },
        (leg.asset_class == AssetClass::InterestRate || leg.asset_class == AssetClass::Fx) ==> {
            &&& (leg.currency == p.csa_currency ==> policy_index_for_leg(p, leg) == Ok::<IndexKey, QSError>(p.csa_index))
            &&& (leg.currency != p.csa_currency ==> policy_index_for_leg(p, leg) == Ok::<IndexKey, QSError>(IndexKey::Collateral(leg.currency, p.csa_currency)))
        },
        leg.asset_class != AssetClass::FixedIncome && leg.asset_class != AssetClass::InterestRate && leg.asset_class != AssetClass::Fx
            ==> policy_index_for_leg(p, leg) == Err::<IndexKey, QSError>(QSError::UnsupportedAssetClass(leg.asset_class)),
{
}

/// Index of the override registered for `ccy` in `entries`, if any.
pub open spec fn override_position(entries: Seq<(Currency, MarketIndex)>, ccy: Currency) -> int {
    choose|i: int| 0 <= i < entries.len() && entries[i].0 == ccy
}

/// The map from currency to override curve held by `entries`.
pub open spec fn overrides_map(entries: Seq<(Currency, MarketIndex)>) -> Map<Currency, IndexKey> {
    Map::new(
        |c: Currency| exists|i: int| 0 <= i < entries.len() && entries[i].0 == c,
        |c: Currency| entries[override_position(entries, c)].1@,
    )
}

/// Position of the entry for `ccy` in `entries`, if there is one.
fn find_override(entries: &Vec<(Currency, MarketIndex)>, ccy: Currency) -> (r: Option<usize>)
    ensures
        r matches Some(i) ==> i < entries@.len() && entries@[i as int].0 == ccy,
        r is None ==> forall|j: int| 0 <= j < entries@.len() ==> #[trigger] entries@[j].0 != ccy,
{
    let n = entries.len();
    let mut i: usize = 0;
    while i < n
        invariant
            n == entries@.len(),
            i <= n,
            forall|j: int| 0 <= j < i ==> #[trigger] entries@[j].0 != ccy,
        decreases n - i,
    {
        if entries[i].0 == ccy {
            return Some(i);
        }
        i = i + 1;
    }
    None
}

/// Discount-curve resolution policy used during the bootstrap.
pub struct BootstrapDiscountPolicy {
    fixed_income_discount_policy: FixedIncomeDiscountPolicy,
    csa_discount_policy: SingleCurveCSADiscountPolicy,
    /// Per-currency overrides: each currency occurs at most once.
    collateral_overrides: Vec<(Currency, MarketIndex)>,
}

impl View for BootstrapDiscountPolicy {
    type V = DiscountPolicyView;

    closed spec fn view(&self) -> DiscountPolicyView {
        DiscountPolicyView {
            csa_index: self.csa_discount_policy.csa_index@,
            csa_currency: self.csa_discount_policy.csa_currency,
            overrides: overrides_map(self.collateral_overrides@),
            override_indices: self.collateral_overrides@.map_values(|e: (Currency, MarketIndex)| e.1@),
        }
    }
}

impl BootstrapDiscountPolicy {
    #[verifier::type_invariant]
    closed spec fn inv(&self) -> bool {
        &&& self.fixed_income_discount_policy.use_market_index
        &&& forall|i: int, j: int|
            0 <= i < j < self.collateral_overrides@.len() ==> #[trigger] self.collateral_overrides@[i].0
                != #[trigger] self.collateral_overrides@[j].0
    }

    /// Creates a new bootstrap discount policy whose primary collateral curve
    /// is `csa_index` in `csa_currency`, with no per-currency override.
    pub fn new(csa_index: MarketIndex, csa_currency: Currency) -> (r: BootstrapDiscountPolicy)
        ensures
            r@.csa_index == csa_index@,
            r@.csa_currency == csa_currency,
            r@.overrides == Map::<Currency, IndexKey>::empty(),
            r@.override_indices == Seq::<IndexKey>::empty(),
    {
        let r = BootstrapDiscountPolicy {
            fixed_income_discount_policy: FixedIncomeDiscountPolicy::new(true),
            csa_discount_policy: SingleCurveCSADiscountPolicy::new(csa_index, csa_currency),
            collateral_overrides: Vec::new(),
        };
        assert(r@.overrides =~= Map::<Currency, IndexKey>::empty());
        assert(r@.override_indices =~= Seq::<IndexKey>::empty());
        r
    }

    /// Registers `index` as the collateral curve for cashflows in `currency`,
    /// replacing an earlier registration for that currency.
    pub fn with_collateral_curve(self, currency: Currency, index: MarketIndex) -> (r: BootstrapDiscountPolicy)
        ensures
            r@.csa_index == self@.csa_index,
            r@.csa_currency == self@.csa_currency,
            r@.overrides == self@.overrides.insert(currency, index@),
            !self@.overrides.contains_key(currency) ==> r@.override_indices == self@.override_indices.push(index@),
            self@.overrides.contains_key(currency) ==> exists|j: int| 0 <= j < self@.override_indices.len()
                && self@.override_indices[j] == self@.overrides[currency] && r@.override_indices == self@.override_indices.update(j, index@),
    {
        proof { use_type_invariant(&self); }
        let ghost sv = self@;
        let BootstrapDiscountPolicy { fixed_income_discount_policy, csa_discount_policy, collateral_overrides } = self;
        let mut entries = collateral_overrides;
        let ghost old_entries = entries@;
        let n = entries.len();
        let pos = find_override(&entries, currency);
        let found = pos.is_some();
        let i: usize = match pos {
            Some(k) => k,
            None => n,
        };
        if found {
            entries.set(i, (currency, index));
        } else {
            entries.push((currency, index));
        }
        proof {
            assert forall|a: int, b: int| 0 <= a < b < entries@.len() implies #[trigger] entries@[a].0
                != #[trigger] entries@[b].0 by {
                if a != i && b != i {
                    assert(entries@[a] == old_entries[a]);
                    assert(entries@[b] == old_entries[b]);
                } else if a == i {
                    assert(entries@[b] == old_entries[b]);
                } else {
                    assert(entries@[a] == old_entries[a]);
                }
            }
        }
        let r = BootstrapDiscountPolicy {
            fixed_income_discount_policy,
            csa_discount_policy,
            collateral_overrides: entries,
        };
        proof {
            let m_old = overrides_map(old_entries);
            let m_new = overrides_map(entries@);
            assert forall|c: Currency| #[trigger] m_new.contains_key(c) == m_old.insert(currency, index@).contains_key(c) by {
                if c != currency && m_old.contains_key(c) {
                    let w = choose|k: int| 0 <= k < old_entries.len() && old_entries[k].0 == c;
                    assert(entries@[w].0 == c);
                }
                if m_new.contains_key(c) {
                    let w = choose|k: int| 0 <= k < entries@.len() && entries@[k].0 == c;
                    if c != currency {
                        assert(old_entries[w].0 == c);
                    }
                }
                if c == currency {
                    if found {
                        assert(entries@[i as int].0 == c);
                    } else {
                        assert(entries@[n as int].0 == c);
                    }
                }
            }
            assert forall|c: Currency| #[trigger] m_new.contains_key(c) implies m_new[c] == m_old.insert(currency, index@)[c] by {
                let p = override_position(entries@, c);
                assert(0 <= p < entries@.len() && entries@[p].0 == c);
                if c == currency {
                    if found {
                        assert(p == i);
                    } else {
                        assert(p == n);
                    }
                } else {
                    assert(old_entries[p].0 == c);
                    let q = override_position(old_entries, c);
                    assert(0 <= q < old_entries.len() && old_entries[q].0 == c);
                    assert(p == q);
                }
            }
            assert(m_new =~= m_old.insert(currency, index@));
            let f = |e: (Currency, MarketIndex)| e.1@;
            if found {
                assert(m_old.contains_key(currency));
                let q = override_position(old_entries, currency);
                assert(0 <= q < old_entries.len() && old_entries[q].0 == currency);
                if q != i {
                    if q < i {
                        assert(old_entries[q].0 != old_entries[i as int].0);
                    } else {
                        assert(old_entries[i as int].0 != old_entries[q].0);
                    }
                }
                assert(q == i);
                assert(m_old[currency] == old_entries[q].1@);
                assert(old_entries.map_values(f)[i as int] == m_old[currency]);
                assert(entries@.map_values(f) =~= old_entries.map_values(f).update(i as int, index@));
                assert(sv.override_indices == old_entries.map_values(f));
                assert(r@.override_indices == entries@.map_values(f));
                assert(0 <= i < sv.override_indices.len() && sv.override_indices[i as int] == sv.overrides[currency]
                    && r@.override_indices == sv.override_indices.update(i as int, index@));
            } else {
                assert(!m_old.contains_key(currency));
                assert(entries@.map_values(f) =~= old_entries.map_values(f).push(index@));
            }
        }
        r
    }

    /// Returns the primary CSA curve index.
    pub fn csa_index(&self) -> (r: MarketIndex)
        ensures
            r@ == self@.csa_index,
    {
        let v = self.csa_discount_policy.discount_indices();
        v[0].duplicate()
    }

    /// Returns the currency of the CSA.
    pub fn csa_currency(&self) -> (r: Currency)
        ensures
            r == self@.csa_currency,
    {
        self.csa_discount_policy.csa_currency
    }

    /// Resolves the discount curve index for the given leg: fixed-income legs
    /// are discounted on the curve they name, interest-rate and FX legs under the CSA.
    pub fn discount_index<T: Copy>(&self, leg: &Leg<T>) -> (r: Result<MarketIndex, QSError>)
        ensures
            policy_index_for_leg(self@, *leg) matches Ok(k) ==> (r matches Ok(i) && i@ == k),
            policy_index_for_leg(self@, *leg) matches Err(e) ==> r == Err::<MarketIndex, QSError>(e),
    {
        proof { use_type_invariant(self); }
        match leg.asset_class() {
            AssetClass::FixedIncome => self.fixed_income_discount_policy.accept(leg),
            AssetClass::InterestRate | AssetClass::Fx => Ok(self.csa_discount_policy.accept_currency(leg.currency())),
            other => Err(QSError::UnsupportedAssetClass(other)),
        }
    }

    /// Resolves the discount curve index for a given currency under the FX
    /// asset class. Uses collateral overrides first, then falls back to the
    /// CSA policy.
    pub fn discount_index_for_currency(&self, currency: Currency) -> (r: Result<MarketIndex, QSError>)
        ensures
            r matches Ok(i) && i@ == policy_index_for_currency(self@, currency),
    {
        proof { use_type_invariant(self); }
        match find_override(&self.collateral_overrides, currency) {
            Some(i) => {
                proof {
                    let e = self.collateral_overrides@;
                    let p = override_position(e, currency);
                    assert(e[i as int].0 == currency);
                    assert(0 <= p < e.len() && e[p].0 == currency);
                    if p < i {
                        assert(e[p].0 != e[i as int].0);
                    } else if i < p {
                        assert(e[i as int].0 != e[p].0);
                    }
                }
                Ok(self.collateral_overrides[i].1.duplicate())
            },
            None => Ok(self.csa_discount_policy.accept_currency(currency)),
        }
    }

    /// All curves this policy can discount on: the CSA curve, then the override curves.
    pub fn all_discount_indices(&self) -> (r: Vec<MarketIndex>)
        ensures
            r@.map_values(|i: MarketIndex| i@) == seq![self@.csa_index] + self@.override_indices,
    {
        let mut out: Vec<MarketIndex> = Vec::new();
        out.push(self.csa_index());
        let n = self.collateral_overrides.len();
        let mut i: usize = 0;
        while i < n
            invariant
                n == self.collateral_overrides@.len(),
                i <= n,
                out@.map_values(|i: MarketIndex| i@) == seq![self@.csa_index]
                    + self.collateral_overrides@.subrange(0, i as int).map_values(|e: (Currency, MarketIndex)| e.1@),
            decreases n - i,
        {
            let ghost before = out@;
            out.push(self.collateral_overrides[i].1.duplicate());
            proof {
                let f = |e: (Currency, MarketIndex)| e.1@;
                let g = |i: MarketIndex| i@;
                let e = self.collateral_overrides@;
                assert(e.subrange(0, i + 1) =~= e.subrange(0, i as int).push(e[i as int]));
                assert(e.subrange(0, i as int).push(e[i as int]).map_values(f) =~= e.subrange(0, i as int).map_values(f).push(f(e[i as int])));
                assert(before.push(out@.last()).map_values(g) =~= before.map_values(g).push(g(out@.last())));
                assert(out@ =~= before.push(out@.last()));
            }
            i = i + 1;
        }
        assert(self.collateral_overrides@.subrange(0, n as int) =~= self.collateral_overrides@);
        out
    }
}

} // verus!
