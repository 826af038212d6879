//! The curves available while one curve is being bootstrapped, and the
//! choice of discount and projection curve for each leg.
use vstd::prelude::*;

use crate::bootstrapdiscountpolicy::{policy_index_for_leg, BootstrapDiscountPolicy};
use crate::cashflows::Leg;
use crate::currency::Currency;
use crate::errors::QSError;
use crate::keyed::{find_key, insert_keyed, keyed_lookup, keys_distinct, keys_held, lemma_lookup_at};
use crate::marketdata::{stored_rate, ExchangeRateStore};
use crate::marketindex::{IndexKey, MarketIndex};

verus! {

/// The trial curve (the one being solved) together with the curves solved
/// before it, each under its market index; `C` is the curve type.
pub struct BootstrapStep<'a, C, T> {
    pub curves: Vec<(MarketIndex, &'a C)>,
    pub discount_policy: &'a BootstrapDiscountPolicy,
    pub fx_store: &'a ExchangeRateStore<T>,
}

impl<'a, C, T: Copy> BootstrapStep<'a, C, T> {
    /// Builds the curve set from the already-solved curves and the trial
    /// curve of `trial_index`, which replaces a solved curve of that index.
    pub fn new(
        trial_index: MarketIndex,
        trial: &'a C,
        other_curves: &'a Vec<(MarketIndex, C)>,
        discount_policy: &'a BootstrapDiscountPolicy,
        fx_store: &'a ExchangeRateStore<T>,
    ) -> (r: BootstrapStep<'a, C, T>)
        requires
            keys_distinct(other_curves@),
        ensures
            keys_distinct(r.curves@),
            keys_held(r.curves@) == keys_held(other_curves@).insert(trial_index@),
            forall|i: int| 0 <= i < r.curves@.len() && (#[trigger] r.curves@[i]).0@ == trial_index@ ==> *r.curves@[i].1 == *trial,
            forall|i: int| 0 <= i < r.curves@.len() && (#[trigger] r.curves@[i]).0@ != trial_index@ ==> exists|j: int|
                0 <= j < other_curves@.len() && other_curves@[j].0@ == r.curves@[i].0@ && other_curves@[j].1 == *r.curves@[i].1,
            r.discount_policy == discount_policy,
            r.fx_store == fx_store,
    {
        let mut curves: Vec<(MarketIndex, &'a C)> = Vec::new();
        let n = other_curves.len();
        let mut i: usize = 0;
        while i < n
            invariant
                n == other_curves@.len(),
                keys_distinct(other_curves@),
                i <= n,
                curves@.len() == i,
                forall|j: int| 0 <= j < i ==> (#[trigger] curves@[j]).0@ == other_curves@[j].0@ && *curves@[j].1 == other_curves@[j].1,
            decreases n - i,
        {
            let entry = &other_curves[i];
            curves.push((entry.0.duplicate(), &entry.1));
            i = i + 1;
        }
        proof {
            assert forall|a: int, b: int| 0 <= a < b < curves@.len() implies (#[trigger] curves@[a]).0@ != (#[trigger] curves@[b]).0@ by {
                assert(other_curves@[a].0@ != other_curves@[b].0@);
            }
            assert forall|k: IndexKey| #[trigger] keys_held(curves@).contains(k) == keys_held(other_curves@).contains(k) by {
                if keys_held(curves@).contains(k) {
                    let j = choose|j: int| 0 <= j < curves@.len() && (#[trigger] curves@[j]).0@ == k;
                    assert(other_curves@[j].0@ == k);
                }
                if keys_held(other_curves@).contains(k) {
                    let j = choose|j: int| 0 <= j < other_curves@.len() && (#[trigger] other_curves@[j]).0@ == k;
                    assert(curves@[j].0@ == k);
                }
            }
            assert(keys_held(curves@) =~= keys_held(other_curves@));
        }
        let ghost before = curves@;
        insert_keyed(&mut curves, trial_index, trial);
        proof {
            assert forall|a: int| 0 <= a < curves@.len() && (#[trigger] curves@[a]).0@ == trial_index@ implies *curves@[a].1 == *trial by {
                let w = choose|w: int| 0 <= w < curves@.len() && curves@[w].0@ == trial_index@ && curves@[w].1 == trial;
                if w < a {
                    assert(curves@[w].0@ != curves@[a].0@);
                } else if a < w {
                    assert(curves@[a].0@ != curves@[w].0@);
                }
            }
            assert forall|a: int| 0 <= a < curves@.len() && (#[trigger] curves@[a]).0@ != trial_index@ implies exists|j: int|
                0 <= j < other_curves@.len() && other_curves@[j].0@ == curves@[a].0@ && other_curves@[j].1 == *curves@[a].1 by {
                let j = choose|j: int| 0 <= j < before.len() && before[j] == #[trigger] curves@[a];
                assert(other_curves@[j].0@ == before[j].0@);
            }
        }
        BootstrapStep { curves, discount_policy, fx_store }
    }

    /// The curve held under `index`, if any.
    pub fn get(&self, index: &MarketIndex) -> (r: Option<&'a C>)
        requires
            keys_distinct(self.curves@),
        ensures
            r == keyed_lookup(self.curves@, index@),
    {
        match find_key(&self.curves, index) {
            Some(i) => {
                proof { lemma_lookup_at(self.curves@, i as int); }
                Some(self.curves[i].1)
            },
            None => None,
        }
    }

    /// The discount policy.
    pub fn discount_policy(&self) -> (r: &'a BootstrapDiscountPolicy)
        ensures
            r == self.discount_policy,
    {
        self.discount_policy
    }

    /// The curve that discounts `leg`, chosen by the discount policy; an
    /// error when the policy resolves no index for the leg or no curve of
    /// that index is held.
    pub fn discount_curve_for_leg(&self, leg: &Leg<T>) -> (r: Result<&'a C, QSError>)
        requires
            keys_distinct(self.curves@),
        ensures
            policy_index_for_leg(self.discount_policy@, *leg) matches Err(e) ==> r == Err::<&C, QSError>(e),
            policy_index_for_leg(self.discount_policy@, *leg) matches Ok(k) ==> (match keyed_lookup(self.curves@, k) {
                Some(c) => r == Ok::<&C, QSError>(c),
                None => r matches Err(QSError::MissingCurve(i)) && i@ == k,
            }),
    {
        let index = match self.discount_policy.discount_index(leg) {
            Ok(i) => i,
            Err(e) => return Err(e),
        };
        match self.get(&index) {
            Some(c) => Ok(c),
            None => Err(QSError::MissingCurve(index)),
        }
    }

    /// The curve that projects the index of `leg`, when the leg has one; an
    /// error when no curve of that index is held.
    pub fn forward_curve_for_leg(&self, leg: &Leg<T>) -> (r: Result<Option<&'a C>, QSError>)
        requires
            keys_distinct(self.curves@),
        ensures
            leg.market_index is None ==> r == Ok::<Option<&C>, QSError>(None),
            leg.market_index matches Some(m) ==> (match keyed_lookup(self.curves@, m@) {
                Some(c) => r == Ok::<Option<&C>, QSError>(Some(c)),
                None => r matches Err(QSError::MissingCurve(i)) && i@ == m@,
            }),
    {
        match leg.market_index() {
            Some(idx) => match self.get(idx) {
                Some(c) => Ok(Some(c)),
                None => Err(QSError::MissingCurve(idx.duplicate())),
            },
            None => Ok(None),
        }
    }

    /// The FX spot of `base`/`quote`; an error when none is stored.
    pub fn fx_spot(&self, base: Currency, quote: Currency) -> (r: Result<T, QSError>)
        ensures
            stored_rate(self.fx_store.rates@, base, quote) matches Some(v) ==> r == Ok::<T, QSError>(v),
            stored_rate(self.fx_store.rates@, base, quote) is None ==> r == Err::<T, QSError>(QSError::MissingExchangeRate),
    {
        self.fx_store.get_exchange_rate(base, quote)
    }
}

} // verus!
