//! Generic cashflow discounting: the discount curves it requests and the
//! legs it accepts.
use vstd::prelude::*;
use core::marker::PhantomData;

use crate::cashflows::Leg;
use crate::errors::QSError;
use crate::indexset::{contains_index};
use crate::marketdata::{ConstructedElementRequest, ElementRequestKey, MarketDataRequest};
use crate::marketindex::{IndexKey, MarketIndex};

verus! {

/// State for cashflow discounting: the computed value and the market data
/// response. `T` is the numeric type of the value, `D` that of the market data.
pub struct DCFState<T, D> {
    /// The computed DCF value.
    pub value: Option<T>,
    /// Market data response for discount curves.
    pub md_response: Option<D>,
}

impl<T, D> DCFState<T, D> {
    /// An empty state.
    pub fn new() -> (r: DCFState<T, D>)
        ensures
            r.value is None,
            r.md_response is None,
    {
        DCFState { value: None, md_response: None }
    }

    /// The market data response, if any.
    pub fn get_market_data_reponse(&self) -> (r: Option<&D>)
        ensures
            r is Some <==> self.md_response is Some,
            r matches Some(d) ==> self.md_response == Some(*d),
    {
        self.md_response.as_ref()
    }

    /// The market data response, if any, for modification.
    pub fn get_market_data_reponse_mut(&mut self) -> (r: Option<&mut D>)
        ensures
            r is Some <==> old(self).md_response is Some,
            r matches Some(d) ==> old(self).md_response == Some(*d) && final(self).md_response == Some(*final(d)),
            r is None ==> final(self).md_response is None,
            final(self).value == old(self).value,
    {
        self.md_response.as_mut()
    }
}

/// The distinct indices the legs refer to, in order of first occurrence.
pub open spec fn leg_indices<T>(legs: Seq<Leg<T>>) -> Seq<IndexKey>
    decreases legs.len(),
{
    if legs.len() == 0 {
        Seq::empty()
    } else {
        let prev = leg_indices(legs.drop_last());
        match legs.last().market_index {
            Some(i) => if prev.contains(i@) {
                prev
            } else {
                prev.push(i@)
            },
            None => prev,
        }
    }
}

/// The indices requested for a set of legs are each index some leg refers to,
/// every one of them, and each once.
pub proof fn lemma_leg_indices<T>(legs: Seq<Leg<T>>)
    ensures
        leg_indices(legs).no_duplicates(),
        forall|j: int| 0 <= j < legs.len() ==> ((#[trigger] legs[j]).market_index matches Some(m) ==> leg_indices(legs).contains(m@)),
        forall|i: int| 0 <= i < leg_indices(legs).len() ==> exists|j: int| 0 <= j < legs.len()
            && (#[trigger] legs[j]).market_index is Some && legs[j].market_index->Some_0@ == #[trigger] leg_indices(legs)[i],
    decreases legs.len(),
{
    if legs.len() > 0 {
        let init = legs.drop_last();
        lemma_leg_indices(init);
        let prev = leg_indices(init);
        let cur = leg_indices(legs);
        assert forall|j: int| 0 <= j < legs.len() implies ((#[trigger] legs[j]).market_index matches Some(m) ==> cur.contains(m@)) by {
            if j < legs.len() - 1 {
                assert(legs[j] == init[j]);
                if legs[j].market_index is Some {
                    let m = legs[j].market_index->Some_0;
                    let k = choose|k: int| 0 <= k < prev.len() && prev[k] == m@;
                    assert(cur[k] == prev[k]);
                }
            } else {
                if legs[j].market_index is Some {
                    let m = legs[j].market_index->Some_0;
                    if !prev.contains(m@) {
                        assert(cur[cur.len() - 1] == m@);
                    }
                }
            }
        }
        assert forall|i: int| 0 <= i < cur.len() implies exists|j: int| 0 <= j < legs.len()
            && (#[trigger] legs[j]).market_index is Some && legs[j].market_index->Some_0@ == #[trigger] cur[i] by {
            if i < prev.len() {
                assert(cur[i] == prev[i]);
                let j = choose|j: int| 0 <= j < init.len() && (#[trigger] init[j]).market_index is Some && init[j].market_index->Some_0@ == prev[i];
                assert(legs[j] == init[j]);
            } else {
                assert(legs[legs.len() - 1] == legs.last());
            }
        }
    }
}

/// The market data request of a set of legs: one discount curve per distinct
/// index the legs refer to, in order of first occurrence.
pub fn market_data_request_from_legs<T: Copy>(legs: &[Leg<T>]) -> (r: MarketDataRequest)
    ensures
        r.constructed_elements matches Some(v) && v@.map_values(|e: ConstructedElementRequest| e@) == leg_indices(legs@).map_values(|k: IndexKey| ElementRequestKey::DiscountCurve(k)),
        r.fixings is None,
        r.fx is None,
        !r.exchange_rates,
{
    let mut discount_curves: Vec<ConstructedElementRequest> = Vec::new();
    let mut seen: Vec<MarketIndex> = Vec::new();
    let n = legs.len();
    let mut i: usize = 0;
    while i < n
        invariant
            n == legs@.len(),
            i <= n,
            seen@.map_values(|m: MarketIndex| m@) == leg_indices(legs@.subrange(0, i as int)),
            discount_curves@.map_values(|e: ConstructedElementRequest| e@) == leg_indices(legs@.subrange(0, i as int)).map_values(|k: IndexKey| ElementRequestKey::DiscountCurve(k)),
        decreases n - i,
    {
        let ghost prev = leg_indices(legs@.subrange(0, i as int));
        proof {
            assert(legs@.subrange(0, i + 1).drop_last() =~= legs@.subrange(0, i as int));
            assert(legs@.subrange(0, i + 1).last() == legs@[i as int]);
        }
        match legs[i].market_index() {
            Some(index) => {
                let present = contains_index(&seen, index);
                proof {
                    let f = |m: MarketIndex| m@;
                    if present {
                        let j = choose|j: int| 0 <= j < seen@.len() && (#[trigger] seen@[j])@ == index@;
                        assert(seen@.map_values(f)[j] == index@);
                        assert(prev.contains(index@));
                    } else {
                        if prev.contains(index@) {
                            let j = choose|j: int| 0 <= j < prev.len() && prev[j] == index@;
                            assert(seen@.map_values(f)[j] == seen@[j]@);
                        }
                    }
                }
                if !present {
                    let ghost s0 = seen@;
                    let ghost d0 = discount_curves@;
                    seen.push(index.duplicate());
                    discount_curves.push(ConstructedElementRequest::DiscountCurve { market_index: index.duplicate() });
                    proof {
                        let f = |m: MarketIndex| m@;
                        let g = |e: ConstructedElementRequest| e@;
                        let h = |k: IndexKey| ElementRequestKey::DiscountCurve(k);
                        assert(seen@.map_values(f) =~= s0.map_values(f).push(index@));
                        assert(discount_curves@.map_values(g) =~= d0.map_values(g).push(h(index@)));
                        assert(prev.push(index@).map_values(h) =~= prev.map_values(h).push(h(index@)));
                    }
                }
            },
            None => {},
        }
        i = i + 1;
    }
    proof {
        assert(legs@.subrange(0, n as int) =~= legs@);
    }
    MarketDataRequest::empty().with_constructed_elements_request(discount_curves)
}

/// Every leg must be linear: the first leg that is not is reported by its identifier.
pub fn validate_linear_legs<T: Copy>(legs: &[Leg<T>]) -> (r: Result<(), QSError>)
    ensures
        (forall|i: int| 0 <= i < legs@.len() ==> (#[trigger] legs@[i]).is_linear) <==> r is Ok,
        r matches Err(e) ==> exists|i: int| 0 <= i < legs@.len() && !(#[trigger] legs@[i]).is_linear
            && e == QSError::NonLinearLeg(legs@[i].leg_id) && forall|j: int| 0 <= j < i ==> legs@[j].is_linear,
{
    let n = legs.len();
    let mut i: usize = 0;
    while i < n
        invariant
            n == legs@.len(),
            i <= n,
            forall|j: int| 0 <= j < i ==> (#[trigger] legs@[j]).is_linear,
        decreases n - i,
    {
        if !legs[i].is_linear() {
            assert(!legs@[i as int].is_linear);
            return Err(QSError::NonLinearLeg(legs[i].leg_id()));
        }
        i = i + 1;
    }
    Ok(())
}

/// Generic cashflow discounting pricer for any trade with linear cashflows,
/// parameterised by the instrument type `I` and the trade type `T`.
pub struct CashflowDiscountPricer<I, T> {
    _phantom: PhantomData<(I, T)>,
}

impl<I, T> CashflowDiscountPricer<I, T> {
    /// Creates a new [`CashflowDiscountPricer`].
    pub fn new() -> (r: CashflowDiscountPricer<I, T>) {
        CashflowDiscountPricer { _phantom: PhantomData }
    }
}

} // verus!
