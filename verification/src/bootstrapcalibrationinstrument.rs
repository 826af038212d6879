//! Leg facts used when calibration instruments are priced during a bootstrap step.
use vstd::prelude::*;

use crate::cashflows::{CashflowType, Leg};
use crate::errors::QSError;
use crate::time::{date_le, lemma_date_order, Date};

verus! {

/// The earliest payment date among the disbursements of `cfs`, if any.
pub open spec fn earliest_disbursement<T>(cfs: Seq<CashflowType<T>>) -> Option<Date>
    decreases cfs.len(),
{
    if cfs.len() == 0 {
        None
    } else {
        let prev = earliest_disbursement(cfs.drop_last());
        match cfs.last() {
            CashflowType::Disbursement(c) => match prev {
                None => Some(c.payment_date),
                Some(d) => Some(if date_le(d, c.payment_date) { d } else { c.payment_date }),
            },
            _ => prev,
        }
    }
}

/// The earliest disbursement date is the date of a disbursement, and no
/// disbursement is paid before it; there is none exactly when the cashflows
/// hold no disbursement.
pub proof fn lemma_earliest_disbursement<T>(cfs: Seq<CashflowType<T>>)
    ensures
        earliest_disbursement(cfs) is None <==> forall|i: int| 0 <= i < cfs.len() ==> !(#[trigger] cfs[i] is Disbursement),
        earliest_disbursement(cfs) matches Some(d) ==> exists|i: int| 0 <= i < cfs.len() && #[trigger] cfs[i] is Disbursement
            && cfs[i].flow().payment_date == d,
        earliest_disbursement(cfs) matches Some(d) ==> forall|i: int| 0 <= i < cfs.len() && #[trigger] cfs[i] is Disbursement
            ==> date_le(d, cfs[i].flow().payment_date),
    decreases cfs.len(),
{
    if cfs.len() > 0 {
        let init = cfs.drop_last();
        lemma_earliest_disbursement(init);
        let n = cfs.len() - 1;
        assert forall|i: int| 0 <= i < n implies #[trigger] cfs[i] == init[i] by {}
        match earliest_disbursement(init) {
            Some(d) => {
                let j = choose|j: int| 0 <= j < init.len() && #[trigger] init[j] is Disbursement && init[j].flow().payment_date == d;
                assert(cfs[j] == init[j]);
                if cfs.last() is Disbursement {
                    let e = cfs.last().flow().payment_date;
                    lemma_date_order(d, e, d);
                    assert forall|i: int| 0 <= i < cfs.len() && #[trigger] cfs[i] is Disbursement implies
                        date_le(earliest_disbursement(cfs)->Some_0, cfs[i].flow().payment_date) by {
                        if i < n {
                            assert(init[i] is Disbursement);
                            lemma_date_order(e, d, cfs[i].flow().payment_date);
                        } else {
                            lemma_date_order(d, e, e);
                        }
                    }
                }
            },
            None => {
                if cfs.last() is Disbursement {
                    let e = cfs.last().flow().payment_date;
                    lemma_date_order(e, e, e);
                    assert forall|i: int| 0 <= i < cfs.len() && #[trigger] cfs[i] is Disbursement implies
                        date_le(e, cfs[i].flow().payment_date) by {
                        if i < n {
                            assert(init[i] is Disbursement);
                        }
                    }
                }
            },
        }
    }
}

/// The settlement date of a leg priced to a yield: the earliest of its
/// disbursement dates; an error when the leg has no disbursement.
pub fn settlement_date<T: Copy>(leg: &Leg<T>) -> (r: Result<Date, QSError>)
    ensures
        earliest_disbursement(leg.cashflows@) matches Some(d) ==> r == Ok::<Date, QSError>(d),
        earliest_disbursement(leg.cashflows@) is None ==> r == Err::<Date, QSError>(QSError::MissingDisbursement),
{
    let cfs = leg.cashflows();
    let n = cfs.len();
    let mut best: Option<Date> = None;
    let mut i: usize = 0;
    while i < n
        invariant
            n == cfs@.len(),
            i <= n,
            best == earliest_disbursement(cfs@.subrange(0, i as int)),
        decreases n - i,
    {
        proof {
            assert(cfs@.subrange(0, i + 1).drop_last() =~= cfs@.subrange(0, i as int));
        }
        match &cfs[i] {
            CashflowType::Disbursement(c) => {
                best = match best {
                    None => Some(c.payment_date),
                    Some(d) => Some(if d.le(&c.payment_date) { d } else { c.payment_date }),
                };
            },
            _ => {},
        }
        i = i + 1;
    }
    proof {
        assert(cfs@.subrange(0, n as int) =~= cfs@);
    }
    match best {
        Some(d) => Ok(d),
        None => Err(QSError::MissingDisbursement),
    }
}

} // verus!
