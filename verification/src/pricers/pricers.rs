//! The available pricers.
use vstd::prelude::*;

pub use crate::pricers::generalpricers::{
    BackwardEvolutionPricer, BlackClosedFormPricer, BlackMonteCarloPricer, CloseFormPricer,
    HullWhiteClosedFormPricer, MonteCarloPricer, NormalClosedFormPricer, PDEPricer,
};

verus! {

/// Discounted-cashflow pricer.
pub struct DiscountedCashflowsPricer;

impl CloseFormPricer for DiscountedCashflowsPricer {}

} // verus!
