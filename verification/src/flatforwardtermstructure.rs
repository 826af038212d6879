//! Interest rates and the flat forward term structure.
use vstd::prelude::*;

use crate::time::{Compounding, Date, DayCounter, Frequency, RateDefinition};

verus! {

/// A rate together with how it accrues. `T` is the numeric type of the rate.
#[derive(Clone, Copy, Debug)]
pub struct InterestRate<T> {
    pub rate: T,
    pub rate_definition: RateDefinition,
}

impl<T: Copy> InterestRate<T> {
    /// Creates a rate accruing under `rate_definition`.
    pub fn from_rate_definition(rate: T, rate_definition: RateDefinition) -> (r: InterestRate<T>)
        ensures
            r.rate == rate,
            r.rate_definition == rate_definition,
    {
        InterestRate { rate, rate_definition }
    }

    /// Creates a rate from its conventions.
    pub fn new(rate: T, compounding: Compounding, frequency: Frequency, day_counter: DayCounter) -> (r: InterestRate<T>)
        ensures
            r.rate == rate,
            r.rate_definition == (RateDefinition { day_counter, compounding, frequency }),
    {
        InterestRate { rate, rate_definition: RateDefinition::new(day_counter, compounding, frequency) }
    }

    /// The rate value.
    pub fn rate(&self) -> (r: T)
        ensures
            r == self.rate,
    {
        self.rate
    }

    /// The rate definition.
    pub fn rate_definition(&self) -> (r: RateDefinition)
        ensures
            r == self.rate_definition,
    {
        self.rate_definition
    }

    /// The day-count convention.
    pub fn day_counter(&self) -> (r: DayCounter)
        ensures
            r == self.rate_definition.day_counter,
    {
        self.rate_definition.day_counter
    }

    /// The compounding convention.
    pub fn compounding(&self) -> (r: Compounding)
        ensures
            r == self.rate_definition.compounding,
    {
        self.rate_definition.compounding
    }

    /// The compounding frequency.
    pub fn frequency(&self) -> (r: Frequency)
        ensures
            r == self.rate_definition.frequency,
    {
        self.rate_definition.frequency
    }
}

/// A flat forward term structure: one rate from the reference date on.
#[derive(Clone, Debug)]
pub struct FlatForwardTermStructure<T> {
    pub reference_date: Date,
    pub rate: InterestRate<T>,
    pub pillar_label: Option<String>,
}

impl<T: Copy> FlatForwardTermStructure<T> {
    /// Creates a new [`FlatForwardTermStructure`] with the flat `rate` accruing
    /// under `rate_definition` from `reference_date`, without pillar label.
    pub fn new(reference_date: Date, rate: T, rate_definition: RateDefinition) -> (r: FlatForwardTermStructure<T>)
        ensures
            r.reference_date == reference_date,
            r.rate == (InterestRate { rate, rate_definition }),
            r.pillar_label is None,
    {
        FlatForwardTermStructure {
            reference_date,
            rate: InterestRate::from_rate_definition(rate, rate_definition),
            pillar_label: None,
        }
    }

    /// Returns the underlying interest rate.
    pub fn rate(&self) -> (r: InterestRate<T>)
        ensures
            r == self.rate,
    {
        self.rate
    }

    /// Returns the rate value.
    pub fn value(&self) -> (r: T)
        ensures
            r == self.rate.rate,
    {
        self.rate.rate()
    }

    /// Returns the rate definition.
    pub fn rate_definition(&self) -> (r: RateDefinition)
        ensures
            r == self.rate.rate_definition,
    {
        self.rate.rate_definition()
    }

    /// Returns the term structure with its pillar label set to `label`.
    pub fn with_pillar_label(self, label: String) -> (r: FlatForwardTermStructure<T>)
        ensures
            r.reference_date == self.reference_date,
            r.rate == self.rate,
            r.pillar_label == Some(label),
    {
        FlatForwardTermStructure { pillar_label: Some(label), ..self }
    }

    /// Returns the reference date of the curve.
    pub fn reference_date(&self) -> (r: Date)
        ensures
            r == self.reference_date,
    {
        self.reference_date
    }

    /// Returns the curve's nodes: none, since a flat curve has no pillar dates.
    pub fn nodes(&self) -> (r: Option<Vec<(Date, T)>>)
        ensures
            r is None,
    {
        None
    }

    /// Returns the day-count convention of the curve.
    pub fn day_counter(&self) -> (r: Option<DayCounter>)
        ensures
            r == Some(self.rate.rate_definition.day_counter),
    {
        Some(self.rate.day_counter())
    }

    /// Returns the pillar labels: the one label, when set.
    pub fn pillar_labels(&self) -> (r: Option<Vec<String>>)
        ensures
            self.pillar_label is None ==> r is None,
            self.pillar_label matches Some(l) ==> (r matches Some(v) && v@.len() == 1 && v@[0]@ == l@),
    {
        match &self.pillar_label {
            Some(l) => {
                let mut v: Vec<String> = Vec::new();
                v.push(l.clone());
                Some(v)
            },
            None => None,
        }
    }

    /// Returns the pillars of the curve: its label with the flat rate, when
    /// the label is set.
    pub fn pillars(&self) -> (r: Option<Vec<(String, T)>>)
        ensures
            self.pillar_label is None ==> r is None,
            self.pillar_label matches Some(l) ==> (r matches Some(v) && v@.len() == 1 && v@[0].0@ == l@
                && v@[0].1 == self.rate.rate),
    {
        match &self.pillar_label {
            Some(l) => {
                let mut v: Vec<(String, T)> = Vec::new();
                v.push((l.clone(), self.rate.rate()));
                Some(v)
            },
            None => None,
        }
    }
}

} // verus!
