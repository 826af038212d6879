//! Dates and the conventions attached to curves and rates.
use vstd::prelude::*;

verus! {

/// A calendar date given by year, month and day.
#[derive(Clone, Copy, Debug, PartialEq, Eq, Hash, Structural)]
pub struct Date {
    pub year: i32,
    pub month: u32,
    pub day: u32,
}

/// `a` falls on or before `b`.
pub open spec fn date_le(a: Date, b: Date) -> bool {
    a.year < b.year || (a.year == b.year && (a.month < b.month || (a.month == b.month
        && a.day <= b.day)))
}

/// The later of two dates.
pub open spec fn date_max(a: Date, b: Date) -> Date {
    if date_le(a, b) {
        b
    } else {
        a
    }
}

/// The order of dates is total and transitive.
pub proof fn lemma_date_order(a: Date, b: Date, c: Date)
    ensures
        date_le(a, a),
        date_le(a, b) || date_le(b, a),
        date_le(a, b) && date_le(b, c) ==> date_le(a, c),
        date_le(a, b) && date_le(b, a) ==> a == b,
{
}

impl Date {
    /// Creates a date from year, month and day.
    pub fn new(year: i32, month: u32, day: u32) -> (r: Date)
        ensures
            r.year == year,
            r.month == month,
            r.day == day,
    {
        Date { year, month, day }
    }

    /// Whether this date falls on or before `other`.
    pub fn le(&self, other: &Date) -> (r: bool)
        ensures
            r == date_le(*self, *other),
    {
        self.year < other.year || (self.year == other.year && (self.month < other.month || (
        self.month == other.month && self.day <= other.day)))
    }

    /// The later of two dates.
    pub fn max(self, other: Date) -> (r: Date)
        ensures
            r == date_max(self, other),
    {
        if self.le(&other) {
            other
        } else {
            self
        }
    }
}

/// Day-count conventions.
#[derive(Clone, Copy, Debug, PartialEq, Eq, Hash, Structural)]
pub enum DayCounter {
    Actual360,
    Actual365,
    Thirty360,
    ActualActual,
}

/// Payment or compounding frequencies.
#[derive(Clone, Copy, Debug, PartialEq, Eq, Hash, Structural)]
pub enum Frequency {
    Annual,
    Semiannual,
    Quarterly,
    Monthly,
}

/// Compounding conventions.
#[derive(Clone, Copy, Debug, PartialEq, Eq, Hash, Structural)]
pub enum Compounding {
    Simple,
    Compounded,
    Continuous,
}

/// Interpolation rules between curve pillars.
#[derive(Clone, Copy, Debug, PartialEq, Eq, Hash, Structural)]
pub enum Interpolator {
    Linear,
    LogLinear,
}

/// Day counter, compounding and frequency that define how a rate accrues.
#[derive(Clone, Copy, Debug, PartialEq, Eq, Structural)]
pub struct RateDefinition {
    pub day_counter: DayCounter,
    pub compounding: Compounding,
    pub frequency: Frequency,
}

impl RateDefinition {
    /// Creates a rate definition.
    pub fn new(day_counter: DayCounter, compounding: Compounding, frequency: Frequency) -> (r:
        RateDefinition)
        ensures
            r.day_counter == day_counter,
            r.compounding == compounding,
            r.frequency == frequency,
    {
        RateDefinition { day_counter, compounding, frequency }
    }

    /// The default definition: Actual/360, simple compounding, annual frequency.
    pub fn default_definition() -> (r: RateDefinition)
        ensures
            r.day_counter == DayCounter::Actual360,
            r.compounding == Compounding::Simple,
            r.frequency == Frequency::Annual,
    {
        RateDefinition::new(DayCounter::Actual360, Compounding::Simple, Frequency::Annual)
    }

    /// The day-count convention.
    pub fn day_counter(&self) -> (r: DayCounter)
        ensures
            r == self.day_counter,
    {
        self.day_counter
    }

    /// The compounding convention.
    pub fn compounding(&self) -> (r: Compounding)
        ensures
            r == self.compounding,
    {
        self.compounding
    }

    /// The compounding frequency.
    pub fn frequency(&self) -> (r: Frequency)
        ensures
            r == self.frequency,
    {
        self.frequency
    }
}

impl Default for RateDefinition {
    fn default() -> (r: RateDefinition)
        ensures
            r.day_counter == DayCounter::Actual360,
            r.compounding == Compounding::Simple,
            r.frequency == Frequency::Annual,
    {
        RateDefinition::default_definition()
    }
}

} // verus!

verus! {

/// Units of a period.
#[derive(Clone, Copy, Debug, PartialEq, Eq, Hash, Structural)]
pub enum TimeUnit {
    Days,
    Weeks,
    Months,
    Years,
}

/// A length of time, such as `3M` or `1Y`.
#[derive(Clone, Copy, Debug, PartialEq, Eq, Hash, Structural)]
pub struct Period {
    pub length: i32,
    pub unit: TimeUnit,
}

impl Period {
    /// Creates a period of `length` units.
    pub fn new(length: i32, unit: TimeUnit) -> (r: Period)
        ensures
            r.length == length,
            r.unit == unit,
    {
        Period { length, unit }
    }
}

} // verus!
