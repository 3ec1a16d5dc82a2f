//! Wall-clock measurement of lookups, through the `solana_measure` crate.
//!
//! A measurement's reading depends on real time, so nothing is promised of
//! its value; the statistics code that consumes a reading is verified for
//! every value.

use vstd::prelude::*;

verus! {

/// The measurement type of the `solana_measure` crate, opaque here.
#[verifier::external_type_specification]
#[verifier::external_body]
pub struct ExMeasure(solana_measure::measure::Measure);

/// Relies on `solana_measure::measure::Measure::start`: begins a named
/// wall-clock measurement.  Nothing is promised of the reading.
pub assume_specification[ solana_measure::measure::Measure::start ](
    name: &'static str,
) -> solana_measure::measure::Measure;

/// Relies on `solana_measure::measure::Measure::stop`: fixes the elapsed
/// time of the measurement.  The elapsed time depends on real time, so
/// nothing is promised of it.
pub assume_specification[ solana_measure::measure::Measure::stop ](
    m: &mut solana_measure::measure::Measure,
);

/// Relies on `solana_measure::measure::Measure::as_us`: the fixed elapsed
/// time in microseconds.  The value depends on real time, so nothing is
/// promised of it.
pub assume_specification[ solana_measure::measure::Measure::as_us ](
    m: &solana_measure::measure::Measure,
) -> u64;

} // verus!
