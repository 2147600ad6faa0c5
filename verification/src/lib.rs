//! Temperature panel for a terminal dashboard: samples from hardware and
//! accelerator backends are merged, converted to the display unit, sorted
//! descending, and projected into a bounded text viewport.

use vstd::prelude::*;

pub mod units;
pub mod reading;
pub mod sort;
pub mod geom;
pub mod ext;
pub mod backend;
pub mod aggregate;
pub mod textfmt;
pub mod render;
pub mod widget;

verus! {

/// Display unit for temperature values.
#[derive(Clone, Copy, PartialEq, Eq, Structural, Debug)]
pub enum Unit {
    Celsius,
    Fahrenheit,
}

} // verus!
