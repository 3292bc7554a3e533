//! Temperature records.

use vstd::prelude::*;

use crate::binary64::Binary64;

verus! {

/// A temperature in degrees Celsius, and the instant at which it was measured
/// in seconds since the start of 1970 in UTC.
#[derive(Clone, Copy, Debug, PartialEq, Eq, Structural)]
pub struct TemperatureRecord {
    pub timestamp: i64,
    pub temperature: Binary64,
}

} // verus!
