//! Sensor geometry of the event camera.

use vstd::prelude::*;

verus! {

/// Number of pixel columns on the sensor.
pub const DVS_X: i32 = 346;

/// Number of pixel rows on the sensor.
pub const DVS_Y: i32 = 260;

} // verus!
