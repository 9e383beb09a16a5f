//! Recency-heatmap video core for an event camera.
//!
//! An ordered stream of per-pixel brightness events is folded into a
//! "time of last activation" grid; at frame boundaries the grid is
//! snapshotted into a color image through two precomputed lookup
//! tables, and out-of-order transformed frames are restored to strict
//! sequence order before encoding.

use vstd::prelude::*;

pub mod config;
mod dvs_const;
pub mod frame;
pub mod hsv_frame;
pub mod pixel_event;
pub mod reorder;

pub use dvs_const::DVS_X;
pub use dvs_const::DVS_Y;

verus! {

/// Width and height, in pixels, of the resized output video frame.
/// The width is fixed; the height keeps the sensor's aspect ratio.
pub fn output_dimensions() -> (r: (i32, i32))
    ensures
        r.0 == 600,
        r.1 == 600 * (DVS_Y as int) / (DVS_X as int),
{
    (600, 600 * DVS_Y / DVS_X)
}

} // verus!
