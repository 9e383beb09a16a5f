//! Lookup tables for the recency heatmap, and the mapper that turns one
//! grid snapshot into a color frame.
//!
//! The hue gradient and the decay curve are built once, before the
//! pipeline starts, and validated here; every frame is colored by two
//! table lookups per cell.

use vstd::prelude::*;

use crate::dvs_const::DVS_X;
use crate::dvs_const::DVS_Y;
use crate::frame::Frame;

verus! {

/// One RGB pixel, channel order red, green, blue.
#[derive(Debug, Clone, Copy, PartialEq, Eq)]
pub struct Color {
    pub data: [u8; 3],
}

impl Color {
    pub fn new(data: [u8; 3]) -> (c: Color)
        ensures
            c.data == data,
    {
        Color { data }
    }
}

/// A hue gradient is one background entry followed by 512 hue steps:
/// entry 0 is black, every recency intensity indexes below its length.
pub open spec fn valid_gradient(colors: Seq<Color>) -> bool {
    &&& colors.len() == 513
    &&& colors[0].data[0] == 0
    &&& colors[0].data[1] == 0
    &&& colors[0].data[2] == 0
}

/// The color lookup table mapping a recency intensity to a pixel.
#[derive(Debug)]
pub struct ColorRange {
    colors: Vec<Color>,
}

impl View for ColorRange {
    type V = Seq<Color>;

    closed spec fn view(&self) -> Seq<Color> {
        self.colors@
    }
}

impl ColorRange {
    /// Accepts a gradient only if it has exactly one entry per
    /// half-degree hue step plus the background, and the background
    /// entry is black.
    pub fn new(colors: Vec<Color>) -> (r: Option<ColorRange>)
        ensures
            r is Some <==> valid_gradient(colors@),
            match r {
                Some(cr) => cr@ == colors@,
                None => true,
            },
    {
        if colors.len() != 513 {
            return None;
        }
        let first = colors[0];
        if first.data[0] != 0 || first.data[1] != 0 || first.data[2] != 0 {
            return None;
        }
        Some(ColorRange { colors })
    }

    pub fn color_at(&self, i: usize) -> (c: Color)
        requires
            i < self@.len(),
        ensures
            c == self@[i as int],
    {
        self.colors[i]
    }
}

/// A decay curve, sampled to whole intensity steps: it starts at full
/// intensity 500, never leaves `1..=500`, and never increases, so every
/// entry indexes within a valid gradient.
pub open spec fn valid_decay_samples(vals: Seq<u16>) -> bool {
    &&& vals.len() >= 1
    &&& vals[0] == 500
    &&& forall|i: int| 0 <= i < vals.len() ==> 1 <= #[trigger] vals[i] <= 500
    &&& forall|i: int| 0 <= i < vals.len() - 1 ==> #[trigger] vals[i] >= vals[i + 1]
}

/// The intensity lookup table mapping elapsed-time buckets to a
/// decaying recency intensity.
#[derive(Debug)]
pub struct DecayValues {
    vals: Vec<u16>,
}

impl View for DecayValues {
    type V = Seq<u16>;

    closed spec fn view(&self) -> Seq<u16> {
        self.vals@
    }
}

impl DecayValues {
    /// Accepts a sampled curve only if it starts at intensity 500,
    /// stays within `1..=500`, and never increases.
    pub fn new(vals: Vec<u16>) -> (r: Option<DecayValues>)
        ensures
            r is Some <==> valid_decay_samples(vals@),
            match r {
                Some(dv) => dv@ == vals@,
                None => true,
            },
    {
        if vals.len() == 0 {
            return None;
        }
        if vals[0] != 500 {
            return None;
        }
        let mut i: usize = 0;
        while i < vals.len()
            invariant
                i <= vals.len(),
                forall|j: int| 0 <= j < i ==> 1 <= #[trigger] vals@[j] <= 500,
                forall|j: int| 0 <= j < i && j < vals@.len() - 1 ==> #[trigger] vals@[j] >= vals@[j + 1],
            decreases vals.len() - i,
        {
            if vals[i] < 1 || vals[i] > 500 {
                return None;
            }
            if i + 1 < vals.len() {
                if vals[i] < vals[i + 1] {
                    return None;
                }
            }
            i = i + 1;
        }
        Some(DecayValues { vals })
    }

    pub fn len_vals(&self) -> (n: usize)
        ensures
            n == self@.len(),
    {
        self.vals.len()
    }

    pub fn value_at(&self, i: usize) -> (v: u16)
        requires
            i < self@.len(),
        ensures
            v == self@[i as int],
    {
        self.vals[i]
    }
}

/// Law: an accepted decay table never increases, between any two
/// entries, not only between neighbours: longer inactivity never maps
/// to a higher intensity.
pub proof fn lemma_decay_samples_monotone(vals: Seq<u16>, i: int, j: int)
    requires
        valid_decay_samples(vals),
        0 <= i <= j < vals.len(),
    ensures
        vals[i] >= vals[j],
    decreases j - i,
{
    if i < j {
        lemma_decay_samples_monotone(vals, i, j - 1);
        assert(vals[j - 1] >= vals[j]);
    }
}

/// The color of one grid cell: the elapsed time since the cell's last
/// activation, in whole frame intervals, indexes the decay curve, and
/// the resulting intensity indexes the gradient; a cell past the end of
/// the curve is fully decayed and shows the background.
pub open spec fn cell_color(
    t: int,
    boundary: int,
    interval: int,
    curve: Seq<u16>,
    colors: Seq<Color>,
) -> Color
    recommends
        interval >= 1,
        0 <= t <= boundary,
        valid_decay_samples(curve),
        valid_gradient(colors),
{
    let buckets = (boundary - t) / interval;
    if buckets < curve.len() {
        colors[curve[buckets] as int]
    } else {
        colors[0]
    }
}

/// One full-resolution color frame, tagged with its sequence number.
/// Pixels are stored row-major by column: cell `(x, y)` is entry
/// `x * DVS_Y + y`.
pub struct HSVColor {
    pub frame_count: i32,
    pub arr: Vec<Color>,
}

impl HSVColor {
    /// Snapshot one grid state into a color frame: every cell gets
    /// exactly the color that `cell_color` assigns it from the frame's
    /// boundary time and the two tables.
    pub fn make_color(frame: &Frame, range: &ColorRange, decay_values: &DecayValues) -> (r:
        HSVColor)
        requires
            frame.wf(),
            valid_gradient(range@),
            valid_decay_samples(decay_values@),
        ensures
            r.frame_count == frame.frame_count,
            r.arr@.len() == DVS_X * DVS_Y,
            forall|k: int| 0 <= k < r.arr@.len() ==> r.arr@[k] == cell_color(
                frame.time_array@[k] as int,
                frame.next_frame as int,
                frame.frame_interval as int,
                decay_values@,
                range@,
            ),
    {
        let total: usize = (DVS_X * DVS_Y) as usize;
        let mut arr: Vec<Color> = Vec::new();
        let mut k: usize = 0;
        while k < total
            invariant
                frame.wf(),
                valid_gradient(range@),
                valid_decay_samples(decay_values@),
                total == DVS_X * DVS_Y,
                k <= total,
                arr@.len() == k,
                forall|j: int| 0 <= j < k ==> arr@[j] == cell_color(
                    frame.time_array@[j] as int,
                    frame.next_frame as int,
                    frame.frame_interval as int,
                    decay_values@,
                    range@,
                ),
            decreases total - k,
        {
            let t = frame.time_array[k];
            let diff = (frame.next_frame - t) as u32;
            let buckets = diff / (frame.frame_interval as u32);
            proof {
                assert(buckets as int == (frame.next_frame - t) as int / frame.frame_interval as int);
            }
            let color = if (buckets as usize) < decay_values.len_vals() {
                let v = decay_values.value_at(buckets as usize);
                range.color_at(v as usize)
            } else {
                range.color_at(0)
            };
            arr.push(color);
            k = k + 1;
        }
        HSVColor { frame_count: frame.frame_count, arr }
    }
}

/// Law: a cell that was never activated is shown as the background
/// color, in every frame whose boundary time lies at or past the end of
/// the decay curve; its last-activation time is still the initial 0.
pub proof fn lemma_untouched_cell_is_background(
    boundary: int,
    interval: int,
    curve: Seq<u16>,
    colors: Seq<Color>,
)
    requires
        interval >= 1,
        boundary >= 0,
        valid_decay_samples(curve),
        valid_gradient(colors),
        boundary / interval >= curve.len(),
    ensures
        cell_color(0, boundary, interval, curve, colors) == colors[0],
{
}

/// Law: a cell activated at time `t`, snapshotted at boundary `t`
/// itself, has elapsed zero buckets and shows the gradient entry for
/// full intensity 500.
pub proof fn lemma_fresh_cell_is_full_intensity(
    t: int,
    interval: int,
    curve: Seq<u16>,
    colors: Seq<Color>,
)
    requires
        interval >= 1,
        t >= 0,
        valid_decay_samples(curve),
        valid_gradient(colors),
    ensures
        cell_color(t, t, interval, curve, colors) == colors[500],
{
    assert((t - t) / interval == 0) by {
        assert(0int / interval == 0) by (nonlinear_arith)
            requires interval >= 1;
    }
}

} // verus!
