//! The per-pixel last-activation grid and the frame emission policy.
//!
//! Events fold into the grid one at a time; when an event's timestamp
//! passes the current frame boundary, the grid as it stood before that
//! event is snapshotted into a color frame, the sequence number
//! advances, and the boundary is re-based to the event's timestamp plus
//! one frame interval.

use vstd::prelude::*;

use crate::dvs_const::DVS_X;
use crate::dvs_const::DVS_Y;
use crate::hsv_frame::ColorRange;
use crate::hsv_frame::DecayValues;
use crate::hsv_frame::HSVColor;
use crate::hsv_frame::cell_color;
use crate::hsv_frame::valid_decay_samples;
use crate::hsv_frame::valid_gradient;
use crate::pixel_event::PixelEvent;

verus! {

/// The flat grid index of cell `(x, y)`.
pub open spec fn grid_index(x: int, y: int) -> int {
    x * (DVS_Y as int) + y
}

/// Accumulation state of the ingestion loop: the grid of
/// last-activation times (flat, cell `(x, y)` at `x * DVS_Y + y`), the
/// current frame boundary, and the emission history.
pub struct Frame {
    pub frame_count: i32,
    pub time_array: Vec<i32>,
    pub next_frame: i32,
    pub frame_interval: i32,
    /// Boundary time of each emitted frame, in emission order; the
    /// frame emitted `i`-th carried sequence number `i`.
    pub emitted: Ghost<Seq<i32>>,
}

impl Frame {
    /// Grid shape, boundary monotonicity and history bookkeeping: every
    /// cell's last activation lies at or before the current boundary,
    /// emitted boundaries never decrease, and the number of emitted
    /// frames is exactly the frame count.
    pub open spec fn wf(self) -> bool {
        &&& self.time_array@.len() == DVS_X * DVS_Y
        &&& self.frame_interval >= 1
        &&& self.next_frame >= 0
        &&& forall|k: int| 0 <= k < self.time_array@.len()
            ==> 0 <= #[trigger] self.time_array@[k] <= self.next_frame
        &&& self.emitted@.len() == self.frame_count
        &&& forall|i: int| 0 <= i < self.emitted@.len() - 1
            ==> #[trigger] self.emitted@[i] <= self.emitted@[i + 1]
        &&& self.emitted@.len() > 0 ==> self.emitted@.last() <= self.next_frame
    }

    /// A fresh, unconfigured accumulator: empty history, zeroed grid.
    pub fn new() -> (f: Frame)
        ensures
            f.frame_count == 0,
            f.time_array@.len() == DVS_X * DVS_Y,
            forall|k: int| 0 <= k < f.time_array@.len() ==> #[trigger] f.time_array@[k] == 0,
            f.next_frame == 0,
            f.frame_interval == 0,
            f.emitted@ == Seq::<i32>::empty(),
    {
        let total: usize = (DVS_X * DVS_Y) as usize;
        let mut grid: Vec<i32> = Vec::new();
        let mut k: usize = 0;
        while k < total
            invariant
                k <= total,
                grid@.len() == k,
                forall|j: int| 0 <= j < k ==> #[trigger] grid@[j] == 0,
            decreases total - k,
        {
            grid.push(0);
            k = k + 1;
        }
        Frame {
            frame_count: 0,
            time_array: grid,
            next_frame: 0,
            frame_interval: 0,
            emitted: Ghost(Seq::empty()),
        }
    }

    /// Configure a fresh accumulator with the frame interval; the first
    /// boundary sits one interval after the start of the stream.
    pub fn begin(&mut self, frame_interval: i32)
        requires
            frame_interval >= 1,
            old(self).frame_count == 0,
            old(self).emitted@.len() == 0,
            old(self).time_array@.len() == DVS_X * DVS_Y,
            forall|k: int| 0 <= k < old(self).time_array@.len()
                ==> #[trigger] old(self).time_array@[k] == 0,
        ensures
            final(self).wf(),
            final(self).frame_interval == frame_interval,
            final(self).next_frame == frame_interval,
            final(self).frame_count == 0,
            final(self).emitted@ == old(self).emitted@,
            final(self).time_array@ == old(self).time_array@,
    {
        self.frame_interval = frame_interval;
        self.next_frame = frame_interval;
    }

    /// Fold one event into the accumulator.
    ///
    /// A snapshot is emitted exactly when the event's timestamp passes
    /// the current boundary; it reflects the grid *before* this event,
    /// carries the boundary as its time and the current frame count as
    /// its sequence number, and re-bases the boundary to the event's
    /// timestamp plus one interval. Afterwards an activation event
    /// stamps its cell with its timestamp; a deactivation changes
    /// nothing. Sequence numbers are therefore exactly 0, 1, 2, ... in
    /// emission order, and emitted boundary times never decrease.
    pub fn process_event(
        &mut self,
        event: &PixelEvent,
        range: &ColorRange,
        decay_values: &DecayValues,
    ) -> (emitted_frame: Option<HSVColor>)
        requires
            old(self).wf(),
            valid_gradient(range@),
            valid_decay_samples(decay_values@),
            event.timestamp >= 0,
            event.timestamp + old(self).frame_interval <= i32::MAX,
            old(self).frame_count < i32::MAX,
            0 <= event.x_address < DVS_X,
            0 <= event.y_address < DVS_Y,
        ensures
            final(self).wf(),
            final(self).frame_interval == old(self).frame_interval,
            emitted_frame is Some <==> event.timestamp > old(self).next_frame,
            match emitted_frame {
                Some(f) => {
                    &&& f.frame_count == old(self).frame_count
                    &&& f.arr@.len() == DVS_X * DVS_Y
                    &&& forall|k: int| 0 <= k < f.arr@.len() ==> f.arr@[k] == cell_color(
                        old(self).time_array@[k] as int,
                        old(self).next_frame as int,
                        old(self).frame_interval as int,
                        decay_values@,
                        range@,
                    )
                    &&& final(self).frame_count == old(self).frame_count + 1
                    &&& final(self).next_frame == event.timestamp + old(self).frame_interval
                    &&& final(self).emitted@ == old(self).emitted@.push(old(self).next_frame)
                },
                None => {
                    &&& final(self).frame_count == old(self).frame_count
                    &&& final(self).next_frame == old(self).next_frame
                    &&& final(self).emitted@ == old(self).emitted@
                },
            },
            event.polarity == 1 ==> final(self).time_array@ == old(self).time_array@.update(
                grid_index(event.x_address as int, event.y_address as int),
                event.timestamp,
            ),
            event.polarity != 1 ==> final(self).time_array@ == old(self).time_array@,
    {
        let mut emitted_frame: Option<HSVColor> = None;
        if event.timestamp > self.next_frame {
            let color_frame = HSVColor::make_color(self, range, decay_values);
            emitted_frame = Some(color_frame);
            self.frame_count = self.frame_count + 1;
            proof {
                self.emitted@ = self.emitted@.push(self.next_frame);
            }
            self.next_frame = event.timestamp + self.frame_interval;
        }
        if event.polarity == 1 {
            let idx: usize = (event.x_address as usize) * (DVS_Y as usize)
                + (event.y_address as usize);
            proof {
                assert(idx == grid_index(event.x_address as int, event.y_address as int));
                assert((event.x_address as int) * (DVS_Y as int) + (event.y_address as int)
                    < DVS_X * DVS_Y) by (nonlinear_arith)
                    requires
                        0 <= (event.x_address as int) && (event.x_address as int) < (DVS_X as int),
                        0 <= (event.y_address as int) && (event.y_address as int) < (DVS_Y as int),
                ;
            }
            self.time_array[idx] = event.timestamp;
        }
        emitted_frame
    }
}

/// Law: in a well-formed accumulator the emitted boundary times are
/// globally non-decreasing, not only between neighbours.
pub proof fn lemma_boundaries_monotone(f: Frame, i: int, j: int)
    requires
        f.wf(),
        0 <= i <= j < f.emitted@.len(),
    ensures
        f.emitted@[i] <= f.emitted@[j],
    decreases j - i,
{
    if i < j {
        lemma_boundaries_monotone(f, i, j - 1);
        assert(f.emitted@[j - 1] <= f.emitted@[j]);
    }
}

} // verus!
