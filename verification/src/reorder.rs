//! Restores strict sequence order over out-of-order completions.
//!
//! Transformed frames come back from the worker pool in an arbitrary
//! order. The writer keeps the next sequence number it owes to the
//! encoder and a buffer of frames that arrived early; every frame it
//! hands out is in strictly increasing sequence order, each sequence
//! number exactly once.

use vstd::prelude::*;
use std::collections::HashMap;

verus! {

broadcast use vstd::std_specs::hash::group_hash_axioms;

/// Sequencing state between the worker pool and the video encoder.
///
/// `T` is the transformed frame payload; the writer never looks inside
/// it, it only restores the order of the sequence numbers the frames
/// were tagged with at emission time.
pub struct ReorderWriter<T> {
    current_frame_count: u64,
    buffer: HashMap<u64, T>,
}

impl<T> ReorderWriter<T> {
    /// The sequence number the encoder is owed next; everything below
    /// it has already been handed out.
    pub closed spec fn next_expected(self) -> u64 {
        self.current_frame_count
    }

    /// The frames that arrived early, keyed by sequence number.
    pub closed spec fn pending(self) -> Map<u64, T> {
        self.buffer@
    }

    /// The sequence numbers handed out so far, in the order they were
    /// handed out: exactly 0, 1, ..., `next_expected() - 1`.
    pub open spec fn written(self) -> Seq<u64> {
        Seq::new(self.next_expected() as nat, |i: int| i as u64)
    }

    /// Every sequence number seen so far, written or still pending.
    pub open spec fn accepted(self) -> Set<u64> {
        self.pending().dom().union(Set::new(|s: u64| s < self.next_expected()))
    }

    /// The buffer never holds the expected sequence number or anything
    /// below it: an in-order arrival is handed out at once.
    pub open spec fn wf(self) -> bool {
        forall|s: u64| self.pending().dom().contains(s)
            ==> self.next_expected() < s < u64::MAX
    }

    pub fn new() -> (w: Self)
        ensures
            w.wf(),
            w.next_expected() == 0,
            w.pending() == Map::<u64, T>::empty(),
    {
        ReorderWriter { current_frame_count: 0, buffer: HashMap::new() }
    }

    /// The sequence number the encoder is owed next.
    pub fn next_pending(&self) -> (s: u64)
        ensures
            s == self.next_expected(),
    {
        self.current_frame_count
    }

    /// Whether a frame with this sequence number is buffered.
    pub fn holds(&self, sequence_number: u64) -> (b: bool)
        ensures
            b == self.pending().contains_key(sequence_number),
    {
        self.buffer.contains_key(&sequence_number)
    }

    /// Take in one completed frame. If it is the expected one, it is
    /// returned for encoding together with the contiguous run of
    /// already-buffered successors; otherwise it is buffered and
    /// nothing is returned. Each accepted sequence number is handed
    /// out exactly once, in strictly increasing order.
    pub fn accept(&mut self, sequence_number: u64, frame: T) -> (out: Vec<T>)
        requires
            old(self).wf(),
            sequence_number >= old(self).next_expected(),
            sequence_number < u64::MAX,
            !old(self).pending().contains_key(sequence_number),
        ensures
            final(self).wf(),
            final(self).accepted() =~= old(self).accepted().insert(sequence_number),
            sequence_number != old(self).next_expected() ==> {
                &&& final(self).next_expected() == old(self).next_expected()
                &&& final(self).pending() == old(self).pending().insert(sequence_number, frame)
                &&& out@.len() == 0
            },
            sequence_number == old(self).next_expected() ==> {
                &&& old(self).next_expected() < final(self).next_expected()
                &&& out@.len() == final(self).next_expected() - old(self).next_expected()
                &&& out@[0] == frame
                &&& forall|s: u64| #![trigger old(self).pending().dom().contains(s)]
                    old(self).next_expected() < s < final(self).next_expected()
                        ==> old(self).pending().dom().contains(s)
                &&& forall|i: int| #![trigger out@[i]] 1 <= i < out@.len()
                    ==> out@[i] == old(self).pending()[(old(self).next_expected() + i) as u64]
                &&& final(self).pending() =~= old(self).pending().remove_keys(
                    Set::new(|s: u64| old(self).next_expected() < s < final(self).next_expected()),
                )
                &&& final(self).written() == old(self).written() + Seq::new(
                    out@.len() as nat,
                    |i: int| (old(self).next_expected() + i) as u64,
                )
            },
    {
        let mut out: Vec<T> = Vec::new();
        if sequence_number != self.current_frame_count {
            self.buffer.insert(sequence_number, frame);
            assert(self.accepted() =~= old(self).accepted().insert(sequence_number));
            return out;
        }
        let ghost c0 = self.current_frame_count;
        let ghost buf0 = self.buffer@;
        out.push(frame);
        self.current_frame_count = self.current_frame_count + 1;
        let mut done = false;
        while !done
            invariant
                c0 < self.current_frame_count <= u64::MAX,
                forall|s: u64| self.buffer@.dom().contains(s) <==> (
                    buf0.dom().contains(s) && !(c0 < s < self.current_frame_count)
                ),
                forall|s: u64| self.buffer@.dom().contains(s)
                    ==> self.buffer@[s] == buf0[s],
                forall|s: u64| buf0.dom().contains(s) ==> c0 < s < u64::MAX,
                !buf0.dom().contains(c0),
                done ==> !self.buffer@.dom().contains(self.current_frame_count),
                out@.len() == self.current_frame_count - c0,
                out@[0] == frame,
                forall|s: u64| #![trigger buf0.dom().contains(s)]
                    c0 < s < self.current_frame_count ==> buf0.dom().contains(s),
                forall|i: int| #![trigger out@[i]] 1 <= i < out@.len()
                    ==> out@[i] == buf0[(c0 + i) as u64],
            decreases u64::MAX - self.current_frame_count, (if done { 0int } else { 1int }),
        {
            let ghost pre = self.buffer@;
            let ghost pre_out = out@;
            let next = self.current_frame_count;
            match self.buffer.remove(&next) {
                Some(f) => {
                    proof {
                        assert(self.buffer@ == pre.remove(next));
                        assert(pre.contains_key(next));
                        assert(pre[next] == f);
                        assert(buf0.dom().contains(next));
                        assert(buf0[next] == f);
                    }
                    out.push(f);
                    self.current_frame_count = next + 1;
                    proof {
                        assert forall|s: u64| self.buffer@.dom().contains(s) <==> (
                            buf0.dom().contains(s) && !(c0 < s < self.current_frame_count)
                        ) by {
                            assert(pre.dom().contains(s) <==> (
                                buf0.dom().contains(s) && !(c0 < s < next)
                            ));
                        }
                        assert forall|s: u64| c0 < s < self.current_frame_count
                            implies buf0.dom().contains(s) by {
                            if s == next {
                            } else {
                                assert(c0 < s < next);
                            }
                        }
                        assert forall|i: int| #![trigger out@[i]] 1 <= i < out@.len() implies
                            out@[i] == buf0[(c0 + i) as u64] by {
                            if i < pre_out.len() {
                                assert(out@[i] == pre_out[i]);
                            } else {
                                assert(out@[i] == f);
                                assert((c0 + i) as u64 == next);
                            }
                        }
                    }
                }
                None => {
                    done = true;
                    proof {
                        assert(self.buffer@ == pre.remove(next));
                        assert(!pre.contains_key(next));
                        assert(self.buffer@ =~= pre);
                        assert forall|s: u64| self.buffer@.dom().contains(s) <==> (
                            buf0.dom().contains(s) && !(c0 < s < self.current_frame_count)
                        ) by {
                            assert(pre.dom().contains(s) <==> (
                                buf0.dom().contains(s) && !(c0 < s < next)
                            ));
                        }
                    }
                }
            }
        }
        proof {
            assert forall|s: u64| self.pending().dom().contains(s)
                implies self.next_expected() < s < u64::MAX by {
                assert(buf0.dom().contains(s));
                assert(!(c0 < s < self.current_frame_count));
            }
            assert forall|s: u64| #[trigger] self.accepted().contains(s)
                <==> old(self).accepted().insert(sequence_number).contains(s) by {
                if c0 < s < self.current_frame_count {
                    assert(buf0.dom().contains(s));
                }
            }
            assert(self.accepted() =~= old(self).accepted().insert(sequence_number));
            assert(self.pending() =~= old(self).pending().remove_keys(
                Set::new(|s: u64| c0 < s < self.current_frame_count),
            ));
            assert(self.written() =~= old(self).written() + Seq::new(
                out@.len() as nat,
                |i: int| (c0 + i) as u64,
            ));
        }
        out
    }
}

/// Law: whatever order completions arrive in, once every sequence
/// number below `k` has been accepted, the writer has handed out
/// exactly the sequence numbers `0, 1, ..., k - 1`, in that order,
/// and nothing is left pending.
pub proof fn lemma_reorder_restores_order<T>(w: ReorderWriter<T>, k: u64)
    requires
        w.wf(),
        w.accepted() =~= Set::new(|s: u64| s < k),
    ensures
        w.next_expected() == k,
        w.pending().dom() =~= Set::<u64>::empty(),
        w.written().len() == k,
        forall|i: int| 0 <= i < k ==> w.written()[i] == i,
{
    let c = w.next_expected();
    if c < k {
        assert(w.accepted().contains(c));
        assert(w.pending().dom().contains(c));
    }
    if c > k {
        assert(w.accepted().contains(k));
    }
    assert forall|s: u64| !w.pending().dom().contains(s) by {
        if w.pending().dom().contains(s) {
            assert(w.accepted().contains(s));
        }
    }
}

} // verus!
