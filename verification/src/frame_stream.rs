//! Scheduling of a streamed render over the readback ring.
//!
//! Streaming keeps up to `RING_BUFFER_SIZE` frames in flight on the GPU, each
//! in its own readback slot (`frame % RING_BUFFER_SIZE`), so submission of
//! frame N overlaps the readback of earlier frames. A slot is reused only
//! after its oldest submission has been drained, draining is FIFO, and a
//! frame that needs the CPU fallback first drains everything in flight. The
//! sink therefore receives every frame exactly once, in frame order.
//!
//! The scheduler decides; the caller performs the actions it returns (wait
//! for and read back a slot, submit a frame, render a frame on the CPU) and
//! reports the next frame's compile outcome.
use vstd::prelude::*;
use std::collections::VecDeque;

verus! {

/// Number of readback slots per resolution.
pub const RING_BUFFER_SIZE: usize = 2;

/// A frame submitted to the GPU and not yet read back.
#[derive(Clone, Copy, Debug, PartialEq, Eq, Structural)]
pub struct InFlightFrame {
    pub frame: u32,
    pub slot: usize,
}

/// One step the caller performs, in order.
#[derive(Clone, Copy, Debug, PartialEq, Eq, Structural)]
pub enum StreamAction {
    /// Wait for `frame`'s submission, read `slot` back and hand the pixels
    /// to the sink.
    Drain { frame: u32, slot: usize },
    /// Encode and submit `frame` into `slot`.
    Submit { frame: u32, slot: usize },
    /// Render `frame` with the CPU fallback and hand it to the sink.
    RenderOnCpu { frame: u32 },
}

/// Frames that reach the sink through `actions`, in order.
pub open spec fn delivered_by(actions: Seq<StreamAction>) -> Seq<u32>
    decreases actions.len(),
{
    if actions.len() == 0 {
        Seq::empty()
    } else {
        let rest = delivered_by(actions.drop_last());
        match actions.last() {
            StreamAction::Drain { frame, .. } => rest.push(frame),
            StreamAction::RenderOnCpu { frame } => rest.push(frame),
            StreamAction::Submit { .. } => rest,
        }
    }
}

/// Draining `pending`, oldest first.
pub open spec fn drain_actions(pending: Seq<InFlightFrame>) -> Seq<StreamAction> {
    pending.map_values(|f: InFlightFrame| StreamAction::Drain { frame: f.frame, slot: f.slot })
}

/// The frame order `0, 1, ..., n - 1`.
pub open spec fn frames_upto(n: int) -> Seq<u32> {
    Seq::new(n as nat, |i: int| i as u32)
}

pub struct FrameStreamScheduler {
    in_flight: VecDeque<InFlightFrame>,
    next_frame: u32,
    total: u32,
    delivered: Ghost<Seq<u32>>,
}

impl FrameStreamScheduler {
    /// Frames handed to the sink so far, in order.
    pub closed spec fn delivered(&self) -> Seq<u32> {
        self.delivered@
    }

    /// Frames submitted to the GPU and not yet drained, oldest first.
    pub closed spec fn pending(&self) -> Seq<InFlightFrame> {
        self.in_flight@
    }

    /// The next frame the scheduler expects.
    pub closed spec fn next(&self) -> u32 {
        self.next_frame
    }

    pub closed spec fn frame_count(&self) -> u32 {
        self.total
    }

    /// Delivered frames are exactly `0..d` and the in-flight frames are
    /// `d..next`, each in the slot `frame % RING_BUFFER_SIZE`; at most
    /// `RING_BUFFER_SIZE` frames are in flight, so no two share a slot.
    pub closed spec fn wf(&self) -> bool {
        let d = self.delivered@.len();
        &&& self.next_frame <= self.total
        &&& d + self.in_flight@.len() == self.next_frame
        &&& self.in_flight@.len() <= RING_BUFFER_SIZE
        &&& self.delivered@ =~= frames_upto(d as int)
        &&& forall|k: int|
            0 <= k < self.in_flight@.len() ==> (#[trigger] self.in_flight@[k]).frame == d + k
                && self.in_flight@[k].slot == (d + k) % (RING_BUFFER_SIZE as int)
    }

    /// A scheduler for a stream of `total` frames.
    pub fn new(total: u32) -> (s: Self)
        ensures
            s.wf(),
            s.next() == 0,
            s.frame_count() == total,
            s.delivered().len() == 0,
            s.pending().len() == 0,
    {
        FrameStreamScheduler {
            in_flight: VecDeque::new(),
            next_frame: 0,
            total,
            delivered: Ghost(Seq::empty()),
        }
    }

    /// Whether every frame has been scheduled.
    pub fn is_complete(&self) -> (done: bool)
        ensures
            done == (self.next() == self.frame_count()),
    {
        self.next_frame == self.total
    }

    /// Drain every in-flight frame, oldest first.
    fn drain_all(&mut self, actions: &mut Vec<StreamAction>)
        requires
            old(self).wf(),
        ensures
            final(self).wf(),
            final(self).pending().len() == 0,
            final(self).next() == old(self).next(),
            final(self).frame_count() == old(self).frame_count(),
            final(self).delivered() == old(self).delivered() + delivered_by(
                final(actions)@.skip(old(actions)@.len() as int),
            ),
            final(actions)@ == old(actions)@ + drain_actions(old(self).pending()),
    {
        let ghost start = actions@.len();
        let ghost orig = self.in_flight@;
        while self.in_flight.len() > 0
            invariant
                self.wf(),
                self.next() == old(self).next(),
                self.frame_count() == old(self).frame_count(),
                actions@.len() >= start,
                start == old(actions)@.len(),
                orig == old(self).pending(),
                self.in_flight@.len() <= orig.len(),
                self.in_flight@ == orig.skip(orig.len() - self.in_flight@.len()),
                actions@ == old(actions)@ + drain_actions(
                    orig.take(orig.len() - self.in_flight@.len()),
                ),
                self.delivered() == old(self).delivered() + delivered_by(
                    actions@.skip(start as int),
                ),
            decreases self.in_flight@.len(),
        {
            let ghost before = actions@;
            let ghost queue = self.in_flight@;
            let oldest = self.in_flight.pop_front().unwrap();
            let act = StreamAction::Drain { frame: oldest.frame, slot: oldest.slot };
            actions.push(act);
            proof {
                let d = self.delivered@.len();
                let done = orig.len() - queue.len();
                assert(oldest == queue[0]);
                assert(queue[0] == orig[done]);
                assert(orig.take(done + 1) =~= orig.take(done).push(orig[done]));
                assert(drain_actions(orig.take(done + 1)) =~= drain_actions(orig.take(done)).push(act));
                assert(actions@ =~= old(actions)@ + drain_actions(orig.take(done + 1)));
                assert(self.in_flight@ =~= orig.skip(done + 1));
                assert(actions@.skip(start as int) =~= before.skip(start as int).push(act));
                assert(actions@.skip(start as int).drop_last() =~= before.skip(start as int));
                self.delivered@ = self.delivered@.push(oldest.frame);
                assert(self.delivered@ =~= frames_upto(d as int + 1));
                assert forall|k: int| 0 <= k < self.in_flight@.len() implies (#[trigger] self.in_flight@[k]).frame
                    == (d + 1) + k && self.in_flight@[k].slot == ((d + 1) + k) % (
                RING_BUFFER_SIZE as int) by {
                    assert(self.in_flight@[k] == queue[k + 1]);
                }
            }
        }
        assert(orig.take(orig.len() as int) =~= orig);
    }

    /// Schedule the next frame, given whether it compiled for the GPU.
    pub fn schedule_frame(&mut self, gpu_compiled: bool) -> (actions: Vec<StreamAction>)
        requires
            old(self).wf(),
            old(self).next() < old(self).frame_count(),
        ensures
            final(self).wf(),
            final(self).next() == old(self).next() + 1,
            final(self).frame_count() == old(self).frame_count(),
            final(self).delivered() == old(self).delivered() + delivered_by(actions@),
            gpu_compiled ==> actions@ == (if old(self).pending().len() == RING_BUFFER_SIZE {
                drain_actions(old(self).pending().take(1))
            } else {
                Seq::empty()
            }).push(
                StreamAction::Submit {
                    frame: old(self).next(),
                    slot: (old(self).next() as int % RING_BUFFER_SIZE as int) as usize,
                },
            ),
            gpu_compiled ==> final(self).pending().last() == (InFlightFrame {
                frame: old(self).next(),
                slot: (old(self).next() as int % RING_BUFFER_SIZE as int) as usize,
            }),
            !gpu_compiled ==> actions@ == drain_actions(old(self).pending()).push(
                StreamAction::RenderOnCpu { frame: old(self).next() },
            ) && final(self).pending().len() == 0,
    {
        let frame = self.next_frame;
        let mut actions: Vec<StreamAction> = Vec::new();
        if !gpu_compiled {
            self.drain_all(&mut actions);
            let ghost before = actions@;
            actions.push(StreamAction::RenderOnCpu { frame });
            proof {
                assert(before.skip(0) =~= before);
                assert(before =~= drain_actions(old(self).pending()));
                assert(actions@.drop_last() =~= before);
                let d = self.delivered@.len();
                self.delivered@ = self.delivered@.push(frame);
                assert(self.delivered@ =~= frames_upto(d as int + 1));
            }
            self.next_frame = frame + 1;
            return actions;
        }
        let slot: usize = (frame as usize) % RING_BUFFER_SIZE;
        let ghost del0 = self.delivered@;
        if self.in_flight.len() == RING_BUFFER_SIZE {
            let ghost queue = self.in_flight@;
            let oldest = self.in_flight.pop_front().unwrap();
            actions.push(StreamAction::Drain { frame: oldest.frame, slot: oldest.slot });
            proof {
                let d = self.delivered@.len();
                assert(oldest == queue[0]);
                assert(actions@.drop_last() =~= Seq::<StreamAction>::empty());
                assert(delivered_by(actions@.drop_last()) =~= Seq::<u32>::empty());
                assert(actions@.last() == StreamAction::Drain { frame: oldest.frame, slot: oldest.slot });
                assert(delivered_by(actions@) =~= seq![oldest.frame]);
                assert(actions@ =~= drain_actions(queue.take(1)));
                self.delivered@ = self.delivered@.push(oldest.frame);
                assert(self.delivered@ =~= frames_upto(d as int + 1));
                assert(self.in_flight@[0] == queue[1]);
            }
        }
        let ghost before = actions@;
        let ghost queue = self.in_flight@;
        self.in_flight.push_back(InFlightFrame { frame, slot });
        actions.push(StreamAction::Submit { frame, slot });
        proof {
            assert(actions@.drop_last() =~= before);
            assert(delivered_by(actions@) == delivered_by(before));
            assert(before =~= (if old(self).pending().len() == RING_BUFFER_SIZE {
                drain_actions(old(self).pending().take(1))
            } else {
                Seq::empty()
            }));
            assert(self.delivered@ =~= del0 + delivered_by(before));
            assert forall|k: int| 0 <= k < self.in_flight@.len() implies (#[trigger] self.in_flight@[k]).frame
                == self.delivered@.len() + k && self.in_flight@[k].slot == (self.delivered@.len()
                + k) % (RING_BUFFER_SIZE as int) by {
                if k < queue.len() {
                    assert(self.in_flight@[k] == queue[k]);
                }
            }
        }
        self.next_frame = frame + 1;
        actions
    }

    /// Drain what is still in flight once every frame has been scheduled.
    pub fn finish(&mut self) -> (actions: Vec<StreamAction>)
        requires
            old(self).wf(),
            old(self).next() == old(self).frame_count(),
        ensures
            final(self).wf(),
            final(self).pending().len() == 0,
            actions@ == drain_actions(old(self).pending()),
            final(self).delivered() == old(self).delivered() + delivered_by(actions@),
            final(self).delivered() == frames_upto(old(self).frame_count() as int),
    {
        let mut actions: Vec<StreamAction> = Vec::new();
        self.drain_all(&mut actions);
        proof {
            assert(actions@.skip(0) =~= actions@);
            assert(actions@ =~= drain_actions(old(self).pending()));
        }
        actions
    }
}

/// Slot exclusivity: frames in flight at the same time never share a
/// readback slot.
pub proof fn lemma_in_flight_slots_distinct(s: &FrameStreamScheduler)
    requires
        s.wf(),
    ensures
        forall|a: int, b: int|
            0 <= a < s.pending().len() && 0 <= b < s.pending().len() && a != b ==> (
            #[trigger] s.pending()[a]).slot != (#[trigger] s.pending()[b]).slot,
{
    let d = s.delivered().len() as int;
    assert forall|a: int, b: int|
        0 <= a < s.pending().len() && 0 <= b < s.pending().len() && a != b implies (
        #[trigger] s.pending()[a]).slot != (#[trigger] s.pending()[b]).slot by {
        assert(s.pending()[a].slot == (d + a) % 2);
        assert(s.pending()[b].slot == (d + b) % 2);
        assert(s.pending().len() <= 2);
    }
}

/// The frames delivered by two action lists performed one after the other
/// are those of the first followed by those of the second.
pub proof fn lemma_delivered_by_append(a: Seq<StreamAction>, b: Seq<StreamAction>)
    ensures
        delivered_by(a + b) == delivered_by(a) + delivered_by(b),
    decreases b.len(),
{
    if b.len() == 0 {
        assert(a + b =~= a);
        assert(delivered_by(a) + delivered_by(b) =~= delivered_by(a));
    } else {
        assert((a + b).drop_last() =~= a + b.drop_last());
        assert((a + b).last() == b.last());
        lemma_delivered_by_append(a, b.drop_last());
        match b.last() {
            StreamAction::Submit { .. } => {},
            _ => {
                assert((delivered_by(a) + delivered_by(b.drop_last())).push(
                    delivered_by(b).last(),
                ) =~= delivered_by(a) + delivered_by(b));
            },
        }
    }
}

/// A whole stream delivers every frame exactly once, in frame order. Each
/// call of `schedule_frame` and `finish` returns an action list that adds
/// its deliveries to the scheduler's delivered frames (`delivered[k + 1]`
/// after the `k`-th list `batches[k]`), a new scheduler has delivered none,
/// and `finish` leaves `frames_upto(total)`; so performing all the lists in
/// order delivers `0, 1, ..., total - 1`.
pub proof fn lemma_stream_delivers_every_frame_in_order(
    batches: Seq<Seq<StreamAction>>,
    delivered: Seq<Seq<u32>>,
    total: int,
)
    requires
        delivered.len() == batches.len() + 1,
        delivered[0] == Seq::<u32>::empty(),
        forall|k: int|
            0 <= k < batches.len() ==> #[trigger] delivered[k + 1] == delivered[k] + delivered_by(
                batches[k],
            ),
        delivered.last() == frames_upto(total),
    ensures
        delivered_by(batches.flatten()) == frames_upto(total),
{
    lemma_rest_of_stream(batches, delivered, 0);
    assert(batches.skip(0) =~= batches);
    assert(Seq::<u32>::empty() + delivered_by(batches.flatten()) =~= delivered_by(
        batches.flatten(),
    ));
}

proof fn lemma_rest_of_stream(batches: Seq<Seq<StreamAction>>, delivered: Seq<Seq<u32>>, k: int)
    requires
        delivered.len() == batches.len() + 1,
        0 <= k <= batches.len(),
        forall|i: int|
            0 <= i < batches.len() ==> #[trigger] delivered[i + 1] == delivered[i] + delivered_by(
                batches[i],
            ),
    ensures
        delivered[k] + delivered_by(batches.skip(k).flatten()) == delivered.last(),
    decreases batches.len() - k,
{
    if k == batches.len() {
        assert(batches.skip(k) =~= Seq::<Seq<StreamAction>>::empty());
        assert(delivered[k] + Seq::<u32>::empty() =~= delivered[k]);
    } else {
        lemma_rest_of_stream(batches, delivered, k + 1);
        let rest = batches.skip(k);
        assert(rest.first() == batches[k]);
        assert(rest.drop_first() =~= batches.skip(k + 1));
        lemma_delivered_by_append(batches[k], batches.skip(k + 1).flatten());
        assert(delivered[k + 1] == delivered[k] + delivered_by(batches[k]));
        assert(delivered[k] + delivered_by(rest.flatten()) =~= (delivered[k] + delivered_by(
            batches[k],
        )) + delivered_by(batches.skip(k + 1).flatten()));
    }
}

} // verus!
