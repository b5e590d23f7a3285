//! The click tracker itself: the state that lives for the whole run, and the
//! operations that change it.

use std::time::Instant;
use vstd::prelude::*;
use crate::model::Tracker;

verus! {

/// A list of recorded times as natural numbers.
pub open spec fn as_nats(values: Seq<u128>) -> Seq<nat> {
    Seq::new(values.len(), |i: int| values[i] as nat)
}

/// The click tracker. All times are in nanoseconds on the tracker's own
/// clock, which stands at zero when the tracker is created.
pub struct AppState {
    recorded: Vec<u128>,
    threshold: u128,
    anchor: u128,
    epoch: Instant,
}

impl View for AppState {
    type V = Tracker;

    closed spec fn view(&self) -> Tracker {
        Tracker {
            threshold: self.threshold as nat,
            anchor: self.anchor as nat,
            recorded: as_nats(self.recorded@),
        }
    }
}

impl AppState {
    #[verifier::type_invariant]
    spec fn inv(&self) -> bool {
        self@.wf()
    }

    /// A tracker with the given threshold and no click yet. Its clock starts
    /// now, and now is the anchor.
    pub fn new(threshold: u128) -> (state: AppState)
        ensures
            state@ == Tracker::start(threshold as nat, 0),
            state@.wf(),
    {
        let state = AppState { recorded: Vec::new(), threshold, anchor: 0, epoch: Instant::now() };
        assert(state@.recorded =~= Seq::<nat>::empty());
        state
    }

    /// The time on this tracker's clock: nanoseconds since it was created.
    fn now(&self) -> u128 {
        self.epoch.elapsed().as_nanos()
    }

    /// Forgets the current sequence and makes `now` the anchor.
    pub fn reset_at(&mut self, now: u128)
        ensures
            final(self)@ == old(self)@.reset(now as nat),
            final(self)@.wf(),
    {
        self.recorded = Vec::new();
        self.anchor = now;
        assert(self@.recorded =~= Seq::<nat>::empty());
    }

    /// Appends one entry to the list. The list is moved out of the state and
    /// back, so that the state is well formed at every step.
    fn record(&mut self, value: u128)
        requires
            value <= old(self).threshold,
            old(self).recorded@.len() == 0 ==> value == 0,
        ensures
            final(self)@ == (Tracker {
                recorded: old(self)@.recorded.push(value as nat),
                ..old(self)@
            }),
    {
        proof {
            use_type_invariant(&*self);
        }
        let mut recorded: Vec<u128> = Vec::new();
        std::mem::swap(&mut self.recorded, &mut recorded);
        recorded.push(value);
        assert(as_nats(recorded@) =~= old(self)@.recorded.push(value as nat));
        self.recorded = recorded;
    }

    /// Forgets the current sequence and makes the current time the anchor.
    /// Whatever the clock says, the outcome is that of `reset_at` for some
    /// time.
    pub fn reset(&mut self)
        ensures
            exists|now: nat| final(self)@ == old(self)@.reset(now),
            final(self)@.wf(),
            final(self)@.threshold == old(self)@.threshold,
            final(self)@.recorded.len() == 0,
    {
        let now = self.now();
        self.reset_at(now);
    }

    /// Records a click at time `now`. The first click of a sequence, and a
    /// click that comes later than the threshold allows, start a new sequence
    /// with a zero entry; any other click appends the time since the anchor.
    pub fn on_click_at(&mut self, now: u128)
        ensures
            final(self)@ == old(self)@.click(now as nat),
            final(self)@.wf(),
    {
        let elapsed: u128 = if now >= self.anchor {
            now - self.anchor
        } else {
            0
        };
        if self.recorded.len() == 0 || elapsed > self.threshold {
            self.reset_at(now);
            self.record(0);
            assert(self@.recorded =~= seq![0nat]);
        } else {
            self.record(elapsed);
        }
        proof {
            use_type_invariant(&*self);
        }
    }

    /// Records a click at the current time. Whatever the clock says, the
    /// outcome is that of `on_click_at` for some time.
    pub fn on_click(&mut self)
        ensures
            exists|now: nat| final(self)@ == old(self)@.click(now),
            final(self)@.wf(),
            final(self)@.threshold == old(self)@.threshold,
            final(self)@.recorded.len() > 0,
    {
        let now = self.now();
        self.on_click_at(now);
    }

    /// The recorded times of the current sequence, oldest first. None exceeds
    /// the threshold, and the first, if there is one, is zero.
    pub fn snapshot(&self) -> (recorded: &Vec<u128>)
        ensures
            as_nats(recorded@) == self@.recorded,
            forall|i: int| 0 <= i < recorded@.len() ==> recorded@[i] <= self@.threshold,
            recorded@.len() > 0 ==> recorded@[0] == 0,
            self@.wf(),
    {
        proof {
            use_type_invariant(self);
            assert forall|i: int| 0 <= i < self.recorded@.len() implies self.recorded@[i]
                <= self@.threshold by {
                assert(self@.recorded[i] == self.recorded@[i] as nat);
            }
            if self.recorded@.len() > 0 {
                assert(self@.recorded[0] == self.recorded@[0] as nat);
            }
        }
        &self.recorded
    }
}

/// Taking a snapshot changes nothing, and what it shows is decided by the
/// state alone: two snapshots of one state, with no click or reset between
/// them, hold the same times in the same order.
pub proof fn lemma_snapshot_is_stable(state: AppState, first: Vec<u128>, second: Vec<u128>)
    requires
        as_nats(first@) == state@.recorded,
        as_nats(second@) == state@.recorded,
    ensures
        first@ == second@,
{
    assert(first@.len() == as_nats(first@).len());
    assert(second@.len() == as_nats(second@).len());
    assert forall|i: int| 0 <= i < first@.len() implies first@[i] == second@[i] by {
        assert(as_nats(first@)[i] == first@[i] as nat);
        assert(as_nats(second@)[i] == second@[i] as nat);
    }
    assert(first@ =~= second@);
}

} // verus!
