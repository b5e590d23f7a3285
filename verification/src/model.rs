//! The mathematical model of the click tracker, and the laws that hold of it.
//!
//! Times are natural numbers: nanoseconds counted on one clock. The tracker
//! measures every click from the start of the current sequence (the anchor),
//! not from the click before it.

use vstd::prelude::*;

verus! {

/// Nanoseconds in a millisecond.
pub const NANOS_PER_MILLI: u128 = 1_000_000;

/// What a click tracker holds, as plain mathematics.
pub struct Tracker {
    /// The longest time since the anchor at which a click still belongs to the
    /// current sequence.
    pub threshold: nat,
    /// The time at which the current sequence started.
    pub anchor: nat,
    /// One entry per click of the current sequence, oldest first: the time
    /// from the anchor to that click.
    pub recorded: Seq<nat>,
}

impl Tracker {
    /// The tracker as it is created at time `now`: no click yet.
    pub open spec fn start(threshold: nat, now: nat) -> Tracker {
        Tracker { threshold, anchor: now, recorded: Seq::empty() }
    }

    /// No entry exceeds the threshold, and a sequence begins with a zero.
    pub open spec fn wf(self) -> bool {
        &&& forall|i: int| 0 <= i < self.recorded.len() ==> self.recorded[i] <= self.threshold
        &&& self.recorded.len() > 0 ==> self.recorded[0] == 0
    }

    /// The time from the anchor to `now`; zero where `now` lies before the
    /// anchor.
    pub open spec fn elapsed(self, now: nat) -> nat {
        if now >= self.anchor {
            (now - self.anchor) as nat
        } else {
            0
        }
    }

    /// Whether a click at `now` starts a new sequence: it is the first click,
    /// or it comes later than the threshold allows.
    pub open spec fn starts_sequence(self, now: nat) -> bool {
        self.recorded.len() == 0 || self.elapsed(now) > self.threshold
    }

    /// The tracker after an explicit reset at time `now`.
    pub open spec fn reset(self, now: nat) -> Tracker {
        Tracker { threshold: self.threshold, anchor: now, recorded: Seq::empty() }
    }

    /// The tracker after a click at time `now`.
    pub open spec fn click(self, now: nat) -> Tracker {
        if self.starts_sequence(now) {
            Tracker { threshold: self.threshold, anchor: now, recorded: seq![0nat] }
        } else {
            Tracker {
                threshold: self.threshold,
                anchor: self.anchor,
                recorded: self.recorded.push(self.elapsed(now)),
            }
        }
    }

    /// The tracker after one click at each of `times`, in order.
    pub open spec fn clicks(self, times: Seq<nat>) -> Tracker
        decreases times.len(),
    {
        if times.len() == 0 {
            self
        } else {
            self.clicks(times.drop_last()).click(times.last())
        }
    }
}

/// A click keeps the tracker well formed and never changes the threshold;
/// afterwards the list is not empty and its first entry is zero.
pub proof fn lemma_click_keeps_wf(t: Tracker, now: nat)
    requires
        t.wf(),
    ensures
        t.click(now).wf(),
        t.click(now).threshold == t.threshold,
        t.click(now).recorded.len() > 0,
        t.click(now).recorded[0] == 0,
{
}

/// A reset leaves a well-formed, empty tracker with the same threshold,
/// whatever it held before.
pub proof fn lemma_reset_is_wf(t: Tracker, now: nat)
    ensures
        t.reset(now).wf(),
        t.reset(now).threshold == t.threshold,
        t.reset(now).anchor == now,
        t.reset(now).recorded.len() == 0,
{
}

/// No run of clicks brings an entry above the threshold: a well-formed
/// tracker stays well formed, with its threshold unchanged, and once a click
/// has come the list starts with zero.
pub proof fn lemma_clicks_keep_wf(t: Tracker, times: Seq<nat>)
    requires
        t.wf(),
    ensures
        t.clicks(times).wf(),
        t.clicks(times).threshold == t.threshold,
        forall|i: int|
            0 <= i < t.clicks(times).recorded.len() ==> t.clicks(times).recorded[i] <= t.threshold,
        times.len() > 0 ==> t.clicks(times).recorded.len() > 0 && t.clicks(times).recorded[0] == 0,
    decreases times.len(),
{
    if times.len() > 0 {
        lemma_clicks_keep_wf(t, times.drop_last());
        lemma_click_keeps_wf(t.clicks(times.drop_last()), times.last());
    }
}

/// The first click after a reset records exactly one entry, zero, and becomes
/// the anchor, however long after the reset it comes.
pub proof fn lemma_first_click_after_reset(t: Tracker, reset_time: nat, now: nat)
    ensures
        t.reset(reset_time).click(now).recorded == seq![0nat],
        t.reset(reset_time).click(now).anchor == now,
        t.reset(reset_time).click(now).threshold == t.threshold,
{
}

/// After a reset the list starts with zero as soon as it holds anything,
/// whatever clicks follow.
pub proof fn lemma_first_entry_after_reset_is_zero(t: Tracker, reset_time: nat, times: Seq<nat>)
    requires
        times.len() > 0,
    ensures
        t.reset(reset_time).clicks(times).recorded.len() > 0,
        t.reset(reset_time).clicks(times).recorded[0] == 0,
{
    lemma_reset_is_wf(t, reset_time);
    lemma_clicks_keep_wf(t.reset(reset_time), times);
}

/// A click that comes later after the anchor than the threshold allows is not
/// recorded with its own time: the list is cleared, the click becomes the
/// anchor, and the list holds the single entry zero.
pub proof fn lemma_late_click_starts_again(t: Tracker, now: nat)
    requires
        t.elapsed(now) > t.threshold,
    ensures
        t.click(now).recorded == seq![0nat],
        t.click(now).anchor == now,
        t.click(now).threshold == t.threshold,
{
}

/// After a click that came too late the list starts with zero, whatever
/// clicks follow.
pub proof fn lemma_first_entry_after_late_click_is_zero(t: Tracker, now: nat, times: Seq<nat>)
    requires
        t.elapsed(now) > t.threshold,
    ensures
        t.click(now).clicks(times).recorded.len() > 0,
        t.click(now).clicks(times).recorded[0] == 0,
{
    lemma_late_click_starts_again(t, now);
    lemma_clicks_keep_wf(t.click(now), times);
    if times.len() == 0 {
        assert(t.click(now).clicks(times) == t.click(now));
    }
}

/// A click within the threshold of the anchor, on a list that is not empty,
/// appends the time since the anchor and changes nothing else.
pub proof fn lemma_click_in_time_appends(t: Tracker, now: nat)
    requires
        t.recorded.len() > 0,
        t.anchor <= now,
        now - t.anchor <= t.threshold,
    ensures
        t.click(now).recorded == t.recorded.push((now - t.anchor) as nat),
        t.click(now).anchor == t.anchor,
        t.click(now).threshold == t.threshold,
{
}

/// Every click of a sequence is measured from the first click of it. Let the
/// click times rise strictly, let the first of them start a sequence, and let
/// the last come no later after the first than the threshold allows: then the
/// list holds, click by click, the time since the first click.
pub proof fn lemma_sequence_is_measured_from_its_start(t: Tracker, times: Seq<nat>)
    requires
        times.len() > 0,
        forall|i: int, j: int| 0 <= i < j < times.len() ==> times[i] < times[j],
        t.starts_sequence(times[0]),
        times.last() - times[0] <= t.threshold,
    ensures
        t.clicks(times).anchor == times[0],
        t.clicks(times).threshold == t.threshold,
        t.clicks(times).recorded.len() == times.len(),
        forall|i: int|
            0 <= i < times.len() ==> t.clicks(times).recorded[i] == times[i] - times[0],
    decreases times.len(),
{
    let earlier = times.drop_last();
    if earlier.len() == 0 {
        assert(t.clicks(earlier) == t);
        assert(times.last() == times[0]);
    } else {
        lemma_sequence_is_measured_from_its_start(t, earlier);
        lemma_click_in_time_appends(t.clicks(earlier), times.last());
    }
}

/// With a threshold of zero no click is in time: while the click times rise
/// strictly, each click starts a sequence of its own, and the list holds the
/// single entry zero after every one of them.
pub proof fn lemma_zero_threshold_keeps_one_entry(t: Tracker, times: Seq<nat>)
    requires
        t.threshold == 0,
        times.len() > 0,
        forall|i: int, j: int| 0 <= i < j < times.len() ==> times[i] < times[j],
        t.starts_sequence(times[0]),
    ensures
        t.clicks(times).recorded == seq![0nat],
        t.clicks(times).anchor == times.last(),
        t.clicks(times).threshold == 0,
    decreases times.len(),
{
    let earlier = times.drop_last();
    if earlier.len() == 0 {
        assert(t.clicks(earlier) == t);
        assert(times.last() == times[0]);
    } else {
        lemma_zero_threshold_keeps_one_entry(t, earlier);
        assert(earlier.last() == times[times.len() - 2]);
        lemma_late_click_starts_again(t.clicks(earlier), times.last());
    }
}

} // verus!
