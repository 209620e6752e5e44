//! Maps recorded timestamps to wall-clock waits and throttles the playback
//! clock that is announced to subscribers.
//!
//! A tracker is anchored twice when it starts: the recorded time of the first
//! message becomes recorded-time zero, and the instant of the call becomes
//! wall-clock zero.  From then on a message recorded `d` nanoseconds after the
//! first one is due `d` nanoseconds after the start.

use std::time::{Duration, Instant};
use vstd::prelude::*;

verus! {

/// Recorded time between two announcements of the playback clock: 1/60 s.
pub const NOTIFY_INTERVAL_NS: u64 = 16_666_666;

/// Waits shorter than this are not worth blocking for: one microsecond.
pub const MIN_SLEEP_NS: u64 = 1_000;

/// `std::time::Instant`, a reading of the monotonic clock.  Nothing of it is
/// visible here.
#[verifier::external_type_specification]
#[verifier::external_body]
pub struct ExInstant(Instant);

/// `std::time::Instant::now`: the current reading of the monotonic clock.
/// Nothing is claimed of the instant that comes back.
#[verifier::external_body]
fn clock_now() -> Instant {
    Instant::now()
}

/// `std::time::Instant::elapsed`: the wall-clock time that has passed since
/// `start` was taken.  It depends on when it is asked, so nothing is claimed
/// of the span.
#[verifier::external_body]
fn elapsed_since(start: &Instant) -> Duration {
    start.elapsed()
}

/// `std::time::Duration::as_nanos`: a span of time in whole nanoseconds.
/// Nothing is claimed of the number.
#[verifier::external_body]
fn whole_nanos(span: &Duration) -> u128 {
    span.as_nanos()
}

/// Recorded nanoseconds from `origin` to `target`, zero when `target` lies
/// before `origin`.
pub open spec fn due_after(origin: u64, target: u64) -> nat {
    if target >= origin {
        (target - origin) as nat
    } else {
        0
    }
}

/// How long playback has to block before a message recorded at `target` may
/// go out, when `elapsed_ns` of wall-clock time have passed since the start:
/// the part of the recorded delay that is still ahead, unless it is shorter
/// than [`MIN_SLEEP_NS`].
pub open spec fn pacing_wait(origin: u64, target: u64, elapsed_ns: u128) -> Option<u64> {
    if due_after(origin, target) >= elapsed_ns + MIN_SLEEP_NS {
        Some((due_after(origin, target) - elapsed_ns) as u64)
    } else {
        None
    }
}

/// Whether the playback clock is to be announced at recorded time `now`, the
/// last announcement having been made at `last`.
pub open spec fn notify_due(now: u64, last: u64) -> bool {
    now - last >= NOTIFY_INTERVAL_NS
}

/// The announcements made along a pass: `log_times` are the recorded times of
/// its messages in order, `last` is the time of the last announcement before
/// them (zero at the start of a pass).
pub open spec fn broadcasts(last: u64, log_times: Seq<u64>) -> Seq<u64>
    decreases log_times.len(),
{
    if log_times.len() == 0 {
        Seq::empty()
    } else if notify_due(log_times[0], last) {
        seq![log_times[0]] + broadcasts(log_times[0], log_times.drop_first())
    } else {
        broadcasts(last, log_times.drop_first())
    }
}

/// Mathematical value of a [`TimeTracker`]: three recorded times.
pub struct TrackerView {
    /// Recorded time that counts as zero: the time the tracker was started with.
    pub origin: u64,
    /// Recorded time of the message handled last.
    pub now: u64,
    /// Recorded time of the last announcement, zero before the first.
    pub last_notified: u64,
}

impl TrackerView {
    /// The tracker that was started at recorded time `offset_ns`.
    pub open spec fn started(offset_ns: u64) -> TrackerView {
        TrackerView { origin: offset_ns, now: offset_ns, last_notified: 0 }
    }

    /// How long to block before a message recorded at `target` goes out.
    pub open spec fn wait(self, target: u64, elapsed_ns: u128) -> Option<u64> {
        pacing_wait(self.origin, target, elapsed_ns)
    }

    /// The tracker after recorded time has moved to `target`.
    pub open spec fn moved(self, target: u64) -> TrackerView {
        TrackerView { origin: self.origin, now: target, last_notified: self.last_notified }
    }

    /// The announcement that is due, if one is.
    pub open spec fn announcement(self) -> Option<u64> {
        if notify_due(self.now, self.last_notified) {
            Some(self.now)
        } else {
            None
        }
    }

    /// The tracker after the announcement that was due has been made.
    pub open spec fn announced(self) -> TrackerView {
        if notify_due(self.now, self.last_notified) {
            TrackerView { origin: self.origin, now: self.now, last_notified: self.now }
        } else {
            self
        }
    }
}

/// Keeps track of the relation between recorded time and the wall clock.
pub struct TimeTracker {
    start: Instant,
    offset_ns: u64,
    now_ns: u64,
    notify_interval_ns: u64,
    notify_last: u64,
}

impl View for TimeTracker {
    type V = TrackerView;

    closed spec fn view(&self) -> TrackerView {
        TrackerView { origin: self.offset_ns, now: self.now_ns, last_notified: self.notify_last }
    }
}

impl TimeTracker {
    #[verifier::type_invariant]
    spec fn well_formed(self) -> bool {
        self.notify_interval_ns == NOTIFY_INTERVAL_NS
    }

    /// Starts a tracker that treats the present instant as recorded time `offset_ns`.
    pub fn start(offset_ns: u64) -> (tracker: Self)
        ensures
            tracker@ == TrackerView::started(offset_ns),
    {
        TimeTracker {
            start: clock_now(),
            offset_ns,
            now_ns: offset_ns,
            notify_interval_ns: NOTIFY_INTERVAL_NS,
            notify_last: 0,
        }
    }

    /// Wall-clock nanoseconds since the tracker was started.
    pub fn elapsed_ns(&self) -> u128 {
        let span = elapsed_since(&self.start);
        whole_nanos(&span)
    }

    /// Moves recorded time to `offset_ns` and says how long the caller has to
    /// block first, `elapsed_ns` being the wall-clock time since the start.
    pub fn pace(&mut self, offset_ns: u64, elapsed_ns: u128) -> (wait: Option<u64>)
        ensures
            wait == old(self)@.wait(offset_ns, elapsed_ns),
            final(self)@ == old(self)@.moved(offset_ns),
    {
        proof {
            use_type_invariant(&*self);
        }
        let due: u64 = if offset_ns >= self.offset_ns {
            offset_ns - self.offset_ns
        } else {
            0
        };
        self.now_ns = offset_ns;
        if elapsed_ns <= due as u128 && due as u128 - elapsed_ns >= MIN_SLEEP_NS as u128 {
            Some((due as u128 - elapsed_ns) as u64)
        } else {
            None
        }
    }

    /// Moves recorded time to `offset_ns` and returns the number of
    /// nanoseconds the caller has to block so that the message recorded then
    /// goes out no earlier than it was recorded, relative to the start.
    /// `None` means that it is due already.
    ///
    /// The wait is that of [`pace`](TimeTracker::pace) for the wall-clock
    /// time read during the call; it never exceeds the recorded delay since
    /// the origin.
    pub fn sleep_until(&mut self, offset_ns: u64) -> (wait: Option<u64>)
        ensures
            exists|elapsed_ns: u128| wait == #[trigger] old(self)@.wait(offset_ns, elapsed_ns),
            wait matches Some(delay) ==> MIN_SLEEP_NS <= delay <= due_after(
                old(self)@.origin,
                offset_ns,
            ),
            due_after(old(self)@.origin, offset_ns) < MIN_SLEEP_NS ==> wait is None,
            final(self)@ == old(self)@.moved(offset_ns),
    {
        let elapsed_ns: u128 = self.elapsed_ns();
        self.pace(offset_ns, elapsed_ns)
    }

    /// Returns the current recorded time when an announcement of the playback
    /// clock is due, and remembers it as the last one announced.
    pub fn notify(&mut self) -> (timestamp: Option<u64>)
        ensures
            timestamp == old(self)@.announcement(),
            final(self)@ == old(self)@.announced(),
    {
        proof {
            use_type_invariant(&*self);
        }
        let since: u64 = if self.now_ns >= self.notify_last {
            self.now_ns - self.notify_last
        } else {
            0
        };
        if since >= self.notify_interval_ns {
            self.notify_last = self.now_ns;
            Some(self.now_ns)
        } else {
            None
        }
    }
}

/// What a wait promises: after it the message is due to the nanosecond, and
/// a message that is not waited for is less than [`MIN_SLEEP_NS`] early.
pub proof fn lemma_wait_meets_the_recorded_time(origin: u64, target: u64, elapsed_ns: u128)
    ensures
        pacing_wait(origin, target, elapsed_ns) matches Some(wait) ==> elapsed_ns + wait
            == due_after(origin, target) && wait >= MIN_SLEEP_NS,
        pacing_wait(origin, target, elapsed_ns) is None ==> elapsed_ns + MIN_SLEEP_NS > due_after(
            origin,
            target,
        ),
{
}

/// Consecutive announcements of a pass are at least [`NOTIFY_INTERVAL_NS`] of
/// recorded time apart, the first of them from `last`; so they never go back.
/// This holds of every sequence of recorded times, ordered or not.
pub proof fn lemma_broadcasts_spaced(last: u64, log_times: Seq<u64>)
    ensures
        broadcasts(last, log_times).len() > 0 ==> broadcasts(last, log_times)[0] - last
            >= NOTIFY_INTERVAL_NS,
        forall|i: int|
            0 <= i && i + 1 < broadcasts(last, log_times).len() ==> #[trigger] broadcasts(
                last,
                log_times,
            )[i + 1] - broadcasts(last, log_times)[i] >= NOTIFY_INTERVAL_NS,
        forall|i: int|
            0 <= i && i + 1 < broadcasts(last, log_times).len() ==> broadcasts(last, log_times)[i]
                <= #[trigger] broadcasts(last, log_times)[i + 1],
    decreases log_times.len(),
{
    if log_times.len() > 0 {
        let rest = log_times.drop_first();
        if notify_due(log_times[0], last) {
            lemma_broadcasts_spaced(log_times[0], rest);
            let tail = broadcasts(log_times[0], rest);
            let all = broadcasts(last, log_times);
            assert(all == seq![log_times[0]] + tail);
            assert forall|i: int| 0 <= i && i + 1 < all.len() implies #[trigger] all[i + 1]
                - all[i] >= NOTIFY_INTERVAL_NS by {
                if i > 0 {
                    assert(all[i] == tail[i - 1]);
                    assert(all[i + 1] == tail[i - 1 + 1]);
                } else {
                    assert(all[1] == tail[0]);
                }
            }
        } else {
            lemma_broadcasts_spaced(last, rest);
        }
    }
}

/// Every announcement of a pass is the recorded time of one of its messages.
pub proof fn lemma_broadcasts_are_log_times(last: u64, log_times: Seq<u64>)
    ensures
        forall|i: int|
            0 <= i < broadcasts(last, log_times).len() ==> log_times.contains(
                #[trigger] broadcasts(last, log_times)[i],
            ),
    decreases log_times.len(),
{
    if log_times.len() > 0 {
        let rest = log_times.drop_first();
        let all = broadcasts(last, log_times);
        let next_last = if notify_due(log_times[0], last) {
            log_times[0]
        } else {
            last
        };
        lemma_broadcasts_are_log_times(next_last, rest);
        let tail = broadcasts(next_last, rest);
        assert forall|i: int| 0 <= i < all.len() implies log_times.contains(#[trigger] all[i]) by {
            if notify_due(log_times[0], last) && i == 0 {
                assert(log_times[0] == all[0]);
            } else {
                let j = if notify_due(log_times[0], last) {
                    i - 1
                } else {
                    i
                };
                assert(all[i] == tail[j]);
                assert(rest.contains(tail[j]));
                let k = choose|k: int| 0 <= k < rest.len() && rest[k] == tail[j];
                assert(log_times[k + 1] == tail[j]);
            }
        }
    }
}

} // verus!
