//! Frame statistics of one process.

use std::collections::VecDeque;
use vstd::prelude::*;

verus! {

/// Shortest interval, in nanoseconds, that counts as a frame.
pub const MIN_FRAME_NS: u64 = 1_000_000;

/// Longest interval, in nanoseconds, that counts as a frame.
pub const MAX_FRAME_NS: u64 = 200_000_000;

/// Number of frame times that are kept per process.
pub const FRAMETIME_WINDOW: usize = 144;

/// The time from `last` to `now`; a clock that went backwards gives zero.
pub open spec fn elapsed(last: u64, now: u64) -> u64 {
    if now >= last {
        (now - last) as u64
    } else {
        0
    }
}

/// Whether an interval is plausible as the time between two frames.
pub open spec fn is_frametime(delta_ns: u64) -> bool {
    MIN_FRAME_NS <= delta_ns <= MAX_FRAME_NS
}

/// The first `n` elements of `s`, or all of them if there are fewer.
pub open spec fn first_up_to(s: Seq<u64>, n: nat) -> Seq<u64> {
    if s.len() <= n {
        s
    } else {
        s.take(n as int)
    }
}

/// What the frame statistics of one process amount to.
#[verifier::ext_equal]
pub struct ProbeModel {
    /// The timestamp that was seen last.
    pub last_ktime_ns: Option<u64>,
    /// The recent frame times in nanoseconds, newest first.
    pub frametimes: Seq<u64>,
}

impl ProbeModel {
    /// No timestamp seen yet.
    pub open spec fn empty() -> Self {
        ProbeModel { last_ktime_ns: None, frametimes: Seq::empty() }
    }

    /// The window is bounded, holds plausible frame times only, and is empty
    /// until a timestamp has been seen.
    pub open spec fn wf(self) -> bool {
        &&& self.frametimes.len() <= FRAMETIME_WINDOW
        &&& forall|i: int|
            0 <= i < self.frametimes.len() ==> is_frametime(#[trigger] self.frametimes[i])
        &&& self.last_ktime_ns is None ==> self.frametimes.len() == 0
    }

    /// The frame time that a timestamp completes, if it completes one.
    pub open spec fn completes(self, ktime_ns: u64) -> Option<u64> {
        match self.last_ktime_ns {
            Some(last) => if is_frametime(elapsed(last, ktime_ns)) {
                Some(elapsed(last, ktime_ns))
            } else {
                None
            },
            None => None,
        }
    }

    /// The statistics after one more timestamp.
    pub open spec fn ingest(self, ktime_ns: u64) -> Self {
        ProbeModel {
            last_ktime_ns: Some(ktime_ns),
            frametimes: match self.completes(ktime_ns) {
                Some(delta) => first_up_to(
                    seq![delta] + self.frametimes,
                    FRAMETIME_WINDOW as nat,
                ),
                None => self.frametimes,
            },
        }
    }

    /// The statistics after a run of timestamps, oldest first.
    pub open spec fn ingest_all(self, ktimes: Seq<u64>) -> Self
        decreases ktimes.len(),
    {
        if ktimes.len() == 0 {
            self
        } else {
            self.ingest_all(ktimes.drop_last()).ingest(ktimes.last())
        }
    }

    /// The newest frame time.
    pub open spec fn latest(self) -> Option<u64> {
        if self.frametimes.len() == 0 {
            None
        } else {
            Some(self.frametimes[0])
        }
    }
}

/// The frame times, oldest first, that lie between neighbours of a run of
/// timestamps.
pub open spec fn frametimes_between(ktimes: Seq<u64>) -> Seq<u64>
    decreases ktimes.len(),
{
    if ktimes.len() < 2 {
        Seq::empty()
    } else {
        let earlier = frametimes_between(ktimes.drop_last());
        let delta = elapsed(ktimes[ktimes.len() - 2], ktimes.last());
        if is_frametime(delta) {
            earlier.push(delta)
        } else {
            earlier
        }
    }
}

/// Frame statistics of one process: the timestamp seen last and a bounded
/// window of recent frame times.
pub struct ProbeState {
    last_ktime_ns: Option<u64>,
    frametimes: VecDeque<u64>,
}

impl View for ProbeState {
    type V = ProbeModel;

    closed spec fn view(&self) -> ProbeModel {
        ProbeModel { last_ktime_ns: self.last_ktime_ns, frametimes: self.frametimes@ }
    }
}

impl ProbeState {
    pub open spec fn wf(&self) -> bool {
        self@.wf()
    }

    /// Statistics without any timestamp.
    pub fn new() -> (state: Self)
        ensures
            state.wf(),
            state@ == ProbeModel::empty(),
    {
        ProbeState { last_ktime_ns: None, frametimes: VecDeque::with_capacity(FRAMETIME_WINDOW) }
    }

    /// Takes in the timestamp of one frame. If the time since the timestamp
    /// before it is plausible, it becomes the newest frame time, and the oldest
    /// one leaves a full window. The timestamp is remembered in any case.
    pub fn ingest(&mut self, ktime_ns: u64)
        requires
            old(self).wf(),
        ensures
            final(self).wf(),
            final(self)@ == old(self)@.ingest(ktime_ns),
    {
        if let Some(last_ns) = self.last_ktime_ns {
            let delta_ns: u64 = ktime_ns.saturating_sub(last_ns);
            if MIN_FRAME_NS <= delta_ns && delta_ns <= MAX_FRAME_NS {
                let ghost before = self.frametimes@;
                if self.frametimes.len() >= FRAMETIME_WINDOW {
                    self.frametimes.pop_back();
                }
                self.frametimes.push_front(delta_ns);
                assert(self.frametimes@ =~= first_up_to(
                    seq![delta_ns] + before,
                    FRAMETIME_WINDOW as nat,
                ));
            }
        }
        self.last_ktime_ns = Some(ktime_ns);
    }

    /// The newest frame time in nanoseconds, if there is one.
    pub fn latest_frametime(&self) -> (latest: Option<u64>)
        ensures
            latest == self@.latest(),
    {
        if self.frametimes.len() == 0 {
            None
        } else {
            Some(self.frametimes[0])
        }
    }
}

/// An interval that is not plausible as a frame time leaves the window as it
/// is. That covers a clock that stands still or goes backwards, a double
/// submission within a frame, and a pause. The timestamp still becomes the one
/// that the next interval is measured from.
pub proof fn law_implausible_interval_is_dropped(probe: ProbeModel, last: u64, now: u64)
    requires
        probe.last_ktime_ns == Some(last),
        now < last + MIN_FRAME_NS || now > last + MAX_FRAME_NS,
    ensures
        probe.ingest(now).frametimes == probe.frametimes,
        probe.ingest(now).latest() == probe.latest(),
        probe.ingest(now).last_ktime_ns == Some(now),
{
}

/// A plausible interval becomes the newest frame time, the others move up by
/// one place, and only a full window loses its oldest entry.
pub proof fn law_new_frametime_shifts_window(probe: ProbeModel, last: u64, now: u64)
    requires
        probe.wf(),
        probe.last_ktime_ns == Some(last),
        last + MIN_FRAME_NS <= now <= last + MAX_FRAME_NS,
    ensures
        probe.ingest(now).latest() == Some((now - last) as u64),
        probe.ingest(now).frametimes.len() == if probe.frametimes.len() < FRAMETIME_WINDOW {
            probe.frametimes.len() + 1
        } else {
            FRAMETIME_WINDOW as nat
        },
        forall|i: int|
            1 <= i < probe.ingest(now).frametimes.len() ==> #[trigger] probe.ingest(
                now,
            ).frametimes[i] == probe.frametimes[i - 1],
{
}

/// The first timestamp of a process completes no frame.
pub proof fn law_first_timestamp_gives_no_frametime(ktime_ns: u64)
    ensures
        ProbeModel::empty().ingest(ktime_ns).latest() is None,
        ProbeModel::empty().ingest(ktime_ns).last_ktime_ns == Some(ktime_ns),
{
}

/// Every timestamp keeps the window bounded and free of implausible values.
pub proof fn law_ingest_keeps_wf(probe: ProbeModel, ktimes: Seq<u64>)
    requires
        probe.wf(),
    ensures
        probe.ingest_all(ktimes).wf(),
    decreases ktimes.len(),
{
    if ktimes.len() > 0 {
        law_ingest_keeps_wf(probe, ktimes.drop_last());
    }
}

/// Taking in two runs of timestamps one after the other is the same as taking
/// in the joined run.
pub proof fn law_ingest_in_batches(probe: ProbeModel, first: Seq<u64>, second: Seq<u64>)
    ensures
        probe.ingest_all(first + second) == probe.ingest_all(first).ingest_all(second),
    decreases second.len(),
{
    if second.len() == 0 {
        assert(first + second =~= first);
    } else {
        law_ingest_in_batches(probe, first, second.drop_last());
        assert((first + second).drop_last() =~= first + second.drop_last());
    }
}

/// The window is the recent history: after any run of timestamps it holds the
/// last frame times of the run, newest first, as many as fit, and the newest of
/// them is the one that is reported.
pub proof fn law_window_is_recent_history(ktimes: Seq<u64>)
    ensures
        ProbeModel::empty().ingest_all(ktimes).frametimes == first_up_to(
            frametimes_between(ktimes).reverse(),
            FRAMETIME_WINDOW as nat,
        ),
        ProbeModel::empty().ingest_all(ktimes).latest() == if frametimes_between(ktimes).len()
            == 0 {
            None
        } else {
            Some(frametimes_between(ktimes).last())
        },
        ProbeModel::empty().ingest_all(ktimes).last_ktime_ns == if ktimes.len() == 0 {
            None
        } else {
            Some(ktimes.last())
        },
    decreases ktimes.len(),
{
    let history = frametimes_between(ktimes);
    if ktimes.len() == 0 {
        assert(history.reverse() =~= Seq::empty());
    } else {
        let front = ktimes.drop_last();
        let earlier = frametimes_between(front);
        let before = ProbeModel::empty().ingest_all(front);
        law_window_is_recent_history(front);
        if front.len() == 0 {
            assert(history.reverse() =~= Seq::empty());
        } else {
            let delta = elapsed(front.last(), ktimes.last());
            assert(ktimes[ktimes.len() - 2] == front.last());
            if is_frametime(delta) {
                assert(history.reverse() =~= seq![delta] + earlier.reverse());
                assert(first_up_to(
                    seq![delta] + before.frametimes,
                    FRAMETIME_WINDOW as nat,
                ) =~= first_up_to(seq![delta] + earlier.reverse(), FRAMETIME_WINDOW as nat));
            }
        }
    }
}

/// Statistics start with nothing: no timestamp and no frame time.
pub proof fn law_starts_with_nothing()
    ensures
        ProbeModel::empty().last_ktime_ns is None,
        ProbeModel::empty().frametimes.len() == 0,
        ProbeModel::empty().latest() is None,
{
}

/// Whatever happened before, a timestamp is remembered, and where none was
/// remembered before it, it completes no frame.
pub proof fn law_timestamp_is_remembered(probe: ProbeModel, ktime_ns: u64)
    ensures
        probe.ingest(ktime_ns).last_ktime_ns == Some(ktime_ns),
        probe.last_ktime_ns is None ==> probe.ingest(ktime_ns).frametimes == probe.frametimes,
{
}

/// The frame time that is reported stands at the front of the window, and one is
/// reported exactly when the window holds any.
pub proof fn law_latest_is_front_of_window(probe: ProbeModel)
    ensures
        probe.latest() is Some <==> probe.frametimes.len() > 0,
        probe.latest() matches Some(delta_ns) ==> delta_ns == probe.frametimes[0],
{
}

/// Only intervals matter: moving all timestamps by the same amount gives the
/// same window.
pub proof fn law_window_depends_on_intervals_only(
    probe: ProbeModel,
    last: u64,
    now: u64,
    shift: u64,
)
    requires
        probe.last_ktime_ns == Some(last),
        last + shift <= u64::MAX,
        now + shift <= u64::MAX,
    ensures
        (ProbeModel { last_ktime_ns: Some((last + shift) as u64), ..probe }).ingest(
            (now + shift) as u64,
        ).frametimes == probe.ingest(now).frametimes,
{
}

} // verus!
