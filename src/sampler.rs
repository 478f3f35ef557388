//! A paced, failure-isolating stream of samples.
//!
//! The sampler decides when the next capture is due and what each capture
//! yields; the caller keeps the clock, sleeps, and performs the captures.
//! Times are microseconds since the sampler started.
use vstd::prelude::*;
use crate::spy::{CaptureError, LockingStrategy};
use crate::trace::StackTrace;

verus! {

/// Microseconds between two captures unless configured otherwise: a
/// hundred samples a second.
pub const SAMPLING_INTERVAL: u64 = 10000;

/// The result of one capture: the traces of all threads read, or why it failed.
pub type Sample = Result<Vec<StackTrace>, CaptureError>;

/// The state of a stream of samples.
#[derive(Clone, Copy, Debug)]
pub struct Sampler {
    /// How the target is treated during each capture.
    pub strategy: LockingStrategy,
    /// Microseconds between two captures.
    pub interval: u64,
    /// The stream ends after this many samples, when set.
    pub max_samples: Option<u64>,
    /// No capture starts at or after this time, when set.
    pub max_duration: Option<u64>,
    /// Samples yielded so far.
    pub produced: u64,
    /// When the next capture is due.
    pub next_due: u64,
    /// Whether the stream has ended for good.
    pub ended: bool,
}

/// Whether a sample says that the target has exited.
pub open spec fn is_exit(c: Sample) -> bool {
    c == Err::<Vec<StackTrace>, CaptureError>(CaptureError::ProcessExited)
}

/// Whether one of the configured bounds stops the stream at time `now`.
pub open spec fn bound_reached(s: Sampler, now: u64) -> bool {
    (match s.max_samples {
        Some(m) => s.produced >= m,
        None => false,
    }) || (match s.max_duration {
        Some(d) => now >= d,
        None => false,
    })
}

/// How long to wait at time `now` before the next capture, or `None` when
/// the stream is over.
pub open spec fn spec_due(s: Sampler, now: u64) -> Option<u64> {
    if s.ended || bound_reached(s, now) {
        None
    } else if now < s.next_due {
        Some((s.next_due - now) as u64)
    } else {
        Some(0)
    }
}

/// When the capture after one finished at `now` is due: one interval after
/// the last due time, or at once when the last capture overran it, so that
/// late captures are never made up in a burst.
pub open spec fn next_slot(s: Sampler, now: u64) -> u64 {
    let planned = if s.next_due + s.interval > u64::MAX {
        u64::MAX
    } else {
        (s.next_due + s.interval) as u64
    };
    if planned < now {
        now
    } else {
        planned
    }
}

/// The state after a capture that finished at `now` gave `c`, and what the
/// stream yields for it.
///
/// An ended stream yields nothing. Otherwise every capture is yielded, a
/// failed one too; an exited target ends the stream, as does reaching the
/// sample bound.
pub open spec fn spec_record(s: Sampler, now: u64, c: Sample) -> (Sampler, Option<Sample>) {
    if s.ended {
        (s, None)
    } else {
        let produced = if s.produced == u64::MAX {
            s.produced
        } else {
            (s.produced + 1) as u64
        };
        let ended = is_exit(c) || match s.max_samples {
            Some(m) => produced >= m,
            None => false,
        };
        (Sampler { produced, next_due: next_slot(s, now), ended, ..s }, Some(c))
    }
}

/// What a run of captures, finished at the given times, yields.
pub open spec fn outputs(s: Sampler, times: Seq<u64>, caps: Seq<Sample>) -> Seq<Option<Sample>>
    decreases caps.len(),
{
    if caps.len() == 0 || times.len() == 0 {
        seq![]
    } else {
        let (next, out) = spec_record(s, times[0], caps[0]);
        seq![out] + outputs(next, times.drop_first(), caps.drop_first())
    }
}

impl Sampler {
    /// A stream whose first capture is due at once.
    pub fn new(
        strategy: LockingStrategy,
        interval: u64,
        max_samples: Option<u64>,
        max_duration: Option<u64>,
    ) -> (r: Self)
        ensures
            r == (Sampler {
                strategy,
                interval,
                max_samples,
                max_duration,
                produced: 0,
                next_due: 0,
                ended: false,
            }),
    {
        Sampler { strategy, interval, max_samples, max_duration, produced: 0, next_due: 0, ended: false }
    }

    /// How long to wait at time `now` before the next capture, or `None`
    /// when the stream is over.
    pub fn due(&self, now: u64) -> (r: Option<u64>)
        ensures
            r == spec_due(*self, now),
    {
        let bounded = match self.max_samples {
            Some(m) => self.produced >= m,
            None => false,
        } || match self.max_duration {
            Some(d) => now >= d,
            None => false,
        };
        if self.ended || bounded {
            None
        } else if now < self.next_due {
            Some(self.next_due - now)
        } else {
            Some(0)
        }
    }

    /// Takes in a capture that finished at `now`, and returns what the stream
    /// yields for it.
    pub fn record(&mut self, now: u64, c: Sample) -> (r: Option<Sample>)
        ensures
            (*final(self), r) == spec_record(*old(self), now, c),
    {
        if self.ended {
            return None;
        }
        let exited = match &c {
            Err(CaptureError::ProcessExited) => true,
            _ => false,
        };
        if self.produced < u64::MAX {
            self.produced = self.produced + 1;
        }
        let planned = if self.next_due > u64::MAX - self.interval {
            u64::MAX
        } else {
            self.next_due + self.interval
        };
        self.next_due = if planned < now {
            now
        } else {
            planned
        };
        let bounded = match self.max_samples {
            Some(m) => self.produced >= m,
            None => false,
        };
        self.ended = exited || bounded;
        Some(c)
    }
}

/// An ended stream stays ended and yields nothing more.
proof fn lemma_ended_yields_nothing(s: Sampler, times: Seq<u64>, caps: Seq<Sample>, k: int)
    requires
        s.ended,
        0 <= k < outputs(s, times, caps).len(),
    ensures
        outputs(s, times, caps)[k] is None,
    decreases caps.len(),
{
    if k > 0 {
        lemma_ended_yields_nothing(s, times.drop_first(), caps.drop_first(), k - 1);
    }
}

/// Once the target is reported exited, the stream yields that one error and
/// then nothing, whatever captures follow and whatever budget is left.
pub proof fn lemma_exit_is_terminal(
    s: Sampler,
    now: u64,
    later_times: Seq<u64>,
    later: Seq<Sample>,
    t: u64,
)
    requires
        !s.ended,
    ensures
        spec_record(s, now, Err(CaptureError::ProcessExited)).1 == Some(
            Err::<Vec<StackTrace>, CaptureError>(CaptureError::ProcessExited),
        ),
        spec_due(spec_record(s, now, Err(CaptureError::ProcessExited)).0, t) is None,
        forall|k: int|
            0 <= k < outputs(spec_record(s, now, Err(CaptureError::ProcessExited)).0, later_times, later).len()
                ==> (#[trigger] outputs(
                spec_record(s, now, Err(CaptureError::ProcessExited)).0,
                later_times,
                later,
            )[k]) is None,
{
    let after = spec_record(s, now, Err(CaptureError::ProcessExited)).0;
    assert forall|k: int| 0 <= k < outputs(after, later_times, later).len() implies (#[trigger] outputs(
        after,
        later_times,
        later,
    )[k]) is None by {
        lemma_ended_yields_nothing(after, later_times, later, k);
    }
}

/// Failed captures never cut the stream short: while the target has not
/// exited and the sample bound is not reached, every capture, failed or not,
/// is yielded in order.
pub proof fn lemma_failures_do_not_stop(s: Sampler, times: Seq<u64>, caps: Seq<Sample>)
    requires
        !s.ended,
        times.len() == caps.len(),
        forall|k: int| 0 <= k < caps.len() ==> !is_exit(#[trigger] caps[k]),
        match s.max_samples {
            Some(m) => s.produced + caps.len() < m,
            None => true,
        },
    ensures
        outputs(s, times, caps) == caps.map_values(|c: Sample| Some(c)),
    decreases caps.len(),
{
    if caps.len() > 0 {
        let next = spec_record(s, times[0], caps[0]).0;
        assert(!is_exit(caps[0]));
        assert forall|k: int| 0 <= k < caps.drop_first().len() implies !is_exit(
            #[trigger] caps.drop_first()[k],
        ) by {
            assert(caps.drop_first()[k] == caps[k + 1]);
        }
        lemma_failures_do_not_stop(next, times.drop_first(), caps.drop_first());
        assert(outputs(s, times, caps) =~= caps.map_values(|c: Sample| Some(c)));
    } else {
        assert(outputs(s, times, caps) =~= caps.map_values(|c: Sample| Some(c)));
    }
}

} // verus!
