//! The table of tracked processes, and the three operations that an
//! embedding caller uses on it: start tracking a process, stop tracking it,
//! and export its next sample into a buffer.
use vstd::prelude::*;
use rand::seq::SliceRandom;
use std::collections::HashMap;
use crate::buffer::{copy_error, error_outcome, line_outcome, too_small_message, too_small_text, write_line};
use crate::sampler::{Sample, Sampler, SAMPLING_INTERVAL};
use crate::spy::{error_message, error_text, strategy_for_flag, LockingStrategy};
use crate::trace::{first_active, first_active_line, fold_frames, folded, StackTrace};

verus! {

broadcast use vstd::std_specs::hash::group_hash_axioms;

/// The message for a process that is not tracked.
pub open spec fn missing_text() -> Seq<u8> {
    // "could not find spy for this pid"
    seq![
        99, 111, 117, 108, 100, 32, 110, 111, 116, 32,
        102, 105, 110, 100, 32, 115, 112, 121, 32, 102,
        111, 114, 32, 116, 104, 105, 115, 32, 112, 105,
        100,
    ]
}

/// Builds the bytes of `missing_text`.
pub fn missing_message() -> (r: Vec<u8>)
    ensures
        r@ == missing_text(),
{
    // "could not find spy for this pid"
    let r = vec![
        99, 111, 117, 108, 100, 32, 110, 111, 116, 32,
        102, 105, 110, 100, 32, 115, 112, 121, 32, 102,
        111, 114, 32, 116, 104, 105, 115, 32, 112, 105,
        100,
    ];
    assert(r@ =~= missing_text());
    r
}

/// The message for a failed start that came without one of its own.
pub open spec fn start_failed_text() -> Seq<u8> {
    // "could not start sampling this pid"
    seq![
        99, 111, 117, 108, 100, 32, 110, 111, 116, 32,
        115, 116, 97, 114, 116, 32, 115, 97, 109, 112,
        108, 105, 110, 103, 32, 116, 104, 105, 115, 32,
        112, 105, 100,
    ]
}

/// Builds the bytes of `start_failed_text`.
pub fn start_failed_message() -> (r: Vec<u8>)
    ensures
        r@ == start_failed_text(),
{
    // "could not start sampling this pid"
    let r = vec![
        99, 111, 117, 108, 100, 32, 110, 111, 116, 32,
        115, 116, 97, 114, 116, 32, 115, 97, 109, 112,
        108, 105, 110, 103, 32, 116, 104, 105, 115, 32,
        112, 105, 100,
    ];
    assert(r@ =~= start_failed_text());
    r
}

/// The message a failed start is reported with: its own, or the fixed one
/// when its own is empty.
pub open spec fn start_failure_text(msg: Seq<u8>) -> Seq<u8> {
    if msg.len() == 0 {
        start_failed_text()
    } else {
        msg
    }
}

/// The processes being tracked, each with the state of its sampling.
///
/// At most one entry exists per process id; starting a process again
/// replaces its entry.
pub struct Registry<S> {
    samplers: HashMap<i32, S>,
}

impl<S> View for Registry<S> {
    type V = Map<i32, S>;

    closed spec fn view(&self) -> Map<i32, S> {
        self.samplers@
    }
}

impl<S> Registry<S> {
    /// An empty table.
    pub fn new() -> (r: Self)
        ensures
            r@ == Map::<i32, S>::empty(),
    {
        Registry { samplers: HashMap::new() }
    }

    /// Tracks `pid` with `sampler`, replacing any entry it had.
    pub fn start(&mut self, pid: i32, sampler: S)
        ensures
            final(self)@ == old(self)@.insert(pid, sampler),
    {
        self.samplers.insert(pid, sampler);
    }

    /// Stops tracking `pid`; an untracked `pid` is left as it is.
    pub fn stop(&mut self, pid: i32)
        ensures
            final(self)@ == old(self)@.remove(pid),
    {
        self.samplers.remove(&pid);
    }

    /// Whether `pid` is tracked.
    pub fn is_tracked(&self, pid: i32) -> (r: bool)
        ensures
            r == self@.contains_key(pid),
    {
        self.samplers.contains_key(&pid)
    }

    /// Removes the entry of `pid` and hands it out, if there is one.
    pub fn take(&mut self, pid: i32) -> (r: Option<S>)
        ensures
            match r {
                Some(s) => old(self)@.contains_key(pid) && s == old(self)@[pid],
                None => !old(self)@.contains_key(pid),
            },
            final(self)@ == old(self)@.remove(pid),
    {
        self.samplers.remove(&pid)
    }
}

/// Stopping is idempotent: stopping a process twice leaves the table as
/// stopping it once, and stopping an untracked process changes nothing.
pub proof fn lemma_stop_idempotent<S>(m: Map<i32, S>, pid: i32)
    ensures
        m.remove(pid).remove(pid) == m.remove(pid),
        !m.remove(pid).contains_key(pid),
        !m.contains_key(pid) ==> m.remove(pid) == m,
{
    assert(m.remove(pid).remove(pid) =~= m.remove(pid));
    if !m.contains_key(pid) {
        assert(m.remove(pid) =~= m);
    }
}

/// A tracked process: what reads it, and the state of its stream of samples.
#[derive(Debug)]
pub struct Target<T> {
    pub target: T,
    pub sampler: Sampler,
}

/// The stream a process starts with under the embedding flag `blocking`:
/// zero samples without pausing the target, any other value pauses it.
pub open spec fn initial_sampler(blocking: i32) -> Sampler {
    Sampler {
        strategy: if blocking == 0 {
            LockingStrategy::NonBlocking
        } else {
            LockingStrategy::Blocking
        },
        interval: SAMPLING_INTERVAL,
        max_samples: None,
        max_duration: None,
        produced: 0,
        next_due: 0,
        ended: false,
    }
}

/// Starts tracking `pid` once the target could be attached.
///
/// With an attached target, the process is tracked with a fresh stream whose
/// strategy the flag `blocking` selects (its earlier entry, if any, is
/// replaced) and the result is 1. With a failure message, the table is left
/// as it was and the message is reported through `err` (a fixed one in place
/// of an empty message); the result is then negative.
pub fn pyspy_init<T>(
    registry: &mut Registry<Target<T>>,
    pid: i32,
    blocking: i32,
    attached: Result<T, Vec<u8>>,
    err: &mut [u8],
) -> (r: i32)
    requires
        old(err)@.len() <= i32::MAX,
        attached matches Err(msg) ==> start_failure_text(msg@).len() <= old(err)@.len()
            || too_small_text().len() <= old(err)@.len(),
    ensures
        match attached {
            Ok(t) => {
                &&& r == 1
                &&& final(registry)@ == old(registry)@.insert(
                    pid,
                    Target { target: t, sampler: initial_sampler(blocking) },
                )
                &&& final(err)@ == old(err)@
            },
            Err(msg) => {
                &&& final(registry)@ == old(registry)@
                &&& (old(err)@, final(err)@, r as int) == error_outcome(
                    old(err)@,
                    old(err)@,
                    start_failure_text(msg@),
                )
                &&& r < 0
            },
        },
{
    match attached {
        Ok(t) => {
            let sampler = Sampler::new(strategy_for_flag(blocking), SAMPLING_INTERVAL, None, None);
            registry.start(pid, Target { target: t, sampler });
            1
        },
        Err(msg) => {
            if msg.len() == 0 {
                let fixed = start_failed_message();
                copy_error(err, fixed.as_slice())
            } else {
                copy_error(err, msg.as_slice())
            }
        },
    }
}

/// Stops tracking `pid`, whether or not it was tracked. Always returns 1.
pub fn pyspy_cleanup<S>(registry: &mut Registry<S>, pid: i32) -> (r: i32)
    ensures
        r == 1,
        final(registry)@ == old(registry)@.remove(pid),
{
    registry.stop(pid);
    1
}

/// What was obtained for a process whose sample is to be exported.
#[derive(Debug)]
pub enum Pulled {
    /// The process is not tracked.
    Untracked,
    /// Its stream of samples is over.
    Ended,
    /// Its next sample.
    Sampled(Sample),
}

/// Relies on rand's `SliceRandom::shuffle` with the thread-local generator:
/// the traces come back in some order, none added or lost.
#[verifier::external_body]
fn shuffle_traces(traces: &mut Vec<StackTrace>)
    ensures
        final(traces)@.to_multiset() == old(traces)@.to_multiset(),
{
    traces.shuffle(&mut rand::thread_rng());
}

/// The folded-stack line of the first active trace, or nothing when none is
/// active.
pub fn first_active_folded(traces: &Vec<StackTrace>) -> (r: Vec<u8>)
    ensures
        r@ == first_active_line(traces@),
{
    match first_active(traces) {
        Some(i) => {
            let r = fold_frames(&traces[i].frames);
            proof {
                let s = traces@;
                assert(0 <= i < s.len() && s[i as int].active);
                let c = choose|c: int|
                    0 <= c < s.len() && s[c].active && forall|j: int| 0 <= j < c ==> !s[j].active;
                assert(c == i as int) by {
                    if c < i {
                    } else if c > i {
                        assert(!s[i as int].active);
                    }
                }
            }
            r
        },
        None => Vec::new(),
    }
}

/// Whether `line` is the folded stack of one active trace among `traces`,
/// or empty when none is active.
pub open spec fn is_thread_line(traces: Seq<StackTrace>, line: Seq<u8>) -> bool {
    if exists|i: int| 0 <= i < traces.len() && traces[i].active {
        exists|i: int| 0 <= i < traces.len() && traces[i].active && line == folded(traces[i].frames@)
    } else {
        line.len() == 0
    }
}

/// Exports the traces in the order given: the first active thread's line.
pub fn export_in_order(traces: &Vec<StackTrace>, out: &mut [u8], err: &mut [u8]) -> (r: i32)
    requires
        old(out)@.len() <= i32::MAX,
        old(err)@.len() <= i32::MAX,
        first_active_line(traces@).len() > old(out)@.len() ==> too_small_text().len() <= old(
            err,
        )@.len(),
    ensures
        (final(out)@, final(err)@, r as int) == line_outcome(
            old(out)@,
            old(err)@,
            first_active_line(traces@),
        ),
{
    let line = first_active_folded(traces);
    write_line(out, err, line.as_slice())
}

/// The line of the first active trace in one order of `traces` is the line
/// of an active trace in any other order of them.
proof fn lemma_shuffled_line(traces: Seq<StackTrace>, shuffled: Seq<StackTrace>)
    requires
        shuffled.to_multiset() == traces.to_multiset(),
    ensures
        is_thread_line(traces, first_active_line(shuffled)),
{
    if exists|i: int| 0 <= i < shuffled.len() && shuffled[i].active {
        let c = choose|c: int|
            0 <= c < shuffled.len() && shuffled[c].active && forall|j: int|
                0 <= j < c ==> !shuffled[j].active;
        assert(exists|c: int|
            0 <= c < shuffled.len() && shuffled[c].active && forall|j: int|
                0 <= j < c ==> !shuffled[j].active) by {
            lemma_first_active_exists(shuffled);
        }
        let t = shuffled[c];
        assert(shuffled.contains(t));
        shuffled.to_multiset_ensures();
        traces.to_multiset_ensures();
        assert(shuffled.to_multiset().count(t) > 0);
        assert(traces.contains(t));
        let k = choose|k: int| 0 <= k < traces.len() && traces[k] == shuffled[c];
        assert(traces[k].active);
    } else {
        if exists|i: int| 0 <= i < traces.len() && traces[i].active {
            let k = choose|k: int| 0 <= k < traces.len() && traces[k].active;
            let t = traces[k];
            assert(traces.contains(t));
            shuffled.to_multiset_ensures();
            traces.to_multiset_ensures();
            assert(traces.to_multiset().count(t) > 0);
            assert(shuffled.contains(t));
            let m = choose|m: int| 0 <= m < shuffled.len() && shuffled[m] == t;
            assert(shuffled[m].active);
        }
    }
}

/// A sequence with an active trace has a first one.
proof fn lemma_first_active_exists(s: Seq<StackTrace>)
    requires
        exists|i: int| 0 <= i < s.len() && s[i].active,
    ensures
        exists|c: int| 0 <= c < s.len() && s[c].active && forall|j: int| 0 <= j < c ==> !s[j].active,
    decreases s.len(),
{
    if s[0].active {
        assert(forall|j: int| 0 <= j < 0 ==> !s[j].active);
    } else {
        let i = choose|i: int| 0 <= i < s.len() && s[i].active;
        let t = s.drop_first();
        assert(t[i - 1] == s[i]);
        lemma_first_active_exists(t);
        let c = choose|c: int| 0 <= c < t.len() && t[c].active && forall|j: int| 0 <= j < c ==> !t[j].active;
        assert(s[c + 1] == t[c]);
        assert forall|j: int| 0 <= j < c + 1 implies !s[j].active by {
            if j > 0 {
                assert(s[j] == t[j - 1]);
            }
        }
    }
}

/// Whether an export of `pulled` into buffers of `out_len` and `err_len`
/// bytes can report whatever it has to: a message that does not fit, or a
/// line too long for the output, needs room for the fallback message.
pub open spec fn error_fits(pulled: Pulled, out_len: nat, err_len: nat) -> bool {
    too_small_text().len() <= err_len || match pulled {
        Pulled::Untracked => missing_text().len() <= err_len,
        Pulled::Ended => true,
        Pulled::Sampled(Err(e)) => error_text(e).len() <= err_len,
        Pulled::Sampled(Ok(traces)) => forall|i: int|
            0 <= i < traces@.len() && traces@[i].active ==> folded(
                #[trigger] traces@[i].frames@,
            ).len() <= out_len,
    }
}

/// Decides `error_fits`, so that a caller can refuse an export that could
/// not be reported.
pub fn error_buffer_suffices(pulled: &Pulled, out_len: usize, err_len: usize) -> (r: bool)
    ensures
        r == error_fits(*pulled, out_len as nat, err_len as nat),
{
    let fallback = too_small_message();
    if fallback.len() <= err_len {
        return true;
    }
    assert(!(too_small_text().len() <= err_len));
    match pulled {
        Pulled::Untracked => missing_message().len() <= err_len,
        Pulled::Ended => true,
        Pulled::Sampled(Err(e)) => error_message(*e).len() <= err_len,
        Pulled::Sampled(Ok(traces)) => lines_fit(traces, out_len),
    }
}

/// Whether the folded line of every active trace fits in `out_len` bytes.
fn lines_fit(traces: &Vec<StackTrace>, out_len: usize) -> (r: bool)
    ensures
        r == forall|i: int|
            0 <= i < traces@.len() && traces@[i].active ==> folded(
                #[trigger] traces@[i].frames@,
            ).len() <= out_len,
{
    let mut i: usize = 0;
    while i < traces.len()
        invariant
            i <= traces@.len(),
            forall|j: int|
                0 <= j < i && traces@[j].active ==> folded(#[trigger] traces@[j].frames@).len()
                    <= out_len,
        decreases traces@.len() - i,
    {
        if traces[i].active {
            let line = fold_frames(&traces[i].frames);
            if line.len() > out_len {
                assert(folded(traces@[i as int].frames@).len() > out_len);
                return false;
            }
        }
        i = i + 1;
    }
    true
}

/// Exports what was obtained for a process into the caller's buffers.
///
/// An untracked process is reported through `err`, as is a failed sample.
/// An ended stream gives 0 with nothing written. A sample is rendered as the
/// folded stack of one of its active threads, picked at random, and written
/// to `out` with its length returned; an empty line gives 0, and a line too
/// long for `out` is reported through `err`.
pub fn pyspy_snapshot(pulled: Pulled, out: &mut [u8], err: &mut [u8]) -> (r: i32)
    requires
        old(out)@.len() <= i32::MAX,
        old(err)@.len() <= i32::MAX,
        error_fits(pulled, old(out)@.len(), old(err)@.len()),
    ensures
        match pulled {
            Pulled::Untracked => (final(out)@, final(err)@, r as int) == error_outcome(
                old(out)@,
                old(err)@,
                missing_text(),
            ),
            Pulled::Ended => r == 0 && final(out)@ == old(out)@ && final(err)@ == old(err)@,
            Pulled::Sampled(Err(e)) => (final(out)@, final(err)@, r as int) == error_outcome(
                old(out)@,
                old(err)@,
                error_text(e),
            ),
            Pulled::Sampled(Ok(traces)) => exists|line: Seq<u8>|
                is_thread_line(traces@, line) && (final(out)@, final(err)@, r as int)
                    == line_outcome(old(out)@, old(err)@, line),
        },
{
    match pulled {
        Pulled::Untracked => {
            let msg = missing_message();
            copy_error(err, msg.as_slice())
        },
        Pulled::Ended => 0,
        Pulled::Sampled(Err(e)) => {
            let msg = error_message(e);
            copy_error(err, msg.as_slice())
        },
        Pulled::Sampled(Ok(traces)) => {
            let ghost given = traces@;
            let mut shuffled = traces;
            shuffle_traces(&mut shuffled);
            proof {
                lemma_shuffled_line(given, shuffled@);
            }
            export_in_order(&shuffled, out, err)
        },
    }
}

} // verus!
