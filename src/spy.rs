//! One capture of all thread stacks of a target, and the locking strategy
//! that governs it.
//!
//! Reading the target (listing threads, pausing it, walking each thread's
//! frames) is done by the caller; this module decides what a set of per-thread
//! reads amounts to, and drives the order of those steps so that a pause is
//! always released.
use vstd::prelude::*;
use crate::trace::StackTrace;

verus! {

/// Whether the target is paused while its stacks are read.
#[derive(Clone, Copy, Debug, PartialEq, Eq, Structural)]
pub enum LockingStrategy {
    /// Pause the whole target for the duration of one capture.
    Blocking,
    /// Never pause; a torn read costs that thread's trace only.
    NonBlocking,
}

/// The strategy that an embedding flag selects: zero means non-blocking.
pub fn strategy_for_flag(blocking: i32) -> (r: LockingStrategy)
    ensures
        r == (if blocking == 0 { LockingStrategy::NonBlocking } else { LockingStrategy::Blocking }),
{
    if blocking == 0 {
        LockingStrategy::NonBlocking
    } else {
        LockingStrategy::Blocking
    }
}

/// Why a capture failed.
#[derive(Clone, Copy, Debug, PartialEq, Eq, Structural)]
pub enum CaptureError {
    /// The target is gone; no later capture can succeed.
    ProcessExited,
    /// The target's memory could not be read.
    PermissionDenied,
    /// The interpreter's layout in the target no longer holds.
    CorruptState,
    /// Threads were found but none of them could be walked. A capture in
    /// which only some walks were abandoned is no failure: it succeeds with
    /// the threads that were walked.
    PartialRead,
}

/// The message an error is reported with.
pub open spec fn error_text(e: CaptureError) -> Seq<u8> {
    match e {
        CaptureError::ProcessExited => {
            // "the target process has exited"
            seq![
        116, 104, 101, 32, 116, 97, 114, 103, 101, 116,
        32, 112, 114, 111, 99, 101, 115, 115, 32, 104,
        97, 115, 32, 101, 120, 105, 116, 101, 100,
            ]
        },
        CaptureError::PermissionDenied => {
            // "permission denied reading the target process"
            seq![
        112, 101, 114, 109, 105, 115, 115, 105, 111, 110,
        32, 100, 101, 110, 105, 101, 100, 32, 114, 101,
        97, 100, 105, 110, 103, 32, 116, 104, 101, 32,
        116, 97, 114, 103, 101, 116, 32, 112, 114, 111,
        99, 101, 115, 115,
            ]
        },
        CaptureError::CorruptState => {
            // "the interpreter state of the target is invalid"
            seq![
        116, 104, 101, 32, 105, 110, 116, 101, 114, 112,
        114, 101, 116, 101, 114, 32, 115, 116, 97, 116,
        101, 32, 111, 102, 32, 116, 104, 101, 32, 116,
        97, 114, 103, 101, 116, 32, 105, 115, 32, 105,
        110, 118, 97, 108, 105, 100,
            ]
        },
        CaptureError::PartialRead => {
            // "no thread of the target could be read"
            seq![
        110, 111, 32, 116, 104, 114, 101, 97, 100, 32,
        111, 102, 32, 116, 104, 101, 32, 116, 97, 114,
        103, 101, 116, 32, 99, 111, 117, 108, 100, 32,
        98, 101, 32, 114, 101, 97, 100,
            ]
        },
    }
}

/// Builds the bytes of `error_text(e)`.
pub fn error_message(e: CaptureError) -> (r: Vec<u8>)
    ensures
        r@ == error_text(e),
{
    let r = match e {
        CaptureError::ProcessExited => {
            // "the target process has exited"
            vec![
        116, 104, 101, 32, 116, 97, 114, 103, 101, 116,
        32, 112, 114, 111, 99, 101, 115, 115, 32, 104,
        97, 115, 32, 101, 120, 105, 116, 101, 100,
            ]
        },
        CaptureError::PermissionDenied => {
            // "permission denied reading the target process"
            vec![
        112, 101, 114, 109, 105, 115, 115, 105, 111, 110,
        32, 100, 101, 110, 105, 101, 100, 32, 114, 101,
        97, 100, 105, 110, 103, 32, 116, 104, 101, 32,
        116, 97, 114, 103, 101, 116, 32, 112, 114, 111,
        99, 101, 115, 115,
            ]
        },
        CaptureError::CorruptState => {
            // "the interpreter state of the target is invalid"
            vec![
        116, 104, 101, 32, 105, 110, 116, 101, 114, 112,
        114, 101, 116, 101, 114, 32, 115, 116, 97, 116,
        101, 32, 111, 102, 32, 116, 104, 101, 32, 116,
        97, 114, 103, 101, 116, 32, 105, 115, 32, 105,
        110, 118, 97, 108, 105, 100,
            ]
        },
        CaptureError::PartialRead => {
            // "no thread of the target could be read"
            vec![
        110, 111, 32, 116, 104, 114, 101, 97, 100, 32,
        111, 102, 32, 116, 104, 101, 32, 116, 97, 114,
        103, 101, 116, 32, 99, 111, 117, 108, 100, 32,
        98, 101, 32, 114, 101, 97, 100,
            ]
        },
    };
    assert(r@ =~= error_text(e));
    r
}

/// What reading one thread gave.
#[derive(Debug)]
pub enum ThreadRead {
    /// The thread's frames were walked.
    Walked(StackTrace),
    /// The walk met an inconsistent frame chain and was abandoned; only this
    /// thread is affected.
    Unavailable,
    /// The read failed in a way that spoils the whole capture.
    Failed(CaptureError),
}

/// The traces of the walked threads, in the order they were read.
pub open spec fn walked_traces(reads: Seq<ThreadRead>) -> Seq<StackTrace>
    decreases reads.len(),
{
    if reads.len() == 0 {
        seq![]
    } else {
        let rest = walked_traces(reads.drop_last());
        match reads.last() {
            ThreadRead::Walked(t) => rest.push(t),
            _ => rest,
        }
    }
}

/// The first failure among the reads, if any.
pub open spec fn first_failure(reads: Seq<ThreadRead>) -> Option<CaptureError>
    decreases reads.len(),
{
    if reads.len() == 0 {
        None
    } else {
        match first_failure(reads.drop_last()) {
            Some(e) => Some(e),
            None => match reads.last() {
                ThreadRead::Failed(e) => Some(e),
                _ => None,
            },
        }
    }
}

/// What a capture amounts to, given the reads of all threads of the target.
///
/// A failure spoils the capture. A target with no threads has exited. When
/// no thread could be walked the capture fails as a partial read; otherwise
/// it holds the walked threads, and abandoned walks are left out.
pub open spec fn capture_outcome(reads: Seq<ThreadRead>) -> Result<Seq<StackTrace>, CaptureError> {
    match first_failure(reads) {
        Some(e) => Err(e),
        None => if reads.len() == 0 {
            Err(CaptureError::ProcessExited)
        } else if walked_traces(reads).len() == 0 {
            Err(CaptureError::PartialRead)
        } else {
            Ok(walked_traces(reads))
        },
    }
}

/// A capture's result, with its traces seen as a sequence.
pub open spec fn outcome_view(r: Result<Vec<StackTrace>, CaptureError>) -> Result<Seq<StackTrace>, CaptureError> {
    match r {
        Ok(v) => Ok(v@),
        Err(e) => Err(e),
    }
}

/// Assembles the reads of all threads into one capture.
///
/// A successful capture is never empty.
pub fn assemble(reads: Vec<ThreadRead>) -> (r: Result<Vec<StackTrace>, CaptureError>)
    ensures
        match r {
            Ok(v) => capture_outcome(reads@) == Ok::<Seq<StackTrace>, CaptureError>(v@)
                && v@.len() > 0,
            Err(e) => capture_outcome(reads@) == Err::<Seq<StackTrace>, CaptureError>(e),
        },
{
    let ghost all = reads@;
    let n = reads.len();
    let mut rest = reads;
    let mut traces: Vec<StackTrace> = Vec::new();
    let mut failure: Option<CaptureError> = None;
    let mut k: usize = 0;
    while k < n && failure.is_none()
        invariant
            n == all.len(),
            k <= n,
            rest@ == all.subrange(k as int, n as int),
            traces@ == walked_traces(all.subrange(0, k as int)),
            first_failure(all.subrange(0, k as int)) == failure,
        decreases n - k,
    {
        let read = rest.remove(0);
        let ghost before = all.subrange(0, k as int);
        k = k + 1;
        let ghost now = all.subrange(0, k as int);
        assert(now.drop_last() =~= before);
        assert(now.last() == read);
        assert(rest@ =~= all.subrange(k as int, n as int));
        match read {
            ThreadRead::Walked(t) => {
                traces.push(t);
            },
            ThreadRead::Unavailable => {},
            ThreadRead::Failed(e) => {
                failure = Some(e);
            },
        }
    }
    if let Some(e) = failure {
        proof {
            lemma_failure_extends(all, k as nat, e);
        }
        return Err(e);
    }
    assert(all.subrange(0, n as int) =~= all);
    if n == 0 {
        Err(CaptureError::ProcessExited)
    } else if traces.len() == 0 {
        Err(CaptureError::PartialRead)
    } else {
        Ok(traces)
    }
}

/// A failure among the first `k` reads is the first failure of all of them.
proof fn lemma_failure_extends(all: Seq<ThreadRead>, k: nat, e: CaptureError)
    requires
        k <= all.len(),
        first_failure(all.subrange(0, k as int)) == Some(e),
    ensures
        first_failure(all) == Some(e),
    decreases all.len() - k,
{
    if k < all.len() {
        let next = all.subrange(0, k + 1 as int);
        assert(next.drop_last() =~= all.subrange(0, k as int));
        lemma_failure_extends(all, (k + 1) as nat, e);
    } else {
        assert(all.subrange(0, k as int) =~= all);
    }
}

/// Leaving out an abandoned walk changes neither the walked traces nor the
/// first failure.
proof fn lemma_remove_unavailable(reads: Seq<ThreadRead>, i: int)
    requires
        0 <= i < reads.len(),
        reads[i] is Unavailable,
    ensures
        walked_traces(reads.remove(i)) == walked_traces(reads),
        first_failure(reads.remove(i)) == first_failure(reads),
    decreases reads.len(),
{
    let shorter = reads.remove(i);
    if i == reads.len() - 1 {
        assert(shorter =~= reads.drop_last());
    } else {
        assert(shorter.drop_last() =~= reads.drop_last().remove(i));
        assert(shorter.last() == reads.last());
        lemma_remove_unavailable(reads.drop_last(), i);
    }
}

/// A thread whose walk was abandoned costs that thread only: while another
/// thread is present, the capture is what it would be without it.
pub proof fn lemma_unavailable_thread_dropped(reads: Seq<ThreadRead>, i: int, j: int)
    requires
        0 <= i < reads.len(),
        0 <= j < reads.len(),
        i != j,
        reads[i] is Unavailable,
    ensures
        capture_outcome(reads) == capture_outcome(reads.remove(i)),
{
    lemma_remove_unavailable(reads, i);
}

/// The kind of failure of a step on the target: gone if the target no
/// longer exists, refused if reading it was denied, and otherwise a sign that
/// its state could not be made sense of.
pub fn classify_failure(alive: bool, permission_denied: bool) -> (r: CaptureError)
    ensures
        r == (if !alive {
            CaptureError::ProcessExited
        } else if permission_denied {
            CaptureError::PermissionDenied
        } else {
            CaptureError::CorruptState
        }),
{
    if !alive {
        CaptureError::ProcessExited
    } else if permission_denied {
        CaptureError::PermissionDenied
    } else {
        CaptureError::CorruptState
    }
}

/// Whether `res` answers `step`: a pause with `Done`, a listing with
/// `Listed`, a read with `Read`, and any of them with `Failed`.
pub open spec fn answers(step: CaptureStep, res: StepResult) -> bool {
    match step {
        CaptureStep::Pause => res is Done || res is Failed,
        CaptureStep::ListThreads => res is Listed || res is Failed,
        CaptureStep::ReadThread(_) => res is Read || res is Failed,
        _ => true,
    }
}

/// A walked thread stays in the traces of the capture.
proof fn lemma_walked_kept(reads: Seq<ThreadRead>, j: int)
    requires
        0 <= j < reads.len(),
        reads[j] is Walked,
    ensures
        walked_traces(reads).contains(reads[j]->Walked_0),
    decreases reads.len(),
{
    let t = reads[j]->Walked_0;
    if j == reads.len() - 1 {
        let w = walked_traces(reads);
        assert(w.last() == t);
        assert(w[w.len() - 1] == t);
    } else {
        assert(reads.drop_last()[j] == reads[j]);
        lemma_walked_kept(reads.drop_last(), j);
        let prev = walked_traces(reads.drop_last());
        let k = choose|k: int| 0 <= k < prev.len() && prev[k] == t;
        let w = walked_traces(reads);
        assert(w[k] == t);
    }
}

/// A capture without failures succeeds and keeps every thread that was
/// walked, whatever other walks were abandoned: a torn frame chain in one
/// thread costs that thread alone.
pub proof fn lemma_capture_keeps_walked(reads: Seq<ThreadRead>, j: int)
    requires
        0 <= j < reads.len(),
        reads[j] is Walked,
        first_failure(reads) is None,
    ensures
        capture_outcome(reads) == Ok::<Seq<StackTrace>, CaptureError>(walked_traces(reads)),
        walked_traces(reads).contains(reads[j]->Walked_0),
{
    lemma_walked_kept(reads, j);
}

/// A step that a capture asks its caller to perform on the target.
#[derive(Clone, Copy, Debug, PartialEq, Eq, Structural)]
pub enum CaptureStep {
    /// Pause the whole target.
    Pause,
    /// List the target's threads.
    ListThreads,
    /// Walk the frames of the thread at this position in the list.
    ReadThread(usize),
    /// Resume the target paused earlier.
    Resume,
    /// Nothing is left to do; the outcome is ready.
    Finished,
}

/// What the caller reports after performing a step.
#[derive(Debug)]
pub enum StepResult {
    /// A pause or resume took effect.
    Done,
    /// The target has this many threads.
    Listed(usize),
    /// One thread was read.
    Read(ThreadRead),
    /// The step failed.
    Failed(CaptureError),
}

/// Drives one capture through its steps.
///
/// Under the blocking strategy the target is paused before anything is read,
/// and whatever happens afterwards, a paused target is resumed exactly once
/// before the capture finishes.
pub struct CaptureDriver {
    strategy: LockingStrategy,
    step: CaptureStep,
    threads: usize,
    reads: Vec<ThreadRead>,
    outcome: Option<Result<Vec<StackTrace>, CaptureError>>,
    holding: bool,
    pauses: Ghost<nat>,
    resumes: Ghost<nat>,
}

impl CaptureDriver {
    /// The strategy the capture runs under.
    pub closed spec fn spec_strategy(&self) -> LockingStrategy {
        self.strategy
    }

    /// The step the caller is asked to perform next.
    pub closed spec fn spec_step(&self) -> CaptureStep {
        self.step
    }

    /// How many threads the listing found.
    pub closed spec fn thread_count(&self) -> nat {
        self.threads as nat
    }

    /// The threads read so far, in order.
    pub closed spec fn reads_so_far(&self) -> Seq<ThreadRead> {
        self.reads@
    }

    /// Whether the target is paused by this capture right now.
    pub closed spec fn is_holding(&self) -> bool {
        self.holding
    }

    /// How many pauses took effect so far.
    pub closed spec fn pause_count(&self) -> nat {
        self.pauses@
    }

    /// How many resumes were asked for so far.
    pub closed spec fn resume_count(&self) -> nat {
        self.resumes@
    }

    /// The outcome, once the reads are over.
    pub closed spec fn spec_outcome(&self) -> Option<Result<Vec<StackTrace>, CaptureError>> {
        self.outcome
    }

    /// The invariant of a capture in progress.
    pub closed spec fn wf(&self) -> bool {
        &&& self.pauses@ == self.resumes@ + (if self.holding { 1nat } else { 0nat })
        &&& self.pauses@ <= 1
        &&& self.holding ==> self.strategy == LockingStrategy::Blocking
        &&& self.strategy == LockingStrategy::NonBlocking ==> self.pauses@ == 0
        &&& (self.step == CaptureStep::Pause) ==> self.pauses@ == 0 && self.strategy
            == LockingStrategy::Blocking && self.outcome.is_none()
        &&& (self.step == CaptureStep::Pause || self.step == CaptureStep::ListThreads)
            ==> self.reads@.len() == 0
        &&& (self.step == CaptureStep::ListThreads) ==> self.outcome.is_none() && (self.strategy
            == LockingStrategy::Blocking ==> self.holding)
        &&& match self.step {
            CaptureStep::ReadThread(i) => i < self.threads && self.reads@.len() == i
                && self.outcome.is_none() && (self.strategy == LockingStrategy::Blocking
                ==> self.holding),
            _ => true,
        }
        &&& (self.step == CaptureStep::Resume) ==> !self.holding && self.outcome.is_some()
        &&& (self.step == CaptureStep::Finished) ==> !self.holding && self.outcome.is_some()
        &&& match self.outcome {
            Some(Ok(v)) => v@.len() > 0,
            _ => true,
        }
    }

    /// Starts a capture: a blocking one first pauses the target, a
    /// non-blocking one lists its threads straight away.
    pub fn new(strategy: LockingStrategy) -> (r: Self)
        ensures
            r.wf(),
            r.spec_strategy() == strategy,
            r.spec_step() == (if strategy == LockingStrategy::Blocking {
                CaptureStep::Pause
            } else {
                CaptureStep::ListThreads
            }),
            r.pause_count() == 0,
            r.resume_count() == 0,
    {
        let step = if strategy == LockingStrategy::Blocking {
            CaptureStep::Pause
        } else {
            CaptureStep::ListThreads
        };
        CaptureDriver {
            strategy,
            step,
            threads: 0,
            reads: Vec::new(),
            outcome: None,
            holding: false,
            pauses: Ghost(0),
            resumes: Ghost(0),
        }
    }

    /// The step the caller is asked to perform next.
    pub fn next_step(&self) -> (r: CaptureStep)
        ensures
            r == self.spec_step(),
    {
        self.step
    }

    /// Ends the reads with `outcome`: asks for a resume when the target is
    /// paused, and finishes otherwise.
    fn conclude(&mut self, outcome: Result<Vec<StackTrace>, CaptureError>)
        requires
            old(self).pauses@ == old(self).resumes@ + (if old(self).holding { 1nat } else { 0nat }),
            old(self).pauses@ <= 1,
            old(self).holding ==> old(self).strategy == LockingStrategy::Blocking,
            old(self).strategy == LockingStrategy::NonBlocking ==> old(self).pauses@ == 0,
            match outcome {
                Ok(v) => v@.len() > 0,
                _ => true,
            },
        ensures
            final(self).wf(),
            final(self).strategy == old(self).strategy,
            final(self).outcome == Some(outcome),
            final(self).pauses@ == old(self).pauses@,
            final(self).threads == old(self).threads,
            final(self).step == (if old(self).holding {
                CaptureStep::Resume
            } else {
                CaptureStep::Finished
            }),
    {
        self.outcome = Some(outcome);
        if self.holding {
            self.holding = false;
            self.resumes = Ghost(self.resumes@ + 1);
            self.step = CaptureStep::Resume;
        } else {
            self.step = CaptureStep::Finished;
        }
    }

    /// Takes in the result of the step last asked for and moves on.
    ///
    /// A failure of a pause, a listing or a read ends the reads with that
    /// error; a result that does not answer the step asked for counts as a
    /// corrupt state. Once the reads are over, the target is resumed if this
    /// capture paused it.
    pub fn advance(&mut self, res: StepResult)
        requires
            old(self).wf(),
            old(self).spec_step() != CaptureStep::Finished,
        ensures
            final(self).wf(),
            final(self).spec_strategy() == old(self).spec_strategy(),
            final(self).pause_count() == old(self).pause_count() + (if old(self).spec_step()
                == CaptureStep::Pause && res is Done { 1nat } else { 0nat }),
            old(self).spec_step() == CaptureStep::Pause && res is Done ==> final(self).spec_step()
                == CaptureStep::ListThreads,
            old(self).spec_step() == CaptureStep::Resume ==> final(self).spec_step()
                == CaptureStep::Finished && final(self).spec_outcome() == old(
                self).spec_outcome(),
            old(self).spec_step() != CaptureStep::Resume ==> match res {
                StepResult::Failed(e) => final(self).spec_outcome() == Some(
                    Err::<Vec<StackTrace>, CaptureError>(e),
                ),
                _ => true,
            },
            !answers(old(self).spec_step(), res) ==> final(self).spec_outcome() == Some(
                Err::<Vec<StackTrace>, CaptureError>(CaptureError::CorruptState),
            ),
            (final(self).spec_step() == CaptureStep::Resume) == (old(self).is_holding()
                && !final(self).is_holding()),
            match (old(self).spec_step(), res) {
                (CaptureStep::ReadThread(i), StepResult::Read(read)) => if i + 1 < old(
                    self).thread_count() {
                    &&& final(self).spec_step() == CaptureStep::ReadThread((i + 1) as usize)
                    &&& final(self).reads_so_far() == old(self).reads_so_far().push(read)
                } else {
                    &&& final(self).spec_step() == CaptureStep::Resume || final(self).spec_step()
                        == CaptureStep::Finished
                    &&& final(self).spec_outcome() matches Some(o) && outcome_view(o)
                        == capture_outcome(old(self).reads_so_far().push(read))
                },
                (CaptureStep::ListThreads, StepResult::Listed(n)) => {
                    &&& final(self).thread_count() == n
                    &&& n > 0 ==> final(self).spec_step() == CaptureStep::ReadThread(0)
                    &&& n == 0 ==> final(self).spec_outcome() == Some(
                        Err::<Vec<StackTrace>, CaptureError>(CaptureError::ProcessExited),
                    )
                },
                _ => true,
            },
    {
        match self.step {
            CaptureStep::Pause => match res {
                StepResult::Done => {
                    self.holding = true;
                    self.pauses = Ghost(self.pauses@ + 1);
                    self.step = CaptureStep::ListThreads;
                },
                StepResult::Failed(e) => self.conclude(Err(e)),
                _ => self.conclude(Err(CaptureError::CorruptState)),
            },
            CaptureStep::ListThreads => match res {
                StepResult::Listed(n) => {
                    self.threads = n;
                    if n == 0 {
                        self.conclude(Err(CaptureError::ProcessExited));
                    } else {
                        self.step = CaptureStep::ReadThread(0);
                    }
                },
                StepResult::Failed(e) => self.conclude(Err(e)),
                _ => self.conclude(Err(CaptureError::CorruptState)),
            },
            CaptureStep::ReadThread(i) => match res {
                StepResult::Read(read) => {
                    let ghost all = self.reads@.push(read);
                    self.reads.push(read);
                    if i + 1 < self.threads {
                        self.step = CaptureStep::ReadThread(i + 1);
                    } else {
                        let mut reads: Vec<ThreadRead> = Vec::new();
                        std::mem::swap(&mut reads, &mut self.reads);
                        let outcome = assemble(reads);
                        assert(outcome_view(outcome) == capture_outcome(all));
                        self.conclude(outcome);
                    }
                },
                StepResult::Failed(e) => self.conclude(Err(e)),
                _ => self.conclude(Err(CaptureError::CorruptState)),
            },
            CaptureStep::Resume => {
                self.step = CaptureStep::Finished;
            },
            CaptureStep::Finished => {},
        }
    }

    /// The outcome of a finished capture.
    pub fn into_outcome(self) -> (r: Result<Vec<StackTrace>, CaptureError>)
        requires
            self.wf(),
            self.spec_step() == CaptureStep::Finished,
        ensures
            Some(r) == self.spec_outcome(),
            r matches Ok(v) ==> v@.len() > 0,
    {
        match self.outcome {
            Some(r) => r,
            None => Err(CaptureError::CorruptState),
        }
    }
}

/// A finished capture has resumed the target as many times as it paused it,
/// at most once, and a non-blocking capture never paused it.
pub proof fn lemma_pause_released(d: CaptureDriver)
    requires
        d.wf(),
        d.spec_step() == CaptureStep::Finished,
    ensures
        d.pause_count() == d.resume_count(),
        d.pause_count() <= 1,
        !d.is_holding(),
        d.spec_strategy() == LockingStrategy::NonBlocking ==> d.pause_count() == 0,
{
}

} // verus!
