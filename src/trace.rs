//! Stack traces and their folded-stack rendering.
//!
//! A folded-stack line lists one thread's frames outermost first, each as
//! `file:line - name` (or `file - name` when the line is unknown), joined by
//! semicolons.
use vstd::prelude::*;

verus! {

/// One logical stack entry. Text fields hold UTF-8 bytes.
#[derive(Debug)]
pub struct Frame {
    pub name: Vec<u8>,
    pub filename: Vec<u8>,
    pub short_filename: Option<Vec<u8>>,
    /// Zero when the line is unknown.
    pub line: i32,
    pub is_native: bool,
}

/// One thread's frames, innermost first, as seen at capture time.
#[derive(Debug)]
pub struct StackTrace {
    pub thread_id: u64,
    /// Whether the thread was running interpreted code, rather than idle.
    pub active: bool,
    pub frames: Vec<Frame>,
}

/// The decimal digits of `n`, most significant first.
pub open spec fn digits(n: nat) -> Seq<u8>
    decreases n,
{
    if n < 10 {
        seq![(48 + n) as u8]
    } else {
        digits(n / 10).push((48 + n % 10) as u8)
    }
}

/// `n` written in decimal, with a leading `-` when negative.
pub open spec fn decimal(n: int) -> Seq<u8> {
    if n < 0 {
        seq![45u8] + digits((-n) as nat)
    } else {
        digits(n as nat)
    }
}

/// The file shown for a frame: its short name when it has one.
pub open spec fn shown_file(f: Frame) -> Seq<u8> {
    match f.short_filename {
        Some(s) => s@,
        None => f.filename@,
    }
}

/// The text ` - ` between a frame's location and its name.
pub open spec fn name_sep() -> Seq<u8> {
    seq![32u8, 45u8, 32u8]
}

/// One frame as `file:line - name`, or `file - name` when its line is zero.
pub open spec fn frame_label(f: Frame) -> Seq<u8> {
    if f.line != 0 {
        shown_file(f) + seq![58u8] + decimal(f.line as int) + name_sep() + f.name@
    } else {
        shown_file(f) + name_sep() + f.name@
    }
}

/// The folded-stack line of frames given innermost first: their labels in the
/// reverse order, outermost first, separated by `;`.
pub open spec fn folded(frames: Seq<Frame>) -> Seq<u8>
    decreases frames.len(),
{
    if frames.len() == 0 {
        seq![]
    } else if frames.len() == 1 {
        frame_label(frames[0])
    } else {
        folded(frames.drop_first()) + seq![59u8] + frame_label(frames[0])
    }
}

/// Appends `src` to `out`.
fn append(out: &mut Vec<u8>, src: &Vec<u8>)
    ensures
        final(out)@ == old(out)@ + src@,
{
    let mut i: usize = 0;
    while i < src.len()
        invariant
            i <= src@.len(),
            out@ == old(out)@ + src@.subrange(0, i as int),
        decreases src@.len() - i,
    {
        out.push(src[i]);
        i = i + 1;
        assert(out@ =~= old(out)@ + src@.subrange(0, i as int));
    }
    assert(src@.subrange(0, src@.len() as int) =~= src@);
}

/// Appends the decimal digits of `n`.
fn push_digits(out: &mut Vec<u8>, n: u64)
    ensures
        final(out)@ == old(out)@ + digits(n as nat),
    decreases n,
{
    if n >= 10 {
        push_digits(out, n / 10);
    }
    out.push((n % 10) as u8 + 48);
    assert(out@ =~= old(out)@ + digits(n as nat));
}

/// Appends `n` in decimal.
pub fn push_decimal(out: &mut Vec<u8>, n: i32)
    ensures
        final(out)@ == old(out)@ + decimal(n as int),
{
    if n < 0 {
        out.push(45);
        let m: i64 = -(n as i64);
        push_digits(out, m as u64);
    } else {
        push_digits(out, n as u64);
    }
    assert(out@ =~= old(out)@ + decimal(n as int));
}

/// Appends the label of one frame.
pub fn push_label(out: &mut Vec<u8>, f: &Frame)
    ensures
        final(out)@ == old(out)@ + frame_label(*f),
{
    match &f.short_filename {
        Some(s) => append(out, s),
        None => append(out, &f.filename),
    }
    if f.line != 0 {
        out.push(58);
        push_decimal(out, f.line);
    }
    out.push(32);
    out.push(45);
    out.push(32);
    append(out, &f.name);
    assert(out@ =~= old(out)@ + frame_label(*f));
}

/// Renders frames, given innermost first, as one folded-stack line.
pub fn fold_frames(frames: &Vec<Frame>) -> (r: Vec<u8>)
    ensures
        r@ == folded(frames@),
{
    let n = frames.len();
    let mut out: Vec<u8> = Vec::new();
    let mut i: usize = n;
    while i > 0
        invariant
            n == frames@.len(),
            i <= n,
            out@ == folded(frames@.subrange(i as int, n as int)),
        decreases i,
    {
        let ghost rest = frames@.subrange(i as int, n as int);
        if i < n {
            out.push(59);
        }
        push_label(&mut out, &frames[i - 1]);
        i = i - 1;
        let ghost now = frames@.subrange(i as int, n as int);
        assert(now.drop_first() =~= rest);
        assert(now[0] == frames@[i as int]);
        assert(out@ =~= folded(now));
    }
    assert(frames@.subrange(0, n as int) =~= frames@);
    out
}

/// The index of the first active trace, if any.
pub fn first_active(traces: &Vec<StackTrace>) -> (r: Option<usize>)
    ensures
        match r {
            Some(i) => i < traces@.len() && traces@[i as int].active && forall|j: int|
                0 <= j < i ==> !traces@[j].active,
            None => forall|j: int| 0 <= j < traces@.len() ==> !traces@[j].active,
        },
{
    let mut i: usize = 0;
    while i < traces.len()
        invariant
            i <= traces@.len(),
            forall|j: int| 0 <= j < i ==> !traces@[j].active,
        decreases traces@.len() - i,
    {
        if traces[i].active {
            return Some(i);
        }
        i = i + 1;
    }
    None
}

/// The line exported for traces in a given order: the folded stack of the
/// first active trace, or nothing when no trace is active.
pub open spec fn first_active_line(traces: Seq<StackTrace>) -> Seq<u8> {
    if exists|i: int| 0 <= i < traces.len() && traces[i].active {
        let i = choose|i: int|
            0 <= i < traces.len() && traces[i].active && forall|j: int|
                0 <= j < i ==> !traces[j].active;
        folded(traces[i].frames@)
    } else {
        seq![]
    }
}

} // verus!
