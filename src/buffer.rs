//! The bounded-buffer protocol of the embedding boundary.
//!
//! A caller hands over a byte buffer of a fixed length. A successful export
//! writes at most that many bytes and returns their count; a failure writes an
//! error message and returns its length negated. A message that does not fit
//! is replaced by a short fixed one.
use vstd::prelude::*;

verus! {

/// The fixed message written when the real one does not fit.
pub open spec fn too_small_text() -> Seq<u8> {
    // "buffer is too small"
    seq![
        98, 117, 102, 102, 101, 114, 32, 105, 115, 32,
        116, 111, 111, 32, 115, 109, 97, 108, 108,
    ]
}

/// Builds the bytes of `too_small_text`.
pub fn too_small_message() -> (r: Vec<u8>)
    ensures
        r@ == too_small_text(),
{
    // "buffer is too small"
    let r = vec![
        98, 117, 102, 102, 101, 114, 32, 105, 115, 32,
        116, 111, 111, 32, 115, 109, 97, 108, 108,
    ];
    assert(r@ =~= too_small_text());
    r
}

/// The bytes that an error report leaves at the front of a buffer of `cap`
/// bytes: the message itself when it fits, else the fixed fallback.
pub open spec fn reported(msg: Seq<u8>, cap: int) -> Seq<u8> {
    if msg.len() <= cap {
        msg
    } else {
        too_small_text()
    }
}

/// `buf` after `src` was written over its front.
pub open spec fn written(buf: Seq<u8>, src: Seq<u8>) -> Seq<u8> {
    src + buf.subrange(src.len() as int, buf.len() as int)
}

/// Writes `src` over the front of `buf`; the bytes past it stay as they were.
pub fn copy_into(buf: &mut [u8], src: &[u8])
    requires
        src@.len() <= old(buf)@.len(),
    ensures
        final(buf)@ == written(old(buf)@, src@),
{
    let n = src.len();
    let mut i: usize = 0;
    while i < n
        invariant
            n == src@.len(),
            n <= buf@.len(),
            buf@.len() == old(buf)@.len(),
            i <= n,
            forall|j: int| 0 <= j < i ==> buf@[j] == src@[j],
            forall|j: int| i <= j < buf@.len() ==> buf@[j] == old(buf)@[j],
        decreases n - i,
    {
        buf[i] = src[i];
        i = i + 1;
    }
    assert(buf@ =~= written(old(buf)@, src@));
}

/// An error report never reaches past the end of the buffer: the buffer
/// keeps its length, the report is no longer than it, and a message that does
/// not fit is replaced by the fallback.
pub proof fn lemma_report_in_bounds(msg: Seq<u8>, err: Seq<u8>)
    requires
        msg.len() <= err.len() || too_small_text().len() <= err.len(),
    ensures
        reported(msg, err.len() as int).len() <= err.len(),
        written(err, reported(msg, err.len() as int)).len() == err.len(),
        msg.len() > err.len() ==> reported(msg, err.len() as int) == too_small_text(),
{
}

/// Reports `msg` through the error buffer `err`.
///
/// When `msg` fits, it is written and its length is returned negated.
/// Otherwise the fixed fallback is written in its place, with its own length
/// negated. A message that fits needs nothing more of `err`; one that does
/// not, in a buffer too short even for the fallback, is a misuse that callers
/// must rule out, so nothing is ever written past the end of `err`.
pub fn copy_error(err: &mut [u8], msg: &[u8]) -> (r: i32)
    requires
        msg@.len() <= old(err)@.len() || too_small_text().len() <= old(err)@.len(),
        old(err)@.len() <= i32::MAX,
    ensures
        final(err)@ == written(old(err)@, reported(msg@, old(err)@.len() as int)),
        r == -(reported(msg@, old(err)@.len() as int).len() as int),
        r < 0 || msg@.len() == 0,
        -r <= old(err)@.len(),
{
    if msg.len() <= err.len() {
        copy_into(err, msg);
        -(msg.len() as i32)
    } else {
        let fallback = too_small_message();
        copy_into(err, fallback.as_slice());
        -(fallback.len() as i32)
    }
}

/// The output buffer, error buffer and status after exporting `line`.
pub open spec fn line_outcome(out: Seq<u8>, err: Seq<u8>, line: Seq<u8>) -> (Seq<u8>, Seq<u8>, int) {
    if line.len() <= out.len() {
        (written(out, line), err, line.len() as int)
    } else {
        (out, written(err, too_small_text()), -(too_small_text().len() as int))
    }
}

/// The output buffer, error buffer and status after reporting `msg`.
pub open spec fn error_outcome(out: Seq<u8>, err: Seq<u8>, msg: Seq<u8>) -> (Seq<u8>, Seq<u8>, int) {
    let shown = reported(msg, err.len() as int);
    (out, written(err, shown), -(shown.len() as int))
}

/// Writes a rendered line `line` into `out`, or reports through `err` that
/// `out` is too small for it.
///
/// Returns the number of bytes written on success; `out` is then unchanged
/// past them and `err` untouched. On failure `out` is untouched, and the
/// result is the negated length of the report in `err`.
pub fn write_line(out: &mut [u8], err: &mut [u8], line: &[u8]) -> (r: i32)
    requires
        old(out)@.len() <= i32::MAX,
        old(err)@.len() <= i32::MAX,
        line@.len() > old(out)@.len() ==> too_small_text().len() <= old(err)@.len(),
    ensures
        (final(out)@, final(err)@, r as int) == line_outcome(old(out)@, old(err)@, line@),
{
    if line.len() <= out.len() {
        copy_into(out, line);
        line.len() as i32
    } else {
        let fallback = too_small_message();
        copy_error(err, fallback.as_slice())
    }
}

} // verus!
