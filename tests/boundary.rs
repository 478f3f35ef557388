use py_spy::boundary::{error_buffer_suffices, pyspy_cleanup, pyspy_init, pyspy_snapshot, Pulled, Registry, Target};
use py_spy::sampler::SAMPLING_INTERVAL;
use py_spy::spy::{CaptureError, LockingStrategy};
use py_spy::trace::{Frame, StackTrace};

fn frame(file: &str, line: i32, name: &str) -> Frame {
    Frame {
        name: name.as_bytes().to_vec(),
        filename: file.as_bytes().to_vec(),
        short_filename: None,
        line,
        is_native: false,
    }
}

fn trace(id: u64, active: bool, frames: Vec<Frame>) -> StackTrace {
    StackTrace { thread_id: id, active, frames }
}


#[test]
fn end_to_end_init_snapshot_cleanup() {
    let mut registry: Registry<Target<u32>> = Registry::new();
    let mut err = [0u8; 64];
    assert_eq!(pyspy_init(&mut registry, 42, 1, Ok(7), &mut err), 1);
    assert!(registry.is_tracked(42));

    let mut out = [0u8; 256];
    let traces = vec![trace(
        1,
        true,
        vec![frame("a.py", 20, "bar"), frame("a.py", 10, "foo")],
    )];
    let entry = registry.take(42).unwrap();
    assert_eq!(entry.sampler.strategy, LockingStrategy::Blocking);
    assert_eq!(entry.sampler.interval, SAMPLING_INTERVAL);
    assert_eq!(entry.target, 7);
    let n = pyspy_snapshot(Pulled::Sampled(Ok(traces)), &mut out, &mut err);
    registry.start(42, entry);
    let expected = b"a.py:10 - foo;a.py:20 - bar";
    assert_eq!(n, expected.len() as i32);
    assert_eq!(&out[..n as usize], &expected[..]);

    assert_eq!(pyspy_cleanup(&mut registry, 42), 1);
    let pulled = match registry.take(42) {
        None => Pulled::Untracked,
        Some(_) => Pulled::Ended,
    };
    let n = pyspy_snapshot(pulled, &mut out, &mut err);
    let msg = b"could not find spy for this pid";
    assert_eq!(n, -(msg.len() as i32));
    assert_eq!(&err[..msg.len()], &msg[..]);
}

#[test]
fn init_failure_reports_message() {
    let mut registry: Registry<Target<u32>> = Registry::new();
    let mut err = [7u8; 64];
    let r = pyspy_init(&mut registry, 5, 1, Err(b"no such process".to_vec()), &mut err);
    assert_eq!(r, -15);
    assert_eq!(&err[..15], b"no such process");
    assert_eq!(err[15], 7);
    assert!(!registry.is_tracked(5));
}

#[test]
fn init_failure_too_long_uses_fallback() {
    let mut registry: Registry<Target<u32>> = Registry::new();
    let mut err = [0u8; 20];
    let long = vec![b'x'; 40];
    let r = pyspy_init(&mut registry, 5, 1, Err(long), &mut err);
    assert_eq!(r, -19);
    assert_eq!(&err[..19], b"buffer is too small");
    assert_eq!(err[19], 0);
}

#[test]
fn init_replaces_earlier_entry() {
    let mut registry: Registry<Target<u32>> = Registry::new();
    let mut err = [0u8; 64];
    assert_eq!(pyspy_init(&mut registry, 3, 1, Ok(1), &mut err), 1);
    assert_eq!(pyspy_init(&mut registry, 3, 0, Ok(2), &mut err), 1);
    let s = registry.take(3).unwrap();
    assert_eq!(s.sampler.strategy, LockingStrategy::NonBlocking);
    assert_eq!(s.target, 2);
    assert!(!registry.is_tracked(3));
}

#[test]
fn cleanup_twice_and_unknown_pid() {
    let mut registry: Registry<Target<u32>> = Registry::new();
    let mut err = [0u8; 64];
    assert_eq!(pyspy_cleanup(&mut registry, 9), 1);
    assert!(!registry.is_tracked(9));
    assert_eq!(pyspy_init(&mut registry, 9, 0, Ok(0), &mut err), 1);
    assert_eq!(pyspy_cleanup(&mut registry, 9), 1);
    assert_eq!(pyspy_cleanup(&mut registry, 9), 1);
    assert!(!registry.is_tracked(9));
}

#[test]
fn snapshot_output_too_small() {
    let mut out = [1u8; 10];
    let mut err = [0u8; 64];
    let traces = vec![trace(1, true, vec![frame("a.py", 20, "bar"), frame("a.py", 10, "foo")])];
    let n = pyspy_snapshot(Pulled::Sampled(Ok(traces)), &mut out, &mut err);
    assert_eq!(n, -19);
    assert_eq!(&err[..19], b"buffer is too small");
    assert_eq!(out, [1u8; 10]);
}

#[test]
fn snapshot_without_active_thread_is_zero() {
    let mut out = [0u8; 64];
    let mut err = [0u8; 64];
    let traces = vec![trace(1, false, vec![frame("a.py", 1, "idle")])];
    assert_eq!(pyspy_snapshot(Pulled::Sampled(Ok(traces)), &mut out, &mut err), 0);
    assert_eq!(out, [0u8; 64]);
}

#[test]
fn snapshot_of_ended_stream_is_zero() {
    let mut out = [0u8; 64];
    let mut err = [0u8; 64];
    assert_eq!(pyspy_snapshot(Pulled::Ended, &mut out, &mut err), 0);
    assert_eq!(err, [0u8; 64]);
}

#[test]
fn snapshot_of_failed_sample_reports_error() {
    let mut out = [0u8; 64];
    let mut err = [0u8; 64];
    let n = pyspy_snapshot(Pulled::Sampled(Err(CaptureError::ProcessExited)), &mut out, &mut err);
    let msg = b"the target process has exited";
    assert_eq!(n, -(msg.len() as i32));
    assert_eq!(&err[..msg.len()], &msg[..]);
}

#[test]
fn snapshot_skips_idle_thread() {
    let mut out = [0u8; 64];
    let mut err = [0u8; 64];
    let traces = vec![
        trace(1, false, vec![frame("idle.py", 3, "wait")]),
        trace(2, true, vec![frame("b.py", 0, "run")]),
    ];
    let n = pyspy_snapshot(Pulled::Sampled(Ok(traces)), &mut out, &mut err);
    assert_eq!(&out[..n as usize], b"b.py - run");
}

#[test]
fn snapshot_picks_among_active_threads() {
    let mut seen_a = false;
    let mut seen_b = false;
    for _ in 0..400 {
        let mut out = [0u8; 64];
        let mut err = [0u8; 64];
        let traces = vec![
            trace(1, true, vec![frame("a.py", 1, "a")]),
            trace(2, true, vec![frame("b.py", 2, "b")]),
        ];
        let n = pyspy_snapshot(Pulled::Sampled(Ok(traces)), &mut out, &mut err);
        match &out[..n as usize] {
            b"a.py:1 - a" => seen_a = true,
            b"b.py:2 - b" => seen_b = true,
            other => panic!("unexpected line {:?}", other),
        }
    }
    assert!(seen_a && seen_b);
}

#[test]
fn negative_flag_blocks() {
    let mut registry: Registry<Target<u32>> = Registry::new();
    let mut err = [0u8; 0];
    assert_eq!(pyspy_init(&mut registry, 11, -1, Ok(0), &mut err), 1);
    assert_eq!(registry.take(11).unwrap().sampler.strategy, LockingStrategy::Blocking);
}

#[test]
fn init_with_empty_message_reports_fixed_one() {
    let mut registry: Registry<Target<u32>> = Registry::new();
    let mut err = [5u8; 40];
    let msg = b"could not start sampling this pid";
    assert_eq!(pyspy_init(&mut registry, 1, 1, Err(Vec::new()), &mut err), -(msg.len() as i32));
    assert_eq!(&err[..msg.len()], &msg[..]);
    assert_eq!(err[msg.len()], 5);
    assert!(!registry.is_tracked(1));
    let mut small = [5u8; 19];
    assert_eq!(pyspy_init(&mut registry, 1, 1, Err(Vec::new()), &mut small), -19);
    assert_eq!(&small, b"buffer is too small");
}

#[test]
fn small_error_buffer_is_enough_when_nothing_fails() {
    let mut out = [0u8; 64];
    let mut err = [0u8; 2];
    let traces = vec![trace(1, true, vec![frame("a.py", 3, "f")])];
    let pulled = Pulled::Sampled(Ok(traces));
    assert!(error_buffer_suffices(&pulled, out.len(), err.len()));
    let n = pyspy_snapshot(pulled, &mut out, &mut err);
    assert_eq!(&out[..n as usize], b"a.py:3 - f");
    assert!(error_buffer_suffices(&Pulled::Ended, 0, 0));
    assert_eq!(pyspy_snapshot(Pulled::Ended, &mut out, &mut err), 0);
    assert_eq!(err, [0u8; 2]);
}

#[test]
fn error_buffer_checks() {
    let long = vec![trace(1, true, vec![frame("a.py", 3, "f")])];
    assert!(!error_buffer_suffices(&Pulled::Sampled(Ok(long)), 5, 10));
    let idle = vec![trace(1, false, vec![frame("a.py", 3, "f")])];
    assert!(error_buffer_suffices(&Pulled::Sampled(Ok(idle)), 5, 10));
    assert!(!error_buffer_suffices(&Pulled::Untracked, 64, 18));
    assert!(error_buffer_suffices(&Pulled::Untracked, 0, 19));
    assert!(!error_buffer_suffices(&Pulled::Sampled(Err(CaptureError::ProcessExited)), 64, 10));
}
