use py_spy::boundary::{export_in_order, first_active_folded};
use py_spy::buffer::{copy_error, write_line};
use py_spy::trace::{first_active, fold_frames, push_decimal, Frame, StackTrace};

fn frame(file: &str, line: i32, name: &str) -> Frame {
    Frame {
        name: name.as_bytes().to_vec(),
        filename: file.as_bytes().to_vec(),
        short_filename: None,
        line,
        is_native: false,
    }
}

#[test]
fn fold_orders_outermost_first() {
    let frames = vec![frame("a.py", 20, "bar"), frame("a.py", 10, "foo"), frame("m.py", 1, "<module>")];
    assert_eq!(fold_frames(&frames), b"m.py:1 - <module>;a.py:10 - foo;a.py:20 - bar".to_vec());
}

#[test]
fn fold_unknown_line_and_short_name() {
    let mut f = frame("/usr/lib/x.py", 0, "native");
    f.short_filename = Some(b"x.py".to_vec());
    assert_eq!(fold_frames(&vec![f]), b"x.py - native".to_vec());
}

#[test]
fn fold_empty_is_empty() {
    assert_eq!(fold_frames(&vec![]), Vec::<u8>::new());
}

#[test]
fn decimal_rendering() {
    for (n, s) in [(0, "0"), (7, "7"), (10, "10"), (1234, "1234"), (-5, "-5"), (i32::MAX, "2147483647"), (i32::MIN, "-2147483648")] {
        let mut out = b"L".to_vec();
        push_decimal(&mut out, n);
        assert_eq!(out, format!("L{}", s).into_bytes());
    }
}

#[test]
fn first_active_index() {
    let t = |a: bool| StackTrace { thread_id: 0, active: a, frames: vec![] };
    assert_eq!(first_active(&vec![t(false), t(true), t(true)]), Some(1));
    assert_eq!(first_active(&vec![t(false)]), None);
    assert_eq!(first_active(&vec![]), None);
}

#[test]
fn export_in_order_takes_first_active() {
    let traces = vec![
        StackTrace { thread_id: 1, active: true, frames: vec![frame("a.py", 1, "a")] },
        StackTrace { thread_id: 2, active: true, frames: vec![frame("b.py", 2, "b")] },
    ];
    assert_eq!(first_active_folded(&traces), b"a.py:1 - a".to_vec());
    let mut out = [0u8; 32];
    let mut err = [0u8; 32];
    assert_eq!(export_in_order(&traces, &mut out, &mut err), 10);
    assert_eq!(&out[..10], b"a.py:1 - a");
}

#[test]
fn copy_error_fits_exactly() {
    let mut big = [9u8; 19];
    assert_eq!(copy_error(&mut big, b"abcde"), -5);
    assert_eq!(&big[..6], b"abcde\x09");
    let mut exact = [0u8; 19];
    assert_eq!(copy_error(&mut exact, b"nineteen characters"), -19);
    assert_eq!(&exact, b"nineteen characters");
}

#[test]
fn copy_error_falls_back_when_too_long() {
    let mut err = [0u8; 19];
    assert_eq!(copy_error(&mut err, b"twenty characters!!!"), -19);
    assert_eq!(&err, b"buffer is too small");
}

#[test]
fn write_line_fits_and_empty() {
    let mut out = [0u8; 4];
    let mut err = [0u8; 32];
    assert_eq!(write_line(&mut out, &mut err, b"abcd"), 4);
    assert_eq!(&out, b"abcd");
    assert_eq!(write_line(&mut out, &mut err, b""), 0);
    assert_eq!(&out, b"abcd");
    assert_eq!(write_line(&mut out, &mut err, b"abcde"), -19);
    assert_eq!(&err[..19], b"buffer is too small");
}

#[test]
fn copy_error_short_message_into_small_buffer() {
    let mut err = [0u8; 4];
    assert_eq!(copy_error(&mut err, b"bad"), -3);
    assert_eq!(&err, b"bad\x00");
}
