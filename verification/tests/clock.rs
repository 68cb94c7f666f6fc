use cmdc::clock::{CaptureTime, TimedLine};

#[test]
fn clock_text_is_padded() {
    let t = CaptureTime::new(9, 5, 3, 7).unwrap();
    assert_eq!(t.text(), b"09:05:03.007".to_vec());
    let t = CaptureTime::new(23, 59, 59, 999).unwrap();
    assert_eq!(t.text(), b"23:59:59.999".to_vec());
    let t = CaptureTime::new(0, 0, 0, 0).unwrap();
    assert_eq!(t.text(), b"00:00:00.000".to_vec());
    let t = CaptureTime::new(10, 20, 30, 45).unwrap();
    assert_eq!(t.text(), b"10:20:30.045".to_vec());
}

#[test]
fn clock_parts_are_kept() {
    let t = CaptureTime::new(13, 14, 15, 160).unwrap();
    assert_eq!(t.hour(), 13);
    assert_eq!(t.minute(), 14);
    assert_eq!(t.second(), 15);
    assert_eq!(t.millisecond(), 160);
}

#[test]
fn out_of_range_times_are_refused() {
    assert!(CaptureTime::new(24, 0, 0, 0).is_none());
    assert!(CaptureTime::new(0, 60, 0, 0).is_none());
    assert!(CaptureTime::new(0, 0, 60, 0).is_none());
    assert!(CaptureTime::new(0, 0, 0, 1000).is_none());
    assert!(CaptureTime::new(23, 59, 59, 999).is_some());
}

#[test]
fn now_is_a_time_of_day() {
    let t = CaptureTime::now();
    assert!(t.hour() < 24);
    assert!(t.minute() < 60);
    assert!(t.second() < 60);
    assert!(t.millisecond() < 1000);
    let text = t.text();
    assert_eq!(text.len(), 12);
    assert_eq!(text[2], b':');
    assert_eq!(text[5], b':');
    assert_eq!(text[8], b'.');
    assert_eq!(CaptureTime::new(t.hour(), t.minute(), t.second(), t.millisecond()), Some(t));
}

#[test]
fn stamping_keeps_the_bytes() {
    let line = TimedLine::stamp(vec![0xff, b'a', b'\n']);
    assert_eq!(line.bytes, vec![0xff, b'a', b'\n']);
    assert!(line.time.hour() < 24);
    let first = TimedLine::stamp(b"1\n".to_vec());
    let second = TimedLine::stamp(b"2\n".to_vec());
    let key = |t: &CaptureTime| (t.hour(), t.minute(), t.second(), t.millisecond());
    // Capture order is clock order, but for a run across midnight.
    assert!(key(&first.time) <= key(&second.time) || first.time.hour() == 23);
}

#[test]
fn line_at_a_given_time() {
    let t = CaptureTime::new(1, 2, 3, 4).unwrap();
    let line = TimedLine::at(t, b"x\n".to_vec());
    assert_eq!(line.time, t);
    assert_eq!(line.bytes, b"x\n".to_vec());
}
