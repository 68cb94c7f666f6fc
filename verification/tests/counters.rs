use cmdc::counters::{reporter_step, Counters, ReporterStep};

#[test]
fn counters_follow_the_batches() {
    let mut c = Counters::new();
    assert_eq!((c.in_flight(), c.total_sent(), c.dropped()), (0, 0, 0));
    c.record_enqueued(10000);
    c.record_enqueued(10000);
    assert_eq!((c.in_flight(), c.total_sent()), (20000, 20000));
    c.record_written(10000);
    assert_eq!((c.in_flight(), c.total_sent()), (10000, 20000));
    c.record_dropped(10000);
    assert_eq!((c.in_flight(), c.total_sent(), c.dropped()), (10000, 20000, 10000));
    c.record_written(10000);
    assert_eq!((c.in_flight(), c.total_sent(), c.dropped()), (0, 20000, 10000));
}

#[test]
fn in_flight_never_exceeds_total_sent() {
    let mut c = Counters::new();
    for n in [3usize, 1, 4, 1, 5, 9, 2, 6] {
        c.record_enqueued(n);
        assert!(c.in_flight() <= c.total_sent());
        c.record_written(n / 2);
        assert!(c.in_flight() <= c.total_sent());
    }
    assert_eq!(c.total_sent(), 31);
    assert_eq!(c.in_flight(), 31 - (1 + 0 + 2 + 0 + 2 + 4 + 1 + 3));
}

#[test]
fn reporter_line() {
    let mut c = Counters::new();
    assert_eq!(c.report(), "cb: 0, cr: 0");
    c.record_enqueued(12345);
    c.record_written(345);
    assert_eq!(c.report(), "cb: 12000, cr: 12345");
}

#[test]
fn reporter_runs_until_stopped() {
    assert_eq!(reporter_step(false), ReporterStep::Report { after_secs: 1 });
    assert_eq!(reporter_step(true), ReporterStep::Exit);
}
