use cmdc::clock::{CaptureTime, TimedLine};
use cmdc::counters::Counters;
use cmdc::shard::{file_name, record, ShardPhase, ShardStep, Verdict, WriterShard};

fn line(ms: u32, text: &[u8]) -> TimedLine {
    TimedLine::at(CaptureTime::new(10, 0, 0, ms).unwrap(), text.to_vec())
}

#[test]
fn record_is_time_space_line() {
    let l = TimedLine::at(CaptureTime::new(14, 3, 9, 42).unwrap(), b"T:PETR4:30.10\n".to_vec());
    assert_eq!(record(&l), b"14:03:09.042 T:PETR4:30.10\n".to_vec());
}

#[test]
fn record_keeps_raw_bytes() {
    let l = TimedLine::at(CaptureTime::new(0, 0, 0, 0).unwrap(), vec![0xff, 0xfe, b'\r', b'\n']);
    let mut expected = b"00:00:00.000 ".to_vec();
    expected.extend_from_slice(&[0xff, 0xfe, b'\r', b'\n']);
    assert_eq!(record(&l), expected);
    let empty = TimedLine::at(CaptureTime::new(0, 0, 0, 0).unwrap(), b"\n".to_vec());
    assert_eq!(record(&empty), b"00:00:00.000 \n".to_vec());
}

#[test]
fn shard_file_names() {
    assert_eq!(file_name(0), "content/crystal-md-0.txt");
    assert_eq!(file_name(7), "content/crystal-md-7.txt");
    assert_eq!(file_name(19), "content/crystal-md-19.txt");
    assert_eq!(file_name(120), "content/crystal-md-120.txt");
}

#[test]
fn batch_is_written_then_flushed() {
    let mut shard = WriterShard::new(3, 10, 5);
    assert_eq!(shard.index(), 3);
    assert_eq!(shard.next_step(), ShardStep::Await);
    assert_eq!(shard.current_record(), None);
    assert!(shard.accept(&vec![line(1, b"a\n"), line(2, b"b\n")]));
    assert_eq!(shard.next_step(), ShardStep::Write);
    assert_eq!(shard.current_record(), Some(&b"10:00:00.001 a\n".to_vec()));
    assert_eq!(shard.report(true), Verdict::Proceed);
    assert_eq!(shard.next_step(), ShardStep::Write);
    assert_eq!(shard.current_record(), Some(&b"10:00:00.002 b\n".to_vec()));
    assert_eq!(shard.report(true), Verdict::Proceed);
    assert_eq!(shard.next_step(), ShardStep::Flush);
    assert_eq!(shard.current_record(), None);
    assert_eq!(shard.report(true), Verdict::BatchWritten { lines: 2 });
    assert_eq!(shard.next_step(), ShardStep::Await);
    assert_eq!(shard.phase(), ShardPhase::Idle);
}

#[test]
fn write_retry() {
    let mut counters = Counters::new();
    counters.record_enqueued(1);
    let mut shard = WriterShard::new(0, 10, 5);
    assert!(shard.accept(&vec![line(0, b"only\n")]));
    let mut written: Vec<Vec<u8>> = Vec::new();
    let mut decrements = 0;
    let mut results = vec![false, false, false, true, true].into_iter();
    loop {
        match shard.next_step() {
            ShardStep::Await => break,
            ShardStep::Exit => panic!("the shard gave up"),
            ShardStep::Write => {
                let ok = results.next().unwrap();
                if ok {
                    written.push(shard.current_record().unwrap().clone());
                }
                match shard.report(ok) {
                    Verdict::RetryAfter { secs } => assert_eq!(secs, 5),
                    Verdict::Proceed => assert!(ok),
                    other => panic!("unexpected {:?}", other),
                }
            }
            ShardStep::Flush => match shard.report(results.next().unwrap()) {
                Verdict::BatchWritten { lines } => {
                    counters.record_written(lines);
                    decrements += 1;
                }
                other => panic!("unexpected {:?}", other),
            },
        }
    }
    assert_eq!(written, vec![b"10:00:00.000 only\n".to_vec()]);
    assert_eq!(decrements, 1);
    assert_eq!(counters.in_flight(), 0);
    assert_eq!(counters.total_sent(), 1);
}

#[test]
fn retry_budget_is_per_operation() {
    let mut shard = WriterShard::new(0, 3, 7);
    assert!(shard.accept(&vec![line(0, b"a\n"), line(1, b"b\n")]));
    assert_eq!(shard.report(false), Verdict::RetryAfter { secs: 7 });
    assert_eq!(shard.report(false), Verdict::RetryAfter { secs: 7 });
    assert_eq!(shard.report(true), Verdict::Proceed);
    assert_eq!(shard.report(false), Verdict::RetryAfter { secs: 7 });
    assert_eq!(shard.report(false), Verdict::RetryAfter { secs: 7 });
    assert_eq!(shard.report(true), Verdict::Proceed);
    assert_eq!(shard.report(false), Verdict::RetryAfter { secs: 7 });
    assert_eq!(shard.report(false), Verdict::RetryAfter { secs: 7 });
    assert_eq!(shard.report(true), Verdict::BatchWritten { lines: 2 });
}

#[test]
fn shard_gives_up_when_budget_is_spent() {
    let mut shard = WriterShard::new(0, 10, 5);
    assert!(shard.accept(&vec![line(0, b"a\n")]));
    for _ in 0..9 {
        assert_eq!(shard.report(false), Verdict::RetryAfter { secs: 5 });
    }
    assert_eq!(shard.report(false), Verdict::GiveUp);
    assert_eq!(shard.phase(), ShardPhase::Aborted);
    assert_eq!(shard.next_step(), ShardStep::Exit);
    assert!(!shard.accept(&vec![line(0, b"b\n")]));
    assert_eq!(shard.report(true), Verdict::Proceed);
    assert_eq!(shard.phase(), ShardPhase::Aborted);
}

#[test]
fn budget_of_zero_or_one_allows_no_failure() {
    for budget in [0usize, 1] {
        let mut shard = WriterShard::new(0, budget, 5);
        shard.tick();
        assert_eq!(shard.report(false), Verdict::GiveUp);
        assert_eq!(shard.phase(), ShardPhase::Aborted);
    }
}

#[test]
fn flush_tick() {
    let mut shard = WriterShard::new(0, 2, 5);
    shard.tick();
    assert_eq!(shard.phase(), ShardPhase::FlushingTick);
    assert_eq!(shard.next_step(), ShardStep::Flush);
    assert_eq!(shard.report(false), Verdict::RetryAfter { secs: 5 });
    assert_eq!(shard.report(true), Verdict::Proceed);
    assert_eq!(shard.phase(), ShardPhase::Idle);
    shard.tick();
    assert_eq!(shard.report(false), Verdict::RetryAfter { secs: 5 });
    assert_eq!(shard.report(false), Verdict::GiveUp);
}

#[test]
fn empty_batch_is_flushed_only() {
    let mut shard = WriterShard::new(0, 10, 5);
    assert!(shard.accept(&Vec::new()));
    assert_eq!(shard.next_step(), ShardStep::Flush);
    assert_eq!(shard.report(true), Verdict::BatchWritten { lines: 0 });
    assert_eq!(shard.phase(), ShardPhase::Idle);
}

#[test]
fn stop_ends_an_idle_shard() {
    let mut shard = WriterShard::new(0, 10, 5);
    shard.stop();
    assert_eq!(shard.phase(), ShardPhase::Stopped);
    assert_eq!(shard.next_step(), ShardStep::Exit);
    assert!(!shard.accept(&vec![line(0, b"late\n")]));
    shard.tick();
    assert_eq!(shard.phase(), ShardPhase::Stopped);
    assert_eq!(shard.current_record(), None);
}

#[test]
fn stop_waits_for_the_batch_in_work() {
    let mut shard = WriterShard::new(0, 10, 5);
    assert!(shard.accept(&vec![line(0, b"a\n")]));
    shard.stop();
    assert_eq!(shard.phase(), ShardPhase::Writing);
    assert!(!shard.accept(&vec![line(1, b"b\n")]));
    shard.tick();
    assert_eq!(shard.phase(), ShardPhase::Writing);
    assert_eq!(shard.report(true), Verdict::Proceed);
    assert_eq!(shard.report(true), Verdict::BatchWritten { lines: 1 });
    shard.stop();
    assert_eq!(shard.phase(), ShardPhase::Stopped);
}
