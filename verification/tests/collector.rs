use cmdc::clock::{CaptureTime, TimedLine};
use cmdc::collector::{start, Collector, LineOutcome};
use cmdc::control::{after_run, apply_to_signal, ControlStep, RunEnd, SessionFault};
use cmdc::counters::Counters;
use cmdc::handshake::Reaction;
use cmdc::params::CrystalParams;
use cmdc::settings::Settings;

fn params() -> CrystalParams {
    CrystalParams {
        assets: vec!["PETR4".to_string(), "VALE3".to_string()],
        mkt_data_address: "md.example:81".to_string(),
        mkt_data_username: "user\n".to_string(),
        mkt_data_password: "secret\n".to_string(),
    }
}

fn small(batch_size: usize, num_writers: usize) -> Settings {
    let mut s = Settings::standard();
    s.batch_size = batch_size;
    s.num_writers = num_writers;
    s
}

fn at(ms: u32, bytes: &[u8]) -> TimedLine {
    TimedLine::at(CaptureTime::new(9, 30, 0, ms).unwrap(), bytes.to_vec())
}

/// Feeds one read to the collector as the reader loop does, with queues
/// that take every batch, and returns what was written to the session and
/// what was shipped.
fn drive(
    c: &mut Collector,
    counters: &mut Counters,
    chunk: &[u8],
) -> (Vec<Vec<u8>>, Vec<(usize, Vec<Vec<u8>>)>) {
    let mut writes = Vec::new();
    let mut shipped = Vec::new();
    for bytes in c.on_bytes(chunk) {
        let outcome = c.on_line(TimedLine::stamp(bytes));
        if let Some(s) = outcome.shipment {
            c.settle(counters, s.lines.len(), true);
            shipped.push((s.shard, s.lines.into_iter().map(|l| l.bytes).collect()));
        }
        if let Some(reply) = outcome.reply {
            writes.push(reply);
        }
    }
    (writes, shipped)
}

#[test]
fn start_gives_a_fresh_reader() {
    let c = start(
        vec!["PETR4".to_string()],
        "md.example:81".to_string(),
        "user\n".to_string(),
        "secret\n".to_string(),
    );
    assert_eq!(c.params().assets, vec!["PETR4".to_string()]);
    assert_eq!(c.params().mkt_data_address, "md.example:81");
    assert_eq!(c.params().mkt_data_username, "user\n");
    assert_eq!(c.params().mkt_data_password, "secret\n");
    assert_eq!(*c.settings(), Settings::standard());
    assert!(!c.is_connected());
    assert!(!c.is_stopped());
    assert_eq!(c.writer_index(), 0);
    assert_eq!(c.batched(), 0);
}

#[test]
fn default_settings() {
    let s = Settings::standard();
    assert_eq!(s.num_writers, 20);
    assert_eq!(s.batch_size, 10000);
    assert_eq!(s.max_buffer_size, 1000000);
    assert_eq!(s.flush_interval_secs, 300);
    assert_eq!(s.retry_interval_secs, 5);
    assert_eq!(s.max_retries, 10);
    assert_eq!(s.reconnect_delay_secs, 10);
    assert_eq!(s.subscription_chunk, 5000);
    assert_eq!(s.subscription_pause_secs, 5);
    assert_eq!(s.read_buffer_size, 16384);
}

#[test]
fn line_splitting() {
    let mut c = Collector::new(params(), small(100, 2));
    let first = c.on_bytes(b"ab\ncd");
    assert_eq!(first, vec![b"ab\n".to_vec()]);
    let second = c.on_bytes(b"ef\n");
    assert_eq!(second, vec![b"cdef\n".to_vec()]);
    let a = TimedLine::stamp(first[0].clone());
    let b = TimedLine::stamp(second[0].clone());
    assert!(c.on_line(a.clone()).shipment.is_none());
    assert!(c.on_line(b.clone()).shipment.is_none());
    let tail = c.on_stop().unwrap();
    assert_eq!(tail.lines, vec![a, b]);
}

#[test]
fn handshake() {
    let mut c = Collector::new(params(), small(4, 3));
    let mut counters = Counters::new();
    let mut writes: Vec<Vec<u8>> = Vec::new();
    let mut shipped = Vec::new();
    let script: [&[u8]; 4] =
        [b"Connecting...\n", b"Username:\n", b"Password:\n", b"You are connected\n"];
    for (i, chunk) in script.iter().enumerate() {
        assert!(!c.is_connected());
        let (w, s) = drive(&mut c, &mut counters, chunk);
        writes.extend(w);
        shipped.extend(s);
        assert_eq!(c.is_connected(), i == 3);
    }
    assert_eq!(writes, vec![b"\n".to_vec(), b"user\n".to_vec(), b"secret\n".to_vec()]);
    assert_eq!(shipped.len(), 1);
    assert_eq!(shipped[0].0, 0);
    assert_eq!(shipped[0].1, script.iter().map(|l| l.to_vec()).collect::<Vec<Vec<u8>>>());
    assert_eq!(counters.total_sent(), 4);
}

#[test]
fn handshake_replayed_connects_once() {
    let mut c = Collector::new(params(), small(100, 3));
    let mut counters = Counters::new();
    let script = b"Connecting...\nUsername:\nPassword:\nYou are connected\n";
    let (w, _) = drive(&mut c, &mut counters, script);
    assert_eq!(w.len(), 3);
    assert!(c.is_connected());
    let (w, _) = drive(&mut c, &mut counters, b"You are connected\nquote\n");
    assert!(w.is_empty());
    assert!(c.is_connected());
}

#[test]
fn prompt_lines_are_captured_too() {
    let mut c = Collector::new(params(), small(100, 3));
    let outcome = c.on_line(at(1, b"Username:\n"));
    assert_eq!(
        outcome,
        LineOutcome {
            shipment: None,
            reaction: Reaction::SendUsername,
            reply: Some(b"user\n".to_vec())
        }
    );
    assert_eq!(c.batched(), 1);
    let outcome = c.on_line(at(2, b"quote\n"));
    assert_eq!(outcome, LineOutcome { shipment: None, reaction: Reaction::Ignore, reply: None });
    assert_eq!(c.batched(), 2);
}

#[test]
fn rollover_through_the_collector() {
    let mut c = Collector::new(params(), small(3, 2));
    let mut counters = Counters::new();
    let (_, shipped) = drive(&mut c, &mut counters, b"1\n2\n3\n4\n5\n6\n7\n");
    assert_eq!(
        shipped,
        vec![
            (0, vec![b"1\n".to_vec(), b"2\n".to_vec(), b"3\n".to_vec()]),
            (1, vec![b"4\n".to_vec(), b"5\n".to_vec(), b"6\n".to_vec()]),
        ]
    );
    let tail = c.on_stop().unwrap();
    assert_eq!(tail.shard, 0);
    assert_eq!(tail.lines.len(), 1);
    assert_eq!(tail.lines[0].bytes, b"7\n".to_vec());
    c.settle(&mut counters, tail.lines.len(), true);
    assert_eq!(counters.total_sent(), 7);
    assert_eq!(counters.in_flight(), 7);
}

#[test]
fn dropped_batch_is_counted_and_keeps_the_turn() {
    let mut c = Collector::new(params(), small(2, 3));
    let mut counters = Counters::new();
    assert!(c.on_line(at(0, b"a\n")).shipment.is_none());
    let s = c.on_line(at(1, b"b\n")).shipment.unwrap();
    assert_eq!(s.shard, 0);
    c.settle(&mut counters, s.lines.len(), false);
    assert_eq!((counters.total_sent(), counters.in_flight(), counters.dropped()), (0, 0, 2));
    assert_eq!(c.writer_index(), 0);
    assert_eq!(c.batched(), 0);
    assert!(c.on_line(at(2, b"c\n")).shipment.is_none());
    let s = c.on_line(at(3, b"d\n")).shipment.unwrap();
    assert_eq!(s.shard, 0);
    assert_eq!(s.lines, vec![at(2, b"c\n"), at(3, b"d\n")]);
    c.settle(&mut counters, s.lines.len(), true);
    assert_eq!((counters.total_sent(), counters.in_flight(), counters.dropped()), (2, 2, 2));
    assert_eq!(c.writer_index(), 1);
}

#[test]
fn stop_is_final() {
    let mut c = Collector::new(params(), small(2, 3));
    assert!(c.on_line(at(0, b"a\n")).shipment.is_none());
    assert_eq!(c.on_bytes(b"part"), Vec::<Vec<u8>>::new());
    let tail = c.on_stop().unwrap();
    assert_eq!(tail.lines, vec![at(0, b"a\n")]);
    assert!(c.is_stopped());
    assert_eq!(c.on_stop(), None);
    assert_eq!(c.on_bytes(b"ial\nmore\n"), Vec::<Vec<u8>>::new());
    let outcome = c.on_line(at(1, b"Username:\n"));
    assert_eq!(outcome, LineOutcome { shipment: None, reaction: Reaction::Ignore, reply: None });
    assert_eq!(c.batched(), 0);
    assert!(!c.is_connected());
    assert_eq!(c.on_stop(), None);
}

#[test]
fn stop_with_nothing_waiting_ships_nothing() {
    let mut c = Collector::new(params(), small(2, 3));
    assert_eq!(c.on_stop(), None);
    assert!(c.is_stopped());
}

#[test]
fn reconnect() {
    let p = params();
    let settings = small(3, 2);
    let mut counters = Counters::new();
    let mut c = Collector::new(p.clone(), settings);
    let (w, _) = drive(&mut c, &mut counters, b"Connecting...\nUsername:\nPassw");
    assert_eq!(w.len(), 2);
    // The server closes the session in the middle of a line.
    let steps = after_run(RunEnd::Fault(SessionFault::EndOfStream), c.settings());
    assert_eq!(
        steps,
        vec![
            ControlStep::RaiseStop,
            ControlStep::Pause { secs: 10 },
            ControlStep::ClearStop,
            ControlStep::Announce,
            ControlStep::Restart,
        ]
    );
    // What waited in the batch leaves before the reconnect.
    let tail = c.on_end(RunEnd::Fault(SessionFault::EndOfStream)).unwrap();
    assert_eq!(tail.shard, 0);
    assert_eq!(tail.lines.len(), 2);
    let mut signal = false;
    let mut trace = Vec::new();
    let mut restarts = 0;
    for step in steps {
        signal = apply_to_signal(signal, step);
        trace.push(signal);
        if step == ControlStep::Restart {
            restarts += 1;
            c = c.restart();
        }
    }
    assert_eq!(trace, vec![true, true, false, false, false]);
    assert_eq!(restarts, 1);
    assert_eq!(*c.params(), p);
    assert_eq!(*c.settings(), settings);
    assert!(!c.is_connected());
    assert!(!c.is_stopped());
    assert_eq!(c.batched(), 0);
    assert_eq!(c.writer_index(), 0);
    // The half line of the old session is gone.
    assert_eq!(c.on_bytes(b"ord:\n"), vec![b"ord:\n".to_vec()]);
    let script = b"Connecting...\nUsername:\nPassword:\nYou are connected\n";
    let (w, _) = drive(&mut c, &mut counters, script);
    assert_eq!(w, vec![b"\n".to_vec(), b"user\n".to_vec(), b"secret\n".to_vec()]);
    assert!(c.is_connected());
}

#[test]
fn full_queue_drops_the_batch() {
    let mut c = Collector::new(params(), small(1, 2));
    let mut counters = Counters::new();
    let (tx0, mut rx0) = tokio::sync::mpsc::channel::<Vec<TimedLine>>(1);
    let (tx1, mut rx1) = tokio::sync::mpsc::channel::<Vec<TimedLine>>(1);
    let queues = vec![tx0, tx1];
    let mut answers = Vec::new();
    let mut shards = Vec::new();
    for i in 0..4u32 {
        let shipment = c.on_line(at(i, b"x\n")).shipment.unwrap();
        shards.push(shipment.shard);
        answers.push(c.ship(&queues, shipment, &mut counters));
    }
    // Queue 0 takes the first batch, queue 1 the second and is full then;
    // the turn stays with queue 0, which is full as well.
    assert_eq!(shards, vec![0, 1, 0, 0]);
    assert_eq!(answers, vec![true, true, false, false]);
    assert_eq!((counters.total_sent(), counters.in_flight(), counters.dropped()), (2, 2, 2));
    assert_eq!(rx0.try_recv().unwrap(), vec![at(0, b"x\n")]);
    assert_eq!(rx1.try_recv().unwrap(), vec![at(1, b"x\n")]);
    assert!(rx0.try_recv().is_err());
    // With room again the queue takes the next batch and the turn moves on.
    let shipment = c.on_line(at(4, b"y\n")).shipment.unwrap();
    assert!(c.ship(&queues, shipment, &mut counters));
    assert_eq!(rx0.try_recv().unwrap(), vec![at(4, b"y\n")]);
    assert_eq!(c.writer_index(), 1);
    assert_eq!((counters.total_sent(), counters.dropped()), (3, 2));
}

#[test]
fn closed_queue_drops_the_batch() {
    let mut c = Collector::new(params(), small(1, 1));
    let mut counters = Counters::new();
    let (tx, rx) = tokio::sync::mpsc::channel::<Vec<TimedLine>>(8);
    drop(rx);
    let queues = vec![tx];
    let shipment = c.on_line(at(0, b"x\n")).shipment.unwrap();
    assert!(!c.ship(&queues, shipment, &mut counters));
    assert_eq!((counters.total_sent(), counters.in_flight(), counters.dropped()), (0, 0, 1));
}

#[test]
fn partial_batch_leaves_at_every_end() {
    let ends = [
        RunEnd::Stopped,
        RunEnd::Fault(SessionFault::EndOfStream),
        RunEnd::Fault(SessionFault::ReadFailed),
        RunEnd::Fault(SessionFault::WriteFailed),
        RunEnd::Fault(SessionFault::ConnectFailed),
    ];
    for end in ends {
        let mut c = Collector::new(params(), small(3, 2));
        let mut counters = Counters::new();
        let (_, shipped) = drive(&mut c, &mut counters, b"1\n2\n3\n4\n5\nhalf");
        assert_eq!(shipped.len(), 1);
        assert_eq!(c.writer_index(), 1);
        let tail = c.on_end(end).unwrap();
        assert_eq!(tail.shard, 1);
        assert_eq!(
            tail.lines.iter().map(|l| l.bytes.clone()).collect::<Vec<Vec<u8>>>(),
            vec![b"4\n".to_vec(), b"5\n".to_vec()]
        );
        assert!(c.is_stopped());
        assert_eq!(c.batched(), 0);
        assert_eq!(c.on_end(end), None);
        assert_eq!(c.on_bytes(b" line\n"), Vec::<Vec<u8>>::new());
        assert_eq!(*c.params(), params());
    }
}

#[test]
fn nothing_waiting_nothing_leaves_at_the_end() {
    let mut c = Collector::new(params(), small(2, 2));
    assert_eq!(c.on_end(RunEnd::Fault(SessionFault::EndOfStream)), None);
    assert!(c.is_stopped());
}
