use cmdc::batcher::{Batcher, Shipment};

fn offer(batcher: &mut Batcher<u32>, line: u32, accepted: bool) -> Option<Shipment<u32>> {
    let shipment = batcher.push(line);
    if shipment.is_some() && accepted {
        batcher.delivered();
    }
    shipment
}

#[test]
fn batch_rollover() {
    let mut batcher: Batcher<u32> = Batcher::new(3, 2);
    let mut shipments: Vec<Shipment<u32>> = Vec::new();
    for line in 1..=7u32 {
        if let Some(s) = offer(&mut batcher, line, true) {
            shipments.push(s);
        }
    }
    assert_eq!(shipments.len(), 2);
    assert_eq!(shipments[0], Shipment { shard: 0, lines: vec![1, 2, 3] });
    assert_eq!(shipments[1], Shipment { shard: 1, lines: vec![4, 5, 6] });
    assert_eq!(batcher.pending_len(), 1);
    assert_eq!(batcher.writer_index(), 0);
    let tail = batcher.flush();
    assert_eq!(tail, Some(Shipment { shard: 0, lines: vec![7] }));
    assert_eq!(batcher.pending_len(), 0);
    assert_eq!(batcher.flush(), None);
}

#[test]
fn round_robin_over_all_shards() {
    let shards = 5usize;
    let mut batcher: Batcher<u32> = Batcher::new(2, shards);
    let mut seen: Vec<usize> = Vec::new();
    for line in 0..24u32 {
        if let Some(s) = offer(&mut batcher, line, true) {
            assert_eq!(s.lines, vec![line - 1, line]);
            seen.push(s.shard);
        }
    }
    assert_eq!(seen, vec![0, 1, 2, 3, 4, 0, 1, 2, 3, 4, 0, 1]);
}

#[test]
fn refused_batch_keeps_the_turn() {
    let mut batcher: Batcher<u32> = Batcher::new(2, 3);
    let answers = [true, false, false, true, true];
    let mut seen: Vec<usize> = Vec::new();
    let mut line = 0u32;
    for answer in answers {
        assert!(offer(&mut batcher, line, answer).is_none());
        let s = offer(&mut batcher, line + 1, answer).unwrap();
        assert_eq!(s.lines, vec![line, line + 1]);
        seen.push(s.shard);
        line += 2;
    }
    assert_eq!(seen, vec![0, 1, 1, 1, 2]);
    assert_eq!(batcher.writer_index(), 0);
    assert_eq!(batcher.pending_len(), 0);
}

#[test]
fn batch_size_zero_ships_every_line() {
    let mut batcher: Batcher<u32> = Batcher::new(0, 2);
    let a = offer(&mut batcher, 10, true).unwrap();
    let b = offer(&mut batcher, 11, true).unwrap();
    assert_eq!(a, Shipment { shard: 0, lines: vec![10] });
    assert_eq!(b, Shipment { shard: 1, lines: vec![11] });
}

#[test]
fn single_shard_gets_everything() {
    let mut batcher: Batcher<u32> = Batcher::new(1, 1);
    for line in 0..4u32 {
        let s = offer(&mut batcher, line, true).unwrap();
        assert_eq!(s.shard, 0);
    }
}

#[test]
fn per_shard_order_is_read_order() {
    let mut batcher: Batcher<u32> = Batcher::new(3, 4);
    let mut streams: Vec<Vec<u32>> = vec![Vec::new(); 4];
    for line in 0..100u32 {
        let accepted = line % 7 != 2;
        if let Some(s) = offer(&mut batcher, line, accepted) {
            if accepted {
                streams[s.shard].extend(s.lines);
            }
        }
    }
    for stream in streams {
        for pair in stream.windows(2) {
            assert!(pair[0] < pair[1]);
        }
    }
}
