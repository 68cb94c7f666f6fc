use cmdc::subscriber::{
    commands_for, commands_for_lowered, subscription_list, Subscriber, SubscriberStep,
    POLL_INTERVAL_MILLIS,
};

#[test]
fn commands_of_a_symbol() {
    assert_eq!(
        commands_for("petr4"),
        vec!["BQT petr4\n".to_string(), "GQT petr4 S 1\n".to_string(), "SQT petr4\n".to_string()]
    );
}

#[test]
fn symbols_are_lowercased() {
    assert_eq!(
        commands_for("WINZ25"),
        vec!["BQT winz25\n".to_string(), "GQT winz25 S 1\n".to_string(), "SQT winz25\n".to_string()]
    );
    assert_eq!(commands_for("PeTr4")[0], "BQT petr4\n");
}

#[test]
fn lowered_symbol_is_taken_as_it_is() {
    assert_eq!(
        commands_for_lowered("Abc"),
        vec!["BQT Abc\n".to_string(), "GQT Abc S 1\n".to_string(), "SQT Abc\n".to_string()]
    );
    assert_eq!(commands_for_lowered("")[1], "GQT  S 1\n");
}

#[test]
fn futures_come_before_assets() {
    let list = subscription_list(
        vec!["winG25".to_string(), "wdoF25".to_string()],
        vec!["PETR4".to_string()],
    );
    assert_eq!(list, vec!["winG25".to_string(), "wdoF25".to_string(), "PETR4".to_string()]);
}

#[test]
fn subscriber_waits_for_the_session() {
    let mut s = Subscriber::new(vec!["a".to_string()], 5000, 5);
    assert_eq!(POLL_INTERVAL_MILLIS, 100);
    assert_eq!(s.next_step(false, false), SubscriberStep::Poll { millis: 100 });
    assert_eq!(s.next_step(false, false), SubscriberStep::Poll { millis: 100 });
    assert_eq!(s.remaining(), 1);
    match s.next_step(true, false) {
        SubscriberStep::Send { commands, pause_secs } => {
            assert_eq!(commands.len(), 3);
            assert_eq!(pause_secs, 5);
        }
        other => panic!("unexpected {:?}", other),
    }
    assert_eq!(s.next_step(false, false), SubscriberStep::Done);
}

#[test]
fn subscription_pacing() {
    let list: Vec<String> = (0..12500).map(|i| format!("SYM{}", i)).collect();
    let mut s = Subscriber::new(list, 5000, 5);
    let mut sizes: Vec<usize> = Vec::new();
    let mut pauses: Vec<u64> = Vec::new();
    let mut first_of_chunk: Vec<String> = Vec::new();
    loop {
        match s.next_step(true, false) {
            SubscriberStep::Send { commands, pause_secs } => {
                for triple in commands.chunks(3) {
                    let sym = triple[0].strip_prefix("BQT ").unwrap().trim_end();
                    assert_eq!(sym, sym.to_lowercase());
                    assert_eq!(triple[1], format!("GQT {} S 1\n", sym));
                    assert_eq!(triple[2], format!("SQT {}\n", sym));
                }
                first_of_chunk.push(commands[0].clone());
                sizes.push(commands.len());
                pauses.push(pause_secs);
            }
            SubscriberStep::Done => break,
            other => panic!("unexpected {:?}", other),
        }
    }
    assert_eq!(sizes, vec![15000, 15000, 7500]);
    assert_eq!(pauses, vec![5, 5, 5]);
    assert_eq!(
        first_of_chunk,
        vec!["BQT sym7500\n".to_string(), "BQT sym2500\n".to_string(), "BQT sym0\n".to_string()]
    );
    assert_eq!(s.remaining(), 0);
}

#[test]
fn chunks_come_from_the_tail_in_list_order() {
    let list: Vec<String> = vec!["A", "B", "C", "D", "E"].into_iter().map(String::from).collect();
    let mut s = Subscriber::new(list, 2, 1);
    let mut sent: Vec<String> = Vec::new();
    while let SubscriberStep::Send { commands, .. } = s.next_step(true, false) {
        for triple in commands.chunks(3) {
            sent.push(triple[0].clone());
        }
    }
    assert_eq!(
        sent,
        vec!["BQT d\n", "BQT e\n", "BQT b\n", "BQT c\n", "BQT a\n"]
            .into_iter()
            .map(String::from)
            .collect::<Vec<String>>()
    );
}

#[test]
fn empty_list_is_done_at_once() {
    let mut s = Subscriber::new(Vec::new(), 5000, 5);
    assert_eq!(s.next_step(true, false), SubscriberStep::Done);
}

#[test]
fn stop_ends_the_subscriber() {
    let list: Vec<String> = vec!["A", "B", "C"].into_iter().map(String::from).collect();
    let mut s = Subscriber::new(list, 2, 1);
    assert_eq!(s.next_step(false, true), SubscriberStep::Done);
    assert_eq!(s.remaining(), 3);
    assert!(matches!(s.next_step(true, false), SubscriberStep::Send { .. }));
    assert_eq!(s.next_step(true, true), SubscriberStep::Done);
    assert_eq!(s.remaining(), 1);
}

#[test]
fn chunk_size_zero_sends_one_symbol_at_a_time() {
    let list: Vec<String> = vec!["A", "B", "C"].into_iter().map(String::from).collect();
    let mut s = Subscriber::new(list, 0, 5);
    let mut sent: Vec<String> = Vec::new();
    let mut steps = 0;
    loop {
        steps += 1;
        assert!(steps <= 4);
        match s.next_step(true, false) {
            SubscriberStep::Send { commands, pause_secs } => {
                assert_eq!(commands.len(), 3);
                assert_eq!(pause_secs, 5);
                sent.push(commands[0].clone());
            }
            SubscriberStep::Done => break,
            other => panic!("unexpected {:?}", other),
        }
    }
    assert_eq!(sent, vec!["BQT c\n".to_string(), "BQT b\n".to_string(), "BQT a\n".to_string()]);
    assert_eq!(s.remaining(), 0);
}
