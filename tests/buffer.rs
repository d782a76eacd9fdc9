use telegram_notify::{
    join_messages, should_flush, Action, Delivery, FlushResult, PendingQueue, SharedClient,
    SinkError, TelegramClient, THRESHOLD,
};

fn words(n: usize, prefix: &str) -> Vec<String> {
    (0..n).map(|i| format!("{}{}", prefix, i)).collect()
}

/// A fake sink that records every call and answers as told.
struct FakeSink {
    calls: Vec<Delivery>,
    refuse: Option<(u16, String)>,
}

impl FakeSink {
    fn working() -> FakeSink {
        FakeSink { calls: Vec::new(), refuse: None }
    }

    fn deliver(&mut self, d: Delivery) -> Result<(), SinkError> {
        self.calls.push(d);
        match &self.refuse {
            None => Ok(()),
            Some((status, body)) => Err(SinkError::Rejected { status: *status, body: body.clone() }),
        }
    }

    /// Carries out what the library asked for: at most one call.
    fn run(&mut self, a: Action) -> FlushResult {
        match a {
            Action::Finished(r) => r,
            Action::Deliver { delivery, count } => FlushResult::from_answer(count, self.deliver(delivery)),
        }
    }

    fn texts(&self) -> Vec<String> {
        self.calls.iter().map(|d| d.text.clone()).collect()
    }
}

#[test]
fn join_puts_newlines_between() {
    let msgs = vec!["a".to_string(), "bc".to_string(), "".to_string(), "d".to_string()];
    assert_eq!(join_messages(&msgs), "a\nbc\n\nd");
}

#[test]
fn join_of_none_and_one() {
    assert_eq!(join_messages(&Vec::new()), "");
    assert_eq!(join_messages(&vec!["only".to_string()]), "only");
}

#[test]
fn queue_keeps_order_and_empties() {
    let mut q = PendingQueue::new();
    assert_eq!(q.len(), 0);
    assert_eq!(q.push("x".to_string()), 1);
    assert_eq!(q.push("y".to_string()), 2);
    let batch = q.take();
    assert_eq!(batch, vec!["x".to_string(), "y".to_string()]);
    assert_eq!(q.len(), 0);
    assert!(q.take().is_empty());
}

#[test]
fn threshold_decision() {
    assert_eq!(THRESHOLD, 20);
    assert!(!should_flush(1, true));
    assert!(!should_flush(19, true));
    assert!(should_flush(20, true));
    assert!(should_flush(21, true));
    assert!(should_flush(1, false));
}

#[test]
fn answer_maps_to_result() {
    assert_eq!(FlushResult::from_answer(4, Ok(())), FlushResult::Sent { count: 4 });
    assert_eq!(
        FlushResult::from_answer(4, Err(SinkError::Transport { detail: "dns".to_string() })),
        FlushResult::Failed { reason: SinkError::Transport { detail: "dns".to_string() } }
    );
}

#[test]
fn fresh_flush_is_noop_without_call() {
    let mut client = TelegramClient::new("tok".to_string(), "chat".to_string());
    assert_eq!(client.flush(), Action::Finished(FlushResult::NoOp));
}

#[test]
fn flush_after_flush_is_noop() {
    let mut sink = FakeSink::working();
    let mut client = TelegramClient::new("tok".to_string(), "chat".to_string());
    assert_eq!(sink.run(client.send_notify("m".to_string(), true)), FlushResult::Queued);
    assert_eq!(sink.run(client.flush()), FlushResult::Sent { count: 1 });
    assert_eq!(client.flush(), Action::Finished(FlushResult::NoOp));
    assert_eq!(sink.calls.len(), 1);
}

#[test]
fn flush_delivers_in_order_with_credentials() {
    let mut client = TelegramClient::new("tok".to_string(), "chat".to_string());
    for m in ["first", "second", "third"] {
        assert_eq!(client.send_notify(m.to_string(), true), Action::Finished(FlushResult::Queued));
    }
    assert_eq!(
        client.flush(),
        Action::Deliver {
            delivery: Delivery {
                token: "tok".to_string(),
                chat_id: "chat".to_string(),
                text: "first\nsecond\nthird".to_string(),
            },
            count: 3,
        }
    );
}

#[test]
fn success_counts_every_message() {
    let mut sink = FakeSink::working();
    let mut client = TelegramClient::new("t".to_string(), "c".to_string());
    let msgs = words(7, "m");
    for m in &msgs {
        assert_eq!(sink.run(client.send_notify(m.clone(), true)), FlushResult::Queued);
    }
    assert_eq!(sink.run(client.flush()), FlushResult::Sent { count: 7 });
    assert_eq!(sink.calls.len(), 1);
    assert_eq!(sink.calls[0].text.split('\n').count(), 7);
    assert_eq!(sink.calls[0].text, msgs.join("\n"));
}

#[test]
fn below_threshold_never_flushes() {
    let mut client = TelegramClient::new("t".to_string(), "c".to_string());
    for m in words(19, "w") {
        assert_eq!(client.send_notify(m, true), Action::Finished(FlushResult::Queued));
    }
}

#[test]
fn empty_message_is_queued() {
    let mut client = TelegramClient::new("t".to_string(), "c".to_string());
    assert_eq!(client.send_notify(String::new(), true), Action::Finished(FlushResult::Queued));
    assert_eq!(
        client.flush(),
        Action::Deliver {
            delivery: Delivery { token: "t".to_string(), chat_id: "c".to_string(), text: String::new() },
            count: 1,
        }
    );
}

#[test]
fn reaching_threshold_flushes_once_with_all() {
    let mut sink = FakeSink::working();
    let mut client = TelegramClient::new("t".to_string(), "c".to_string());
    let msgs = words(20, "w");
    for m in &msgs[..19] {
        assert_eq!(sink.run(client.send_notify(m.clone(), true)), FlushResult::Queued);
    }
    assert_eq!(sink.run(client.send_notify(msgs[19].clone(), true)), FlushResult::Sent { count: 20 });
    assert_eq!(sink.texts(), vec![msgs.join("\n")]);
    assert_eq!(client.flush(), Action::Finished(FlushResult::NoOp));
}

#[test]
fn unbuffered_flushes_a_single_message() {
    let mut client = TelegramClient::new("tok".to_string(), "chat".to_string());
    assert_eq!(
        client.send_notify("hello".to_string(), false),
        Action::Deliver {
            delivery: Delivery { token: "tok".to_string(), chat_id: "chat".to_string(), text: "hello".to_string() },
            count: 1,
        }
    );
    assert_eq!(client.flush(), Action::Finished(FlushResult::NoOp));
}

#[test]
fn unbuffered_takes_what_waits_before_it() {
    let mut sink = FakeSink::working();
    let mut client = TelegramClient::new("t".to_string(), "c".to_string());
    sink.run(client.send_notify("a".to_string(), true));
    sink.run(client.send_notify("b".to_string(), true));
    assert_eq!(sink.run(client.send_notify("c".to_string(), false)), FlushResult::Sent { count: 3 });
    assert_eq!(sink.texts(), vec!["a\nb\nc".to_string()]);
}

#[test]
fn failure_drops_batch_and_is_not_redelivered() {
    let mut failing = FakeSink { calls: Vec::new(), refuse: Some((502, "bad gateway".to_string())) };
    let mut working = FakeSink::working();
    let mut client = TelegramClient::new("t".to_string(), "c".to_string());
    working.run(client.send_notify("lost1".to_string(), true));
    working.run(client.send_notify("lost2".to_string(), true));
    assert_eq!(
        failing.run(client.flush()),
        FlushResult::Failed { reason: SinkError::Rejected { status: 502, body: "bad gateway".to_string() } }
    );
    assert_eq!(failing.calls.len(), 1);
    working.run(client.send_notify("fresh".to_string(), true));
    assert_eq!(working.run(client.flush()), FlushResult::Sent { count: 1 });
    assert_eq!(working.texts(), vec!["fresh".to_string()]);
}

#[test]
fn rejection_carries_status_and_body() {
    let mut rejecting = FakeSink { calls: Vec::new(), refuse: Some((400, "bad request".to_string())) };
    let mut client = TelegramClient::new("t".to_string(), "c".to_string());
    assert_eq!(
        rejecting.run(client.send_notify("x".to_string(), false)),
        FlushResult::Failed { reason: SinkError::Rejected { status: 400, body: "bad request".to_string() } }
    );
    assert_eq!(client.flush(), Action::Finished(FlushResult::NoOp));
}

#[test]
fn message_with_newline_is_kept_whole() {
    let mut sink = FakeSink::working();
    let mut client = TelegramClient::new("t".to_string(), "c".to_string());
    sink.run(client.send_notify("a\nb".to_string(), true));
    assert_eq!(sink.run(client.send_notify("c".to_string(), false)), FlushResult::Sent { count: 2 });
    assert_eq!(sink.texts(), vec!["a\nb\nc".to_string()]);
}

#[test]
fn interleaved_enqueues_and_flushes_lose_and_repeat_nothing() {
    let mut sink = FakeSink::working();
    let client = SharedClient::new("t".to_string(), "c".to_string());
    let callers: usize = 4;
    let per_caller: usize = 50;
    let mut sent: usize = 0;
    for i in 0..per_caller {
        for k in 0..callers {
            let r = sink.run(client.send_notify(format!("t{}-{}", k, i), (i + k) % 7 != 0));
            if let FlushResult::Sent { count } = r {
                sent += count;
            }
            if (i * callers + k) % 5 == 0 {
                if let FlushResult::Sent { count } = sink.run(client.flush()) {
                    sent += count;
                }
            }
        }
    }
    if let FlushResult::Sent { count } = sink.run(client.flush()) {
        sent += count;
    }
    let mut all: Vec<String> = Vec::new();
    for text in sink.texts() {
        for m in text.split('\n') {
            all.push(m.to_string());
        }
    }
    assert_eq!(sent, callers * per_caller);
    assert_eq!(all.len(), callers * per_caller);
    all.sort();
    all.dedup();
    assert_eq!(all.len(), callers * per_caller);
}

#[test]
fn shared_client_queues_then_flushes_in_order() {
    let mut sink = FakeSink::working();
    let client = SharedClient::new("tok".to_string(), "chat".to_string());
    assert_eq!(client.flush(), Action::Finished(FlushResult::NoOp));
    for m in words(19, "s") {
        assert_eq!(client.send_notify(m, true), Action::Finished(FlushResult::Queued));
    }
    assert_eq!(sink.run(client.send_notify("s19".to_string(), true)), FlushResult::Sent { count: 20 });
    assert_eq!(sink.run(client.send_notify("late".to_string(), false)), FlushResult::Sent { count: 1 });
    assert_eq!(sink.calls.len(), 2);
    assert_eq!(sink.calls[0].token, "tok");
    assert_eq!(sink.calls[0].chat_id, "chat");
    assert_eq!(sink.calls[0].text, words(20, "s").join("\n"));
    assert_eq!(sink.calls[1].text, "late");
}

#[test]
fn shared_client_failure_is_not_redelivered() {
    let mut failing = FakeSink { calls: Vec::new(), refuse: Some((429, "slow down".to_string())) };
    let mut working = FakeSink::working();
    let client = SharedClient::new("t".to_string(), "c".to_string());
    working.run(client.send_notify("old".to_string(), true));
    assert_eq!(
        failing.run(client.flush()),
        FlushResult::Failed { reason: SinkError::Rejected { status: 429, body: "slow down".to_string() } }
    );
    working.run(client.send_notify("new".to_string(), true));
    assert_eq!(working.run(client.flush()), FlushResult::Sent { count: 1 });
    assert_eq!(working.texts(), vec!["new".to_string()]);
}
