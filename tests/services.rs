use rpc_host::channel::RecvAttempt;
use rpc_host::services::{
    ChatMessage, HistoryProgress, MyChatService, MyPaymentService, MyTransactionService, PaymentRequest,
    REPLY_PREFIX,
};

#[test]
fn payment_always_succeeds() {
    let svc = MyPaymentService::new();
    assert!(svc.process_payment(&PaymentRequest {}).success);
}

#[test]
fn record_contents() {
    let svc = MyTransactionService::new();
    let r = svc.record(12);
    assert_eq!(r.transaction_id, "trans_12");
    assert_eq!(r.status, "Completed");
    assert_eq!(r.amount_cents, 10000);
    assert_eq!(r.timestamp, "2022-01-01T12:00:00Z");
    assert_eq!(svc.record(0).transaction_id, "trans_0");
    assert_eq!(svc.record(29).transaction_id, "trans_29");
}

#[test]
fn history_stream_cancelled_after_consumer_closes() {
    let svc = MyTransactionService::new();
    let mut ch = svc.get_transaction_history();
    assert_eq!(ch.capacity(), 4);
    assert_eq!(svc.pump_history(0, &mut ch), HistoryProgress::Blocked(4));
    for k in 0..4u64 {
        assert_eq!(ch.try_receive(), RecvAttempt::Item(k));
    }
    ch.close();
    assert_eq!(svc.pump_history(4, &mut ch), HistoryProgress::Cancelled(4));
    assert_eq!(ch.try_receive(), RecvAttempt::Ended);
}

#[test]
fn history_stream_delivers_thirty_in_batches() {
    let svc = MyTransactionService::new();
    let mut ch = svc.get_transaction_history();
    let mut next = 0u64;
    let mut got = Vec::new();
    let mut pauses = Vec::new();
    loop {
        match svc.pump_history(next, &mut ch) {
            HistoryProgress::Finished => break,
            HistoryProgress::Paused(k) => {
                pauses.push(k);
                next = k;
            }
            HistoryProgress::Blocked(k) => next = k,
            HistoryProgress::Cancelled(_) => panic!("not closed"),
        }
        while let RecvAttempt::Item(m) = ch.try_receive() {
            got.push(m);
        }
    }
    ch.close();
    while let RecvAttempt::Item(m) = ch.try_receive() {
        got.push(m);
    }
    assert_eq!(got, (0..30u64).collect::<Vec<_>>());
    assert_eq!(pauses, vec![10, 20]);
}

#[test]
fn history_pump_at_end_finishes() {
    let svc = MyTransactionService::new();
    let mut ch = svc.get_transaction_history();
    assert_eq!(svc.pump_history(30, &mut ch), HistoryProgress::Finished);
    assert_eq!(ch.len(), 0);
}

#[test]
fn history_pump_pauses_at_batch_end() {
    let svc = MyTransactionService::new();
    let mut ch = rpc_host::channel::BoundedChannel::new(16);
    assert_eq!(svc.pump_history(7, &mut ch), HistoryProgress::Paused(10));
    assert_eq!(ch.len(), 3);
    assert_eq!(svc.pump_history(25, &mut ch), HistoryProgress::Finished);
    assert_eq!(ch.len(), 8);
}

fn msg(text: &str) -> ChatMessage {
    ChatMessage { user_id: "client".to_string(), message: text.to_string() }
}

#[test]
fn chat_reply_text() {
    let svc = MyChatService::new();
    let r = svc.reply(&msg("halo"));
    assert_eq!(r.user_id, "server");
    assert_eq!(
        r.message,
        "Terima kasih telah melakukan chat kepada CS virtual, Pesan anda akan dibalas pada jam kerja. pesan anda : halo"
    );
}

#[test]
fn chat_echoes_one_reply_per_message_in_order() {
    let svc = MyChatService::new();
    let inbound: Vec<ChatMessage> = (0..25).map(|i| msg(&format!("m{}", i))).collect();
    let out = svc.chat(&inbound);
    assert_eq!(out.len(), inbound.len());
    for (o, i) in out.iter().zip(inbound.iter()) {
        assert_eq!(o.user_id, "server");
        assert_eq!(o.message, format!("{}{}", REPLY_PREFIX, i.message));
    }
}

#[test]
fn chat_on_empty_stream_sends_nothing() {
    let svc = MyChatService::new();
    assert!(svc.chat(&Vec::new()).is_empty());
}

#[test]
fn services_default_to_new() {
    assert_eq!(MyPaymentService::default(), MyPaymentService::new());
    assert_eq!(MyTransactionService::default(), MyTransactionService::new());
    assert_eq!(MyChatService::default(), MyChatService::new());
}
