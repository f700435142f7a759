use rpc_host::channel::{BoundedChannel, RecvAttempt, SendAttempt};

#[test]
fn occupancy_never_exceeds_capacity() {
    let mut ch = BoundedChannel::new(3);
    let mut sent = 0;
    for i in 0..5u64 {
        match ch.try_send(i) {
            SendAttempt::Sent => sent += 1,
            SendAttempt::Full => assert_eq!(ch.len(), 3),
            SendAttempt::Closed => panic!("channel closed unexpectedly"),
        }
        assert!(ch.len() <= ch.capacity());
    }
    assert_eq!(sent, 3);
    assert_eq!(ch.len(), 3);
}

#[test]
fn interleaved_operations_keep_bound_and_order() {
    let mut ch = BoundedChannel::new(2);
    let mut received = Vec::new();
    let mut accepted = Vec::new();
    for i in 0..20u64 {
        if ch.try_send(i) == SendAttempt::Sent {
            accepted.push(i);
        }
        if i % 3 == 0 {
            if let RecvAttempt::Item(m) = ch.try_receive() {
                received.push(m);
            }
        }
        assert!(ch.len() <= 2);
    }
    ch.close();
    while let RecvAttempt::Item(m) = ch.try_receive() {
        received.push(m);
    }
    assert_eq!(received, accepted);
}

#[test]
fn fifo_order_kept() {
    let mut ch = BoundedChannel::new(8);
    for m in [5u64, 1, 9, 3] {
        assert_eq!(ch.try_send(m), SendAttempt::Sent);
    }
    assert_eq!(ch.try_receive(), RecvAttempt::Item(5));
    assert_eq!(ch.try_receive(), RecvAttempt::Item(1));
    assert_eq!(ch.try_receive(), RecvAttempt::Item(9));
    assert_eq!(ch.try_receive(), RecvAttempt::Item(3));
    assert_eq!(ch.try_receive(), RecvAttempt::Empty);
}

#[test]
fn close_drains_buffer_then_ends() {
    let mut ch = BoundedChannel::new(4);
    for m in 0..3u64 {
        assert_eq!(ch.try_send(m), SendAttempt::Sent);
    }
    ch.close();
    assert!(ch.is_closed());
    assert_eq!(ch.try_send(99), SendAttempt::Closed);
    assert_eq!(ch.try_receive(), RecvAttempt::Item(0));
    assert_eq!(ch.try_receive(), RecvAttempt::Item(1));
    assert_eq!(ch.try_receive(), RecvAttempt::Item(2));
    assert_eq!(ch.try_receive(), RecvAttempt::Ended);
    assert_eq!(ch.try_receive(), RecvAttempt::Ended);
}

#[test]
fn close_is_idempotent() {
    let mut ch = BoundedChannel::new(1);
    assert_eq!(ch.try_send(7), SendAttempt::Sent);
    ch.close();
    ch.close();
    assert_eq!(ch.len(), 1);
    assert_eq!(ch.try_receive(), RecvAttempt::Item(7));
    assert_eq!(ch.try_receive(), RecvAttempt::Ended);
}

#[test]
fn empty_open_channel_reports_empty() {
    let mut ch = BoundedChannel::new(1);
    assert_eq!(ch.len(), 0);
    assert!(!ch.is_closed());
    assert_eq!(ch.try_receive(), RecvAttempt::Empty);
}

#[test]
fn full_sender_unblocks_after_receive_or_close() {
    let mut ch = BoundedChannel::new(1);
    assert_eq!(ch.try_send(1), SendAttempt::Sent);
    assert_eq!(ch.try_send(2), SendAttempt::Full);
    assert_eq!(ch.try_receive(), RecvAttempt::Item(1));
    assert_eq!(ch.try_send(2), SendAttempt::Sent);
    assert_eq!(ch.try_send(3), SendAttempt::Full);
    ch.close();
    assert_eq!(ch.try_send(3), SendAttempt::Closed);
}
