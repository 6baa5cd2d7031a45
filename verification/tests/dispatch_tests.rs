use httpcore::dispatch::{channel, DispatchError, Kind, Poll, Reason, SendWhen, When};

#[derive(Debug, PartialEq)]
struct Custom(i32);

#[test]
fn drop_receiver_sends_cancel_errors() {
    let (mut tx, mut rx, mut core) = channel::<Custom, ()>();

    // poll once so the receiver has asked for work
    assert!(matches!(rx.poll_recv(&mut core), Poll::Pending), "rx empty");

    let promise = tx.try_send(&mut core, Custom(43)).unwrap();
    rx.drop_receiver(&mut core);

    let fulfilled = promise.try_recv(&mut core);
    let err = fulfilled.expect("fulfilled").expect_err("promise should error");
    match (err.0.kind(), err.1) {
        (Kind::Canceled, Some(_)) => (),
        e => panic!("expected a canceled error with a value, found {:?}", e),
    }
}

#[test]
fn drop_receiver_returns_original_request() {
    let (mut tx, rx, mut core) = channel::<Custom, ()>();
    let promise = tx.try_send(&mut core, Custom(7)).unwrap();
    rx.drop_receiver(&mut core);
    let err = promise
        .try_recv(&mut core)
        .expect("resolved")
        .expect_err("canceled");
    assert_eq!(err.0.kind(), Kind::Canceled);
    assert_eq!(err.0.message(), "connection closed");
    assert_eq!(err.1, Some(Custom(7)));
}

#[test]
fn drop_receiver_final_send_keeps_no_request() {
    let (mut tx, rx, mut core) = channel::<Custom, ()>();
    let promise = tx.send(&mut core, Custom(9)).unwrap();
    rx.drop_receiver(&mut core);
    let err = promise
        .try_recv(&mut core)
        .expect("resolved")
        .expect_err("canceled");
    assert_eq!(err.kind(), Kind::Canceled);
}

#[test]
fn sender_checks_for_want_on_send() {
    let (mut tx, mut rx, mut core) = channel::<Custom, ()>();

    // one is allowed to buffer, second is rejected
    let _ = tx.try_send(&mut core, Custom(1)).expect("1 buffered");
    tx.try_send(&mut core, Custom(2)).expect_err("2 not ready");

    assert!(
        matches!(rx.poll_recv(&mut core), Poll::Ready(Some(_))),
        "rx once"
    );

    // Even though 1 has been popped, only 1 could be buffered for the
    // lifetime of the channel.
    tx.try_send(&mut core, Custom(2)).expect_err("2 still not ready");

    assert!(matches!(rx.poll_recv(&mut core), Poll::Pending), "rx empty");

    let _ = tx.try_send(&mut core, Custom(2)).expect("2 ready");
}

#[test]
fn unbounded_sender_doesnt_bound_on_want() {
    let (tx, rx, mut core) = channel::<Custom, ()>();
    let tx = tx.unbound();

    let _ = tx.try_send(&mut core, Custom(1)).unwrap();
    let _ = tx.try_send(&mut core, Custom(2)).unwrap();
    let _ = tx.try_send(&mut core, Custom(3)).unwrap();

    rx.drop_receiver(&mut core);

    let _ = tx.try_send(&mut core, Custom(4)).unwrap_err();
}

#[test]
fn refused_send_returns_value_unchanged() {
    let (mut tx, _rx, mut core) = channel::<String, ()>();
    let _ = tx.send(&mut core, String::from("A")).expect("first free pass");
    let back = tx.send(&mut core, String::from("B")).expect_err("refused");
    assert_eq!(back, "B");
}

#[test]
fn admission_scenario_demand_not_emptiness() {
    let (mut tx, mut rx, mut core) = channel::<String, ()>();

    // first free pass on a channel never polled
    let _a = tx.send(&mut core, String::from("A")).expect("A buffered");
    // second send before any poll is refused with the value back
    assert_eq!(tx.send(&mut core, String::from("B")).unwrap_err(), "B");

    // one poll retrieves A, but grants no new slot
    match rx.poll_recv(&mut core) {
        Poll::Ready(Some((v, _cb))) => assert_eq!(v, "A"),
        other => panic!("expected A, found {:?}", other),
    }
    assert_eq!(tx.send(&mut core, String::from("C")).unwrap_err(), "C");

    // polling the empty queue raises demand, and only then C is admitted
    assert!(matches!(rx.poll_recv(&mut core), Poll::Pending));
    let _c = tx.send(&mut core, String::from("C")).expect("C ready");
}

#[test]
fn driver_reply_resolves_promise() {
    let (mut tx, mut rx, mut core) = channel::<i32, i32>();
    let promise = tx.send(&mut core, 21).unwrap();
    let (val, cb) = match rx.poll_recv(&mut core) {
        Poll::Ready(Some(pair)) => pair,
        other => panic!("expected an envelope, found {:?}", other),
    };
    cb.send(&mut core, Ok(val * 2));
    let got = promise.try_recv(&mut core).expect("resolved").expect("success");
    assert_eq!(got, 42);
}

#[test]
fn exactly_once_delivery_over_many_sends() {
    let (mut tx, mut rx, mut core) = channel::<u32, u32>();
    for i in 0..10_000u32 {
        // the draining receiver polls empty, raising demand for the next send
        assert!(matches!(rx.poll_recv(&mut core), Poll::Pending));
        let promise = tx.send(&mut core, i).expect("admitted under demand");
        let (val, cb) = match rx.poll_recv(&mut core) {
            Poll::Ready(Some(pair)) => pair,
            other => panic!("expected an envelope, found {:?}", other),
        };
        assert_eq!(val, i);
        cb.send(&mut core, Ok(val.wrapping_mul(2)));
        let got = promise
            .try_recv(&mut core)
            .expect("resolved exactly once")
            .expect("success");
        assert_eq!(got, i.wrapping_mul(2));
    }
}

#[test]
fn abandoned_callback_reports_clean_shutdown() {
    let (mut tx, mut rx, mut core) = channel::<i32, i32>();
    let promise = tx.send(&mut core, 1).unwrap();
    let (_val, cb) = match rx.poll_recv(&mut core) {
        Poll::Ready(Some(pair)) => pair,
        other => panic!("expected an envelope, found {:?}", other),
    };
    cb.abandon(&mut core, false);
    let err = promise
        .try_recv(&mut core)
        .expect("resolved")
        .expect_err("abandoned");
    assert_eq!(err.kind(), Kind::UserDispatchGone);
    assert_eq!(err.message(), "runtime dropped the dispatch task");
}

#[test]
fn abandoned_callback_reports_panic_distinctly() {
    let (mut tx, mut rx, mut core) = channel::<i32, i32>();
    let promise = tx.send(&mut core, 1).unwrap();
    let (_val, cb) = match rx.poll_recv(&mut core) {
        Poll::Ready(Some(pair)) => pair,
        other => panic!("expected an envelope, found {:?}", other),
    };
    cb.abandon(&mut core, true);
    let err = promise
        .try_recv(&mut core)
        .expect("resolved")
        .expect_err("abandoned");
    assert_eq!(err.kind(), Kind::UserDispatchGone);
    assert_eq!(err.message(), "user code panicked");
    assert_ne!("user code panicked", "runtime dropped the dispatch task");
}

#[test]
fn multiplexed_sends_need_no_demand_until_receiver_drops() {
    let (tx, rx, mut core) = channel::<i32, i32>();
    let tx = tx.unbound();
    let tx2 = tx.clone();
    assert!(tx.is_ready(&core));
    assert!(!tx.is_closed(&core));
    let p1 = tx.send(&mut core, 1).expect("no backpressure");
    let p2 = tx2.send(&mut core, 2).expect("no backpressure");
    rx.drop_receiver(&mut core);
    assert!(tx.is_closed(&core));
    assert_eq!(tx.send(&mut core, 3).unwrap_err(), 3);
    // the two queued sends were canceled by the teardown
    let e1 = p1.try_recv(&mut core).expect("resolved").unwrap_err();
    let e2 = p2.try_recv(&mut core).expect("resolved").unwrap_err();
    assert_eq!(e1.kind(), Kind::Canceled);
    assert_eq!(e2.kind(), Kind::Canceled);
}

#[test]
fn bridge_delivers_completion() {
    let (tx, mut rx, mut core) = channel::<i32, i32>();
    let tx = tx.unbound();
    let promise = tx.send(&mut core, 5).unwrap();
    let (_val, cb) = match rx.poll_recv(&mut core) {
        Poll::Ready(Some(pair)) => pair,
        other => panic!("expected an envelope, found {:?}", other),
    };
    let mut bridge = SendWhen::new(cb);
    assert!(matches!(
        bridge.poll(&mut core, When::Pending),
        Poll::Pending
    ));
    assert!(matches!(
        bridge.poll(&mut core, When::Ready(Ok(55))),
        Poll::Ready(())
    ));
    let got = promise.try_recv(&mut core).expect("resolved").expect("success");
    assert_eq!(got, 55);
}

#[test]
fn bridge_terminates_quietly_on_abandonment() {
    let (tx, mut rx, mut core) = channel::<i32, i32>();
    let tx = tx.unbound();
    let promise = tx.send(&mut core, 5).unwrap();
    let (_val, cb) = match rx.poll_recv(&mut core) {
        Poll::Ready(Some(pair)) => pair,
        other => panic!("expected an envelope, found {:?}", other),
    };
    let mut bridge = SendWhen::new(cb);
    assert!(matches!(
        bridge.poll(&mut core, When::Pending),
        Poll::Pending
    ));
    // the caller walks away before the completion resolves
    promise.drop_reader(&mut core);
    assert!(matches!(
        bridge.poll(&mut core, When::Pending),
        Poll::Ready(())
    ));
}

#[test]
fn bridge_delivers_transport_error_without_retry() {
    let (tx, mut rx, mut core) = channel::<i32, i32>();
    let tx = tx.unbound();
    let promise = tx.try_send(&mut core, 5).unwrap();
    let (_val, cb) = match rx.poll_recv(&mut core) {
        Poll::Ready(Some(pair)) => pair,
        other => panic!("expected an envelope, found {:?}", other),
    };
    let mut bridge = SendWhen::new(cb);
    let transport = httpcore::dispatch::DispatchError::new_canceled();
    assert!(matches!(
        bridge.poll(&mut core, When::Ready(Err(transport))),
        Poll::Ready(())
    ));
    let err = promise
        .try_recv(&mut core)
        .expect("resolved")
        .expect_err("failure");
    // multiplexed work is not retryable: no request travels back
    assert_eq!(err.1, None);
}

#[test]
fn poll_ready_mirrors_the_gate() {
    let (tx, mut rx, mut core) = channel::<i32, i32>();
    assert!(!tx.is_ready(&core));
    assert!(matches!(tx.poll_ready(&core), Poll::Pending));
    assert!(matches!(rx.poll_recv(&mut core), Poll::Pending));
    assert!(tx.is_ready(&core));
    assert!(matches!(tx.poll_ready(&core), Poll::Ready(Ok(()))));
    rx.close(&mut core);
    assert!(tx.is_closed(&core));
    match tx.poll_ready(&core) {
        Poll::Ready(Err(e)) => assert_eq!(e.kind(), Kind::ChannelClosed),
        other => panic!("expected closed, found {:?}", other),
    }
}

#[test]
fn close_keeps_queued_envelopes_receivable() {
    let (mut tx, mut rx, mut core) = channel::<i32, i32>();
    let _p = tx.try_send(&mut core, 11).unwrap();
    rx.close(&mut core);
    assert_eq!(tx.try_send(&mut core, 12).unwrap_err(), 12);
    match rx.try_recv(&mut core) {
        Some((v, _cb)) => assert_eq!(v, 11),
        None => panic!("queued envelope lost by close"),
    }
    assert!(rx.try_recv(&mut core).is_none());
    assert!(matches!(rx.poll_recv(&mut core), Poll::Ready(None)));
}

#[test]
fn error_constructors_carry_reasons() {
    let e = DispatchError::new_canceled().with(Reason::ConnectionClosed);
    assert_eq!(e.kind(), Kind::Canceled);
    assert_eq!(e.message(), "connection closed");
    assert_eq!(DispatchError::new_closed().message(), "channel closed");
    assert_eq!(
        DispatchError::new_user_dispatch_gone().message(),
        "dispatch task is gone"
    );
    assert_eq!(DispatchError::new_canceled().message(), "operation was canceled");
}

#[test]
fn handles_are_send() {
    httpcore::_assert_send::<httpcore::dispatch::Sender>();
    httpcore::_assert_send::<httpcore::dispatch::Receiver>();
    httpcore::_assert_send::<httpcore::dispatch::UnboundedSender>();
}
