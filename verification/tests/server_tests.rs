use rpc_core::codec::{
    encode_led_state, encode_position, encode_sleep_millis, encode_wire_error, take_slept_millis,
    take_u64, LedState, Position, SleepMillis, WireError,
};
use rpc_core::frame::{encode_frame, Frame};
use rpc_core::server::{Action, Event, ServerCore, UnknownKeyPolicy, SLEEP_POOL_SIZE};

fn request(core: &ServerCore, key: u64, seq: u32, payload: Vec<u8>) -> Event {
    let f = Frame { key, seq, payload };
    Event::FrameReceived(encode_frame(&f, core.key_len))
}

fn only_sent(actions: &[Action]) -> &Frame {
    assert_eq!(actions.len(), 1);
    match &actions[0] {
        Action::Send(f) => f,
        other => panic!("expected a sent frame, got {:?}", other),
    }
}

#[test]
fn startup_succeeds_with_distinct_keys() {
    let core = ServerCore::new(0xdeadbeef, UnknownKeyPolicy::Drop).unwrap();
    let len = core.key_len;
    assert!(len == 1 || len == 2 || len == 4 || len == 8);
    let keys = [
        core.unique_id_key,
        core.reboot_key,
        core.sleep_key,
        core.set_led_key,
        core.get_led_key,
        core.set_position_key,
        core.error_key,
        core.log_key,
        core.broadcast_key,
    ];
    for i in 0..keys.len() {
        for j in 0..keys.len() {
            if i != j {
                assert_ne!(keys[i], keys[j]);
            }
        }
    }
    assert_eq!(core.registry.entries.len(), 9);
}

#[test]
fn unique_id_request_is_answered() {
    let mut core = ServerCore::new(0x1122334455667788, UnknownKeyPolicy::Drop).unwrap();
    let actions = core.step(request(&core, core.unique_id_key, 17, vec![]));
    let reply = only_sent(&actions);
    assert_eq!(reply.key, core.unique_id_key);
    assert_eq!(reply.seq, 17);
    let (id, _) = take_u64(&reply.payload, 0).unwrap();
    assert_eq!(id, 0x1122334455667788);
}

#[test]
fn set_position_scenario() {
    // Send SetPosition{123, 456}: the reply is empty, carries the
    // request's sequence number, and nothing else changes.
    let mut core = ServerCore::new(1, UnknownKeyPolicy::Drop).unwrap();
    let led_before = core.context.led;
    let payload = encode_position(&Position { x: 123, y: 456 });
    let actions = core.step(request(&core, core.set_position_key, 99, payload));
    let reply = only_sent(&actions);
    assert_eq!(reply.seq, 99);
    assert_eq!(reply.key, core.set_position_key);
    assert_eq!(reply.payload, Vec::<u8>::new());
    assert_eq!(core.context.position, Position { x: 123, y: 456 });
    assert_eq!(core.context.led, led_before);
    assert_eq!(core.context.unique_id, 1);
    assert_eq!(core.sleep_pool.in_flight, 0);
}

#[test]
fn led_round_trip_through_the_server() {
    let mut core = ServerCore::new(1, UnknownKeyPolicy::Drop).unwrap();
    let actions = core.step(request(&core, core.set_led_key, 5, encode_led_state(&LedState::On)));
    let reply = only_sent(&actions);
    assert_eq!((reply.seq, reply.payload.len()), (5, 0));
    assert_eq!(core.context.led, LedState::On);

    let actions = core.step(request(&core, core.get_led_key, 6, vec![]));
    let reply = only_sent(&actions);
    assert_eq!(reply.seq, 6);
    assert_eq!(reply.payload, encode_led_state(&LedState::On));
}

#[test]
fn reboot_request_becomes_a_reboot_action() {
    let mut core = ServerCore::new(1, UnknownKeyPolicy::Drop).unwrap();
    let actions = core.step(request(&core, core.reboot_key, 1, vec![]));
    assert_eq!(actions.len(), 1);
    assert!(matches!(actions[0], Action::Reboot));
}

#[test]
fn admission_bound_scenario() {
    // Pool of three: the fourth concurrent sleep is refused with a
    // typed busy reply; one completion frees a slot again.
    let mut core = ServerCore::new(1, UnknownKeyPolicy::Drop).unwrap();
    assert_eq!(SLEEP_POOL_SIZE, 3);
    let payload = encode_sleep_millis(&SleepMillis { millis: 100 });
    for seq in 1..=3u32 {
        let actions = core.step(request(&core, core.sleep_key, seq, payload.clone()));
        assert_eq!(actions.len(), 1);
        match &actions[0] {
            Action::StartSleep { seq: s, millis } => {
                assert_eq!((*s, *millis), (seq, 100));
            },
            other => panic!("expected an admitted sleep, got {:?}", other),
        }
    }
    assert_eq!(core.sleep_pool.in_flight, 3);

    let actions = core.step(request(&core, core.sleep_key, 4, payload.clone()));
    let busy = only_sent(&actions);
    assert_eq!(busy.key, core.error_key);
    assert_eq!(busy.seq, 4);
    assert_eq!(busy.payload, encode_wire_error(&WireError::Busy));

    // One instance completes: its reply correlates to request 2, and
    // the next admission succeeds.
    let actions = core.step(Event::SleepDone { seq: 2, millis: 105 });
    let reply = only_sent(&actions);
    assert_eq!(reply.key, core.sleep_key);
    assert_eq!(reply.seq, 2);
    let (slept, _) = take_slept_millis(&reply.payload, 0).unwrap();
    assert_eq!(slept.millis, 105);
    assert_eq!(core.sleep_pool.in_flight, 2);

    let actions = core.step(request(&core, core.sleep_key, 5, payload));
    assert!(matches!(actions[0], Action::StartSleep { seq: 5, millis: 100 }));
}

#[test]
fn malformed_frames_leave_the_server_live() {
    // Garbage interleaved with real requests: every well-formed
    // request still gets its correlated reply.
    let mut core = ServerCore::new(7, UnknownKeyPolicy::Drop).unwrap();
    let junk: [&[u8]; 4] = [&[], &[0xff], &[0x80, 0x80, 0x80, 0x80, 0x80, 0x80], &[0x00]];
    for (i, g) in junk.iter().enumerate() {
        let actions = core.step(Event::FrameReceived(g.to_vec()));
        assert!(actions.is_empty());

        let actions = core.step(request(&core, core.unique_id_key, 40 + i as u32, vec![]));
        let reply = only_sent(&actions);
        assert_eq!(reply.seq, 40 + i as u32);
        let (id, _) = take_u64(&reply.payload, 0).unwrap();
        assert_eq!(id, 7);
    }
}

#[test]
fn malformed_payload_gets_a_typed_error() {
    let mut core = ServerCore::new(1, UnknownKeyPolicy::Drop).unwrap();
    // A sleep request whose payload overruns a 16-bit varint.
    let actions = core.step(request(&core, core.sleep_key, 9, vec![0x80, 0x80, 0x80]));
    let reply = only_sent(&actions);
    assert_eq!(reply.key, core.error_key);
    assert_eq!(reply.seq, 9);
    assert_eq!(reply.payload, encode_wire_error(&WireError::Malformed));
    assert_eq!(core.sleep_pool.in_flight, 0);
}

#[test]
fn unknown_key_follows_the_policy() {
    let mut dropper = ServerCore::new(1, UnknownKeyPolicy::Drop).unwrap();
    let stray = dropper.log_key;
    let actions = dropper.step(request(&dropper, stray, 11, vec![]));
    assert!(actions.is_empty());

    let mut rejecter = ServerCore::new(1, UnknownKeyPolicy::Reject).unwrap();
    let stray = rejecter.log_key;
    let actions = rejecter.step(request(&rejecter, stray, 12, vec![]));
    let reply = only_sent(&actions);
    assert_eq!(reply.key, rejecter.error_key);
    assert_eq!(reply.seq, 12);
    assert_eq!(reply.payload, encode_wire_error(&WireError::Unroutable));
}

#[test]
fn stray_completion_is_ignored() {
    let mut core = ServerCore::new(1, UnknownKeyPolicy::Drop).unwrap();
    let actions = core.step(Event::SleepDone { seq: 1, millis: 1 });
    assert!(actions.is_empty());
    assert_eq!(core.sleep_pool.in_flight, 0);
}

#[test]
fn disconnect_and_reconnect_keep_serving() {
    let mut core = ServerCore::new(1, UnknownKeyPolicy::Drop).unwrap();
    assert!(core.connected);
    assert!(core.step(Event::Disconnected).is_empty());
    assert!(!core.connected);
    assert!(core.step(Event::Reconnected).is_empty());
    assert!(core.connected);
    let actions = core.step(request(&core, core.unique_id_key, 1, vec![]));
    assert_eq!(only_sent(&actions).seq, 1);
}
