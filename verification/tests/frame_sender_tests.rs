use rpc_core::frame::{encode_frame, take_frame, Frame};
use rpc_core::sender::{
    broadcast_step, log_over_usb, logging_step, uptime_message, Sender,
};
use rpc_core::codec::CtrlStatus;
use rpc_core::varint::DecodeError;

#[test]
fn frame_round_trip_narrow_key() {
    let f = Frame { key: 0xab, seq: 7, payload: vec![1, 2, 3] };
    let bytes = encode_frame(&f, 1);
    assert_eq!(bytes, vec![0xab, 0x07, 1, 2, 3]);
    let back = take_frame(&bytes, 1).unwrap();
    assert_eq!(back, f);
}

#[test]
fn frame_round_trip_wide_key() {
    let f = Frame { key: 0x1122334455667788, seq: 300, payload: vec![] };
    let bytes = encode_frame(&f, 8);
    let back = take_frame(&bytes, 8).unwrap();
    assert_eq!(back, f);
}

#[test]
fn short_frames_are_typed_errors() {
    assert_eq!(take_frame(&[], 1), Err(DecodeError::UnexpectedEnd));
    assert_eq!(take_frame(&[0xab], 1), Err(DecodeError::UnexpectedEnd));
    assert_eq!(take_frame(&[1, 2, 3], 4), Err(DecodeError::UnexpectedEnd));
}

#[test]
fn sender_keeps_frame_order_and_bound() {
    let mut s = Sender::new(1, 0x42, 2);
    assert!(s.reply(0x10, 1, vec![9]));
    assert!(s.publish(0x20, 2, vec![]));
    // The queue is full: the third frame is refused, not queued.
    assert!(!s.reply(0x30, 3, vec![]));
    let out = s.drain();
    assert_eq!(out.len(), 2);
    assert_eq!(out[0], vec![0x10, 0x01, 9]);
    assert_eq!(out[1], vec![0x20, 0x02]);
    assert_eq!(s.queue.len(), 0);
}

#[test]
fn log_is_best_effort_and_sequenced() {
    let mut s = Sender::new(1, 0x42, 1);
    assert!(s.log(b"hi".to_vec()));
    assert_eq!(s.log_seq, 1);
    // Full queue: the log frame is dropped and the sequence holds.
    assert!(!s.log(b"lost".to_vec()));
    assert_eq!(s.log_seq, 1);
    let out = log_over_usb(&mut s);
    assert_eq!(out, vec![vec![0x42, 0x00, b'h', b'i']]);
}

#[test]
fn broadcast_seq_wraps_around() {
    let mut s = Sender::new(1, 0x42, 8);
    let msg = CtrlStatus::default();
    let (sent, next) = broadcast_step(&mut s, 0x33, 254, &msg);
    assert!(sent);
    assert_eq!(next, 255);
    let (sent, next) = broadcast_step(&mut s, 0x33, next, &msg);
    assert!(sent);
    assert_eq!(next, 0);
    let out = s.drain();
    // 254 and 255 need two varint bytes each in the header.
    assert_eq!(out[0], vec![0x33, 0xfe, 0x01, 0, 0, 0, 0]);
    assert_eq!(out[1], vec![0x33, 0xff, 0x01, 0, 0, 0, 0]);
}

#[test]
fn uptime_line_reads_as_expected() {
    assert_eq!(uptime_message(0), b"Uptime: 0s".to_vec());
    assert_eq!(uptime_message(42), b"Uptime: 42s".to_vec());
    assert_eq!(uptime_message(1230), b"Uptime: 1230s".to_vec());
    let mut s = Sender::new(1, 0x42, 4);
    assert!(logging_step(&mut s, 42));
    let out = s.drain();
    assert_eq!(out[0][2..], b"Uptime: 42s"[..]);
}
