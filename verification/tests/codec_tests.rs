use rpc_core::codec::{
    decode, encode_commands, encode_ctrl_status, encode_led_state, encode_position,
    encode_sleep_millis, encode_slept_millis, encode_wire_error, take_commands, take_ctrl_status,
    take_led_state, take_position, take_sleep_millis, take_wire_error, Commands, CtrlStatus,
    LedState, Position, SleepMillis, SleptMillis, WireError,
};
use rpc_core::varint::DecodeError;

#[test]
fn set_position_wire_bytes() {
    let cmd = Commands::SetPosition(Position { x: 123, y: 456 });
    let bytes = encode_commands(&cmd);
    assert_eq!(bytes, vec![0x00, 123, 0xc8, 0x03]);
}

#[test]
fn set_time_wire_bytes() {
    let cmd = Commands::SetTime(1234567890);
    let bytes = encode_commands(&cmd);
    assert_eq!(bytes, vec![0x02, 0xd2, 0x85, 0xd8, 0xcc, 0x04]);
}

#[test]
fn unit_variants_wire_bytes() {
    assert_eq!(encode_commands(&Commands::QueryPosition), vec![0x01]);
    assert_eq!(encode_commands(&Commands::Unknown), vec![0x03]);
}

#[test]
fn commands_round_trip() {
    let values = [
        Commands::SetPosition(Position { x: 123, y: 456 }),
        Commands::QueryPosition,
        Commands::SetTime(1234567890),
        Commands::SetTime(u64::MAX),
        Commands::SetTime(0),
        Commands::Unknown,
    ];
    for v in values.iter() {
        let bytes = encode_commands(v);
        assert_eq!(decode(&bytes), *v);
        let (back, used) = take_commands(&bytes, 0).unwrap();
        assert_eq!(back, *v);
        assert_eq!(used, bytes.len());
    }
}

#[test]
fn decode_tolerates_trailing_bytes() {
    let mut bytes = encode_commands(&Commands::SetPosition(Position { x: 1, y: 2 }));
    bytes.push(0xff);
    assert_eq!(decode(&bytes), Commands::SetPosition(Position { x: 1, y: 2 }));
}

#[test]
fn bad_discriminant_yields_unknown_not_a_crash() {
    // A five-byte tag of 8 against a four-variant command set.
    let bytes = [0x08, 0x00, 0x00, 0x00, 0x00];
    assert_eq!(decode(&bytes), Commands::Unknown);
    assert_eq!(take_commands(&bytes, 0), Err(DecodeError::BadDiscriminant));
}

#[test]
fn truncated_input_yields_unknown() {
    // SetPosition with its payload cut off.
    assert_eq!(decode(&[0x00, 123]), Commands::Unknown);
    assert_eq!(decode(&[]), Commands::Unknown);
    assert_eq!(take_commands(&[], 0), Err(DecodeError::UnexpectedEnd));
    assert_eq!(take_commands(&[0x80], 0), Err(DecodeError::UnexpectedEnd));
}

#[test]
fn overlong_varint_is_a_bad_varint() {
    // Five continuation bytes overrun a 32-bit tag.
    let bytes = [0x80, 0x80, 0x80, 0x80, 0x80];
    assert_eq!(take_commands(&bytes, 0), Err(DecodeError::BadVarint));
    // A value just past u32::MAX in the position's x coordinate.
    let bytes = [0x00, 0x80, 0x80, 0x80, 0x80, 0x10, 0x00];
    assert_eq!(take_position(&bytes, 1), Err(DecodeError::BadVarint));
}

#[test]
fn random_bytes_never_panic() {
    // A crude generator walks many arbitrary inputs through decode.
    let mut state: u64 = 0x12345678;
    for len in 0..64 {
        let mut bytes = Vec::new();
        for _ in 0..len {
            state = state.wrapping_mul(6364136223846793005).wrapping_add(1442695040888963407);
            bytes.push((state >> 33) as u8);
        }
        let _ = decode(&bytes);
        let _ = take_commands(&bytes, 0);
    }
}

#[test]
fn sleep_types_round_trip() {
    let req = SleepMillis { millis: 4500 };
    let bytes = encode_sleep_millis(&req);
    assert_eq!(bytes, vec![0x94, 0x23]);
    assert_eq!(take_sleep_millis(&bytes, 0), Ok((req, 2)));

    let rep = SleptMillis { millis: 4500 };
    let bytes = encode_slept_millis(&rep);
    assert_eq!(bytes, vec![0x94, 0x23]);
}

#[test]
fn led_state_round_trip() {
    assert_eq!(encode_led_state(&LedState::Off), vec![0x00]);
    assert_eq!(encode_led_state(&LedState::On), vec![0x01]);
    assert_eq!(take_led_state(&[0x00], 0), Ok((LedState::Off, 1)));
    assert_eq!(take_led_state(&[0x01], 0), Ok((LedState::On, 1)));
    assert_eq!(take_led_state(&[0x02], 0), Err(DecodeError::BadDiscriminant));
}

#[test]
fn ctrl_status_round_trip() {
    let s = CtrlStatus { var1: 0, var2: 1, var3: 300, var4: u64::MAX };
    let bytes = encode_ctrl_status(&s);
    let (back, used) = take_ctrl_status(&bytes, 0).unwrap();
    assert_eq!(back, s);
    assert_eq!(used, bytes.len());

    let zero = CtrlStatus::default();
    assert_eq!(encode_ctrl_status(&zero), vec![0x00, 0x00, 0x00, 0x00]);
}

#[test]
fn wire_error_round_trip() {
    for (e, tag) in [
        (WireError::Busy, 0x00u8),
        (WireError::Malformed, 0x01),
        (WireError::Unroutable, 0x02),
    ] {
        let bytes = encode_wire_error(&e);
        assert_eq!(bytes, vec![tag]);
        assert_eq!(take_wire_error(&bytes, 0), Ok((e, 1)));
    }
    assert_eq!(take_wire_error(&[0x03], 0), Err(DecodeError::BadDiscriminant));
}
