use rpc_core::codec::LedState;
use rpc_core::device::{
    button_pressed, debounce_press, serial_hex, usb_config, DEBOUNCE_CYCLES,
};
use rpc_core::loopback::{LineBuffer, LINE_CAPACITY, TERMINATOR};
use rpc_core::settings::Settings;

#[test]
fn serial_hex_spells_the_chip_id() {
    assert_eq!(serial_hex(0x0123456789abcdef), b"0123456789ABCDEF".to_vec());
    assert_eq!(serial_hex(0), b"0000000000000000".to_vec());
    assert_eq!(serial_hex(u64::MAX), b"FFFFFFFFFFFFFFFF".to_vec());
}

#[test]
fn usb_config_carries_the_fixed_identity() {
    let c = usb_config("0123456789ABCDEF".to_owned());
    assert_eq!((c.vid, c.pid), (0x16c0, 0x27dd));
    assert_eq!(c.manufacturer, "OneVariable");
    assert_eq!(c.product, "poststation-pico");
    assert_eq!(c.serial_number, "0123456789ABCDEF");
    assert_eq!((c.device_class, c.device_sub_class, c.device_protocol), (0xef, 0x02, 0x01));
    assert!(c.composite_with_iads);
}

#[test]
fn button_drives_the_indicator() {
    let mut led = LedState::Off;
    assert!(button_pressed(&mut led, false));
    assert_eq!(led, LedState::On);
    assert!(!button_pressed(&mut led, true));
    assert_eq!(led, LedState::Off);
}

#[test]
fn debounce_counts_separated_presses_once() {
    let mut deadline = 0u32;
    let mut counter = 0u32;
    // First press arms the debouncer and counts.
    assert!(debounce_press(&mut deadline, 1_000, &mut counter));
    assert_eq!(deadline, 1_000 + DEBOUNCE_CYCLES);
    assert_eq!(counter, 1);
    // A bounce within the window is swallowed.
    assert!(!debounce_press(&mut deadline, 2_000, &mut counter));
    assert_eq!(counter, 1);
    // A press after the window disarms and counts.
    assert!(debounce_press(&mut deadline, 200_000, &mut counter));
    assert_eq!(deadline, 0);
    assert_eq!(counter, 2);
}

#[test]
fn loopback_echoes_whole_lines() {
    let mut lb = LineBuffer::new();
    let echoed = lb.feed(b"ab\ncd");
    assert_eq!(echoed, b"ab\n".to_vec());
    assert_eq!(lb.buf, b"cd".to_vec());
    let echoed = lb.feed(b"\n");
    assert_eq!(echoed, b"cd\n".to_vec());
    assert_eq!(lb.buf.len(), 0);
}

#[test]
fn loopback_drops_overflowing_bytes() {
    let mut lb = LineBuffer::new();
    let long = vec![b'x'; LINE_CAPACITY + 40];
    assert_eq!(lb.feed(&long), Vec::<u8>::new());
    assert_eq!(lb.buf.len(), LINE_CAPACITY);
    let echoed = lb.feed(&[TERMINATOR]);
    assert_eq!(echoed.len(), LINE_CAPACITY + 1);
    assert_eq!(lb.buf.len(), 0);
}

#[test]
fn settings_hold_their_value() {
    let mut s = Settings::new(42);
    assert_eq!(s.get_value(), 42);
    s.set_value(-7);
    assert_eq!(s.get_value(), -7);
    let copy = s.clone();
    assert_eq!(copy, s);
}
