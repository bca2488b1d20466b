//! Small board-side pieces: the USB identity record, the hex
//! spelling of the chip id used as the USB serial number, and the
//! button-interrupt decisions.

use vstd::prelude::*;
use crate::codec::LedState;
use crate::sender::{push_decimal, spec_decimal};

verus! {

/// The identity a host sees when the device enumerates. The class
/// triple marks a composite device with interface association, which
/// is what a serial-over-USB link needs for broad host support.
#[derive(Debug)]
pub struct UsbConfig {
    pub vid: u16,
    pub pid: u16,
    pub manufacturer: String,
    pub product: String,
    pub serial_number: String,
    pub device_class: u8,
    pub device_sub_class: u8,
    pub device_protocol: u8,
    pub composite_with_iads: bool,
}

/// The fixed USB identity of this device, with `serial` as its
/// serial-number string.
pub fn usb_config(serial: String) -> (c: UsbConfig)
    ensures
        c.vid == 0x16c0,
        c.pid == 0x27dd,
        c.manufacturer@ == "OneVariable"@,
        c.product@ == "poststation-pico"@,
        c.serial_number@ == serial@,
        c.device_class == 0xef,
        c.device_sub_class == 0x02,
        c.device_protocol == 0x01,
        c.composite_with_iads,
{
    UsbConfig {
        vid: 0x16c0,
        pid: 0x27dd,
        manufacturer: "OneVariable".to_owned(),
        product: "poststation-pico".to_owned(),
        serial_number: serial,
        device_class: 0xef,
        device_sub_class: 0x02,
        device_protocol: 0x01,
        composite_with_iads: true,
    }
}

/// The ASCII spelling of the hex digit `v`, upper case.
pub open spec fn spec_hex_digit(v: u8) -> u8 {
    if v < 10 {
        (0x30 + v) as u8
    } else {
        (0x41 + (v - 10)) as u8
    }
}

/// The nibble of `id` at position `i`, counted from the most
/// significant.
pub open spec fn spec_nibble(id: u64, i: int) -> u8 {
    ((id >> ((60 - 4 * i) as u64)) & 0xf) as u8
}

/// The sixteen-character upper-case hex spelling of `id`, most
/// significant nibble first.
pub open spec fn spec_serial_hex(id: u64) -> Seq<u8> {
    Seq::new(16, |i: int| spec_hex_digit(spec_nibble(id, i)))
}

/// Spells the chip id as the sixteen-character serial string the
/// USB identity carries.
pub fn serial_hex(id: u64) -> (r: Vec<u8>)
    ensures
        r@ == spec_serial_hex(id),
{
    let mut out: Vec<u8> = Vec::new();
    let mut i: usize = 0;
    while i < 16
        invariant
            i <= 16,
            out@.len() == i,
            forall|j: int| 0 <= j < i ==> out@[j] == spec_serial_hex(id)[j],
        decreases 16 - i,
    {
        let shift: u64 = 60 - 4 * (i as u64);
        let nib = ((id >> shift) & 0xf) as u8;
        assert(nib < 16) by (bit_vector)
            requires
                nib == ((id >> shift) & 0xf) as u8,
        ;
        let digit: u8 = if nib < 10 {
            0x30 + nib
        } else {
            0x41 + (nib - 10)
        };
        out.push(digit);
        i = i + 1;
    }
    proof {
        assert(out@ =~= spec_serial_hex(id));
    }
    out
}

/// The button interrupt of the plain button board: a pressed button
/// (its pulled-up input reads low) lights the indicator, a released
/// one clears it. Returns whether the button was pressed.
pub fn button_pressed(led: &mut LedState, button_is_set: bool) -> (pressed: bool)
    ensures
        pressed == !button_is_set,
        *final(led) == if button_is_set {
            LedState::Off
        } else {
            LedState::On
        },
{
    if !button_is_set {
        *led = LedState::On;
        true
    } else {
        *led = LedState::Off;
        false
    }
}

/// How many timer cycles a press keeps the debouncer armed.
pub const DEBOUNCE_CYCLES: u32 = 100_000;

/// The debouncer still swallows a press at `current_time`.
pub open spec fn spec_debounce_active(deadline: u32, current_time: u32) -> bool {
    deadline != 0 && current_time <= deadline
}

/// The button interrupt of the counting board. A first press arms
/// the debouncer until `current_time + DEBOUNCE_CYCLES`; a press
/// after the deadline disarms it; a press while armed is swallowed.
/// Every press that is not swallowed advances the counter by one.
/// Returns whether the press counted.
pub fn debounce_press(deadline: &mut u32, current_time: u32, counter: &mut u32) -> (counted: bool)
    requires
        current_time + DEBOUNCE_CYCLES <= u32::MAX,
        !spec_debounce_active(*old(deadline), current_time) ==> *old(counter) < u32::MAX,
    ensures
        counted == !spec_debounce_active(*old(deadline), current_time),
        *final(deadline) == if *old(deadline) == 0 {
            current_time + DEBOUNCE_CYCLES
        } else if current_time > *old(deadline) {
            0
        } else {
            *old(deadline) as int
        },
        *final(counter) == if counted {
            *old(counter) + 1
        } else {
            *old(counter) as int
        },
{
    let mut debounce_active = false;
    if *deadline == 0 {
        *deadline = current_time + DEBOUNCE_CYCLES;
    } else if current_time > *deadline {
        *deadline = 0;
    } else {
        debounce_active = true;
    }
    if !debounce_active {
        *counter = *counter + 1;
        true
    } else {
        false
    }
}

/// One tick of a blinker: the pin toggles, and so does the state
/// the log line reports.
pub fn blink_tick(led: &mut LedState, state: &mut bool)
    ensures
        *final(led) == if *old(led) == LedState::Off {
            LedState::On
        } else {
            LedState::Off
        },
        *final(state) == !*old(state),
{
    *led = match led {
        LedState::Off => LedState::On,
        LedState::On => LedState::Off,
    };
    *state = !*state;
}

/// The text the terminal display shows: the count line followed by
/// three fixed lines.
pub open spec fn spec_display_text(count: u32) -> Seq<u8> {
    seq![0x43u8, 0x6fu8, 0x75u8, 0x6eu8, 0x74u8, 0x3au8, 0x20u8] + spec_decimal(count as nat)
        + seq![0x0au8]
        + seq![0x4cu8, 0x69u8, 0x6eu8, 0x65u8, 0x20u8, 0x32u8, 0x0au8]
        + seq![0x4cu8, 0x69u8, 0x6eu8, 0x65u8, 0x20u8, 0x33u8, 0x0au8]
        + seq![0x4cu8, 0x69u8, 0x6eu8, 0x65u8, 0x20u8, 0x34u8, 0x0au8]
}

/// One tick of the display task: the count advances, wrapping
/// around, and the returned text is what the display shows next.
pub fn display_counter_tick(count: &mut u32) -> (text: Vec<u8>)
    ensures
        *final(count) == old(count).wrapping_add(1),
        text@ == spec_display_text(*final(count)),
{
    *count = count.wrapping_add(1);
    let mut out: Vec<u8> = Vec::new();
    out.push(0x43);
    out.push(0x6f);
    out.push(0x75);
    out.push(0x6e);
    out.push(0x74);
    out.push(0x3a);
    out.push(0x20);
    push_decimal(&mut out, *count as u64);
    out.push(0x0a);
    push_line(&mut out, 0x32);
    push_line(&mut out, 0x33);
    push_line(&mut out, 0x34);
    proof {
        assert(out@ =~= spec_display_text(*count));
    }
    out
}

/// Appends one `Line <digit>` row to the display text.
fn push_line(out: &mut Vec<u8>, digit: u8)
    ensures
        final(out)@ == old(out)@ + seq![0x4cu8, 0x69u8, 0x6eu8, 0x65u8, 0x20u8, digit, 0x0au8],
{
    out.push(0x4c);
    out.push(0x69);
    out.push(0x6e);
    out.push(0x65);
    out.push(0x20);
    out.push(digit);
    out.push(0x0a);
    proof {
        assert(out@ =~= old(out)@ + seq![0x4cu8, 0x69u8, 0x6eu8, 0x65u8, 0x20u8, digit, 0x0au8]);
    }
}

/// The periodic counter log line: the count and the wall-clock
/// seconds and microseconds read from the real-time clock.
pub open spec fn spec_counter_log_line(count: u32, secs: u32, micros: u32) -> Seq<u8> {
    seq![0x43u8, 0x6fu8, 0x75u8, 0x6eu8, 0x74u8, 0x65u8, 0x72u8, 0x3au8, 0x20u8]
        + spec_decimal(count as nat)
        + seq![0x2cu8, 0x20u8, 0x54u8, 0x69u8, 0x6du8, 0x65u8, 0x3au8, 0x20u8, 0x28u8]
        + spec_decimal(secs as nat) + seq![0x2cu8, 0x20u8] + spec_decimal(micros as nat)
        + seq![0x29u8]
}

/// Spells the periodic counter log line.
pub fn counter_log_line(count: u32, secs: u32, micros: u32) -> (text: Vec<u8>)
    ensures
        text@ == spec_counter_log_line(count, secs, micros),
{
    let mut out: Vec<u8> = Vec::new();
    out.push(0x43);
    out.push(0x6f);
    out.push(0x75);
    out.push(0x6e);
    out.push(0x74);
    out.push(0x65);
    out.push(0x72);
    out.push(0x3a);
    out.push(0x20);
    push_decimal(&mut out, count as u64);
    out.push(0x2c);
    out.push(0x20);
    out.push(0x54);
    out.push(0x69);
    out.push(0x6d);
    out.push(0x65);
    out.push(0x3a);
    out.push(0x20);
    out.push(0x28);
    push_decimal(&mut out, secs as u64);
    out.push(0x2c);
    out.push(0x20);
    push_decimal(&mut out, micros as u64);
    out.push(0x29);
    proof {
        assert(out@ =~= spec_counter_log_line(count, secs, micros));
    }
    out
}

} // verus!
