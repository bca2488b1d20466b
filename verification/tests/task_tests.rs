use rpc_core::codec::LedState;
use rpc_core::counter::{background_tick, begin_background_task, Counter};
use rpc_core::device::{blink_tick, counter_log_line, display_counter_tick};

#[test]
fn background_task_runs_once_at_a_time() {
    let mut running = false;
    assert!(begin_background_task(&mut running));
    assert!(running);
    // A second start while one runs is refused.
    assert!(!begin_background_task(&mut running));
    assert!(running);
}

#[test]
fn background_task_counts_until_stopped() {
    let mut running = false;
    let mut counter = Counter::default();
    assert!(begin_background_task(&mut running));
    assert!(background_tick(true, &mut running, &mut counter));
    assert!(background_tick(true, &mut running, &mut counter));
    assert_eq!(counter.count, 2);
    assert!(running);
    // The window stopped it: the guard clears, the count stands.
    assert!(!background_tick(false, &mut running, &mut counter));
    assert!(!running);
    assert_eq!(counter.count, 2);
    // A new task may start now.
    assert!(begin_background_task(&mut running));
}

#[test]
fn blink_toggles_pin_and_state() {
    let mut led = LedState::Off;
    let mut state = false;
    blink_tick(&mut led, &mut state);
    assert_eq!((led, state), (LedState::On, true));
    blink_tick(&mut led, &mut state);
    assert_eq!((led, state), (LedState::Off, false));
}

#[test]
fn display_shows_the_advanced_count() {
    let mut count = 41u32;
    let text = display_counter_tick(&mut count);
    assert_eq!(count, 42);
    assert_eq!(text, b"Count: 42\nLine 2\nLine 3\nLine 4\n".to_vec());
}

#[test]
fn display_count_wraps_around() {
    let mut count = u32::MAX;
    let text = display_counter_tick(&mut count);
    assert_eq!(count, 0);
    assert_eq!(&text[..9], b"Count: 0\n");
}

#[test]
fn counter_log_line_spells_count_and_time() {
    let text = counter_log_line(3, 1600000000, 250);
    assert_eq!(text, b"Counter: 3, Time: (1600000000, 250)".to_vec());
}
