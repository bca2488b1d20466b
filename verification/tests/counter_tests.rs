use rpc_core::counter::{Counter, Message};

#[test]
fn test_counter() {
    let mut counter = Counter::default();
    counter.update(Message::Increment);
    assert_eq!(counter.count, 1);
    counter.update(Message::Increment);
    assert_eq!(counter.count, 2);
    counter.update(Message::Decrement);
    assert_eq!(counter.count, 1);
}

#[test]
fn key_presses_move_the_counter() {
    let mut counter = Counter::default();
    counter.update(Message::KeyPressed('k'));
    assert_eq!(counter.count, 1);
    counter.update(Message::KeyPressed('k'));
    assert_eq!(counter.count, 2);
    counter.update(Message::KeyPressed('j'));
    assert_eq!(counter.count, 1);
    counter.update(Message::KeyPressed('x'));
    assert_eq!(counter.count, 1);
}

#[test]
fn counter_goes_negative() {
    let mut counter = Counter::default();
    counter.update(Message::Decrement);
    assert_eq!(counter.count, -1);
}
