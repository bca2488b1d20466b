//! A signed counter driven by window messages.
//!
//! The counter moves up or down one step per message; pressing the
//! `k` or `j` key acts like the increment or decrement button.

use vstd::prelude::*;

verus! {

/// A message delivered to the counter.
#[derive(Clone, Debug, PartialEq, Eq, Structural)]
pub enum Message {
    /// A key was pressed; the payload is the character of the key.
    KeyPressed(char),
    Increment,
    Decrement,
}

/// The counter state.
#[derive(Debug, PartialEq, Eq, Structural)]
pub struct Counter {
    pub count: i64,
}

/// The count that `message` leads to from `count`, when it stays in
/// range.
pub open spec fn spec_updated_count(count: i64, message: Message) -> int {
    match message {
        Message::KeyPressed(c) => {
            if c == 'k' {
                count + 1
            } else if c == 'j' {
                count - 1
            } else {
                count as int
            }
        },
        Message::Increment => count + 1,
        Message::Decrement => count - 1,
    }
}

impl Counter {
    /// A counter starting at zero.
    pub fn default() -> (c: Counter)
        ensures
            c.count == 0,
    {
        Counter { count: 0 }
    }

    /// Applies one message to the counter.
    pub fn update(&mut self, message: Message)
        requires
            i64::MIN <= spec_updated_count(old(self).count, message) <= i64::MAX,
        ensures
            final(self).count == spec_updated_count(old(self).count, message),
    {
        match message {
            Message::KeyPressed(character_pressed) => {
                if character_pressed == 'k' {
                    self.count = self.count + 1;
                } else if character_pressed == 'j' {
                    self.count = self.count - 1;
                }
            },
            Message::Increment => {
                self.count = self.count + 1;
            },
            Message::Decrement => {
                self.count = self.count - 1;
            },
        }
    }
}

/// Starts the background counting task unless one already runs;
/// the guard flag is set either way, so at most one task runs.
pub fn begin_background_task(running: &mut bool) -> (started: bool)
    ensures
        started == !*old(running),
        *final(running),
{
    if *running {
        false
    } else {
        *running = true;
        true
    }
}

/// One tick of the background counting task: while the window still
/// says "running", the counter advances and the task keeps going;
/// otherwise the guard is cleared so a new task may start.
pub fn background_tick(ui_running: bool, running: &mut bool, counter: &mut Counter) -> (keep: bool)
    requires
        ui_running ==> old(counter).count < i64::MAX,
    ensures
        keep == ui_running,
        ui_running ==> *final(running) == *old(running) && final(counter).count == old(
            counter,
        ).count + 1,
        !ui_running ==> !*final(running) && final(counter).count == old(counter).count,
{
    if ui_running {
        counter.update(Message::Increment);
        true
    } else {
        *running = false;
        false
    }
}

} // verus!
