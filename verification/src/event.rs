//! One turn of the event loop: what an input event does to the tracker, and
//! whether the loop goes on. Reading events and drawing the screen is left to
//! the caller.

use vstd::prelude::*;
use crate::model::Tracker;
use crate::state::AppState;

verus! {

/// The key that ends the loop.
pub const QUIT_KEY: char = 'q';

/// The key of a key event, as far as the loop tells keys apart.
#[derive(Clone, Copy, Debug, PartialEq, Eq, Structural)]
pub enum Key {
    /// A key that stands for a character.
    Char(char),
    /// Any other key.
    Other,
}

/// An input event, as far as the loop tells events apart.
#[derive(Clone, Copy, Debug, PartialEq, Eq, Structural)]
pub enum InputEvent {
    /// A mouse button went down.
    MousePress,
    /// Any other mouse event.
    MouseOther,
    /// A key event.
    KeyPress(Key),
    /// Any other event.
    Other,
}

/// What the loop does after an event.
#[derive(Clone, Copy, Debug, PartialEq, Eq, Structural)]
pub enum LoopAction {
    /// Draw the screen again and wait for the next event.
    Redraw,
    /// Leave the loop.
    Quit,
}

/// The action that follows `event`: the quit key ends the loop, everything
/// else has the screen drawn again.
pub open spec fn next_action(event: InputEvent) -> LoopAction {
    if event == InputEvent::KeyPress(Key::Char(QUIT_KEY)) {
        LoopAction::Quit
    } else {
        LoopAction::Redraw
    }
}

/// The tracker after `event` at time `now`: a mouse press is a click, and no
/// other event changes anything.
pub open spec fn after_event(t: Tracker, event: InputEvent, now: nat) -> Tracker {
    if event == InputEvent::MousePress {
        t.click(now)
    } else {
        t
    }
}

/// Handles one event that arrived at time `now`.
pub fn handle_event_at(app: &mut AppState, event: InputEvent, now: u128) -> (action: LoopAction)
    ensures
        action == next_action(event),
        final(app)@ == after_event(old(app)@, event, now as nat),
{
    match event {
        InputEvent::MousePress => {
            app.on_click_at(now);
            LoopAction::Redraw
        },
        InputEvent::KeyPress(Key::Char(c)) => {
            if c == QUIT_KEY {
                LoopAction::Quit
            } else {
                LoopAction::Redraw
            }
        },
        _ => LoopAction::Redraw,
    }
}

/// Handles one event that arrived just now. The clock is read for a mouse
/// press only; whatever it says, the outcome is that of `handle_event_at` for
/// some time.
pub fn handle_event(app: &mut AppState, event: InputEvent) -> (action: LoopAction)
    ensures
        action == next_action(event),
        exists|now: nat| final(app)@ == after_event(old(app)@, event, now),
{
    match event {
        InputEvent::MousePress => {
            app.on_click();
            proof {
                let now = choose|now: nat| app@ == old(app)@.click(now);
                assert(app@ == after_event(old(app)@, event, now));
            }
            LoopAction::Redraw
        },
        InputEvent::KeyPress(Key::Char(c)) => {
            assert(app@ == after_event(old(app)@, event, 0));
            if c == QUIT_KEY {
                LoopAction::Quit
            } else {
                LoopAction::Redraw
            }
        },
        _ => {
            assert(app@ == after_event(old(app)@, event, 0));
            LoopAction::Redraw
        },
    }
}

} // verus!
