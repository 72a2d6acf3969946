//! Keyboard mapping and the pause/quit state of a front end.
use vstd::prelude::*;

verus! {

/// Whether the emulator runs, is paused, or should shut down.
#[derive(Debug, Clone, Copy, PartialEq, Eq, Structural)]
pub enum State {
    RUNNING,
    PAUSED,
    QUIT,
}

/// The host keys that the front end reacts to.
#[derive(Debug, Clone, Copy, PartialEq, Eq, Structural)]
pub enum Key {
    Num0,
    Num1,
    Num2,
    Num3,
    Num4,
    Num5,
    Num6,
    Num7,
    Num8,
    Num9,
    A,
    B,
    C,
    D,
    E,
    F,
    Escape,
    Space,
    /// Any other key.
    Other,
}

/// A host input event.
#[derive(Debug, Clone, Copy, PartialEq, Eq, Structural)]
pub enum InputEvent {
    /// The window was closed.
    Quit,
    /// A key went down.
    KeyDown(Key),
    /// A key went up.
    KeyUp(Key),
    /// Anything else, including key events without a key code.
    Other,
}

/// What the front end does after an event.
#[derive(Debug, Clone, Copy, PartialEq, Eq, Structural)]
pub enum EventOutcome {
    /// Stop reading events.
    Stop,
    /// The CHIP-8 key with this index went down.
    Pressed(usize),
    /// The CHIP-8 key with this index went up.
    Released(usize),
    /// Nothing to report.
    Continue,
}

/// The CHIP-8 keypad index of a host key: the keys 0-9 and A-F stand for
/// the hexadecimal digit they show.
pub open spec fn key_index(key: Key) -> Option<usize> {
    match key {
        Key::Num0 => Some(0x0usize),
        Key::Num1 => Some(0x1usize),
        Key::Num2 => Some(0x2usize),
        Key::Num3 => Some(0x3usize),
        Key::Num4 => Some(0x4usize),
        Key::Num5 => Some(0x5usize),
        Key::Num6 => Some(0x6usize),
        Key::Num7 => Some(0x7usize),
        Key::Num8 => Some(0x8usize),
        Key::Num9 => Some(0x9usize),
        Key::A => Some(0xAusize),
        Key::B => Some(0xBusize),
        Key::C => Some(0xCusize),
        Key::D => Some(0xDusize),
        Key::E => Some(0xEusize),
        Key::F => Some(0xFusize),
        _ => None,
    }
}

/// Pausing flips between running and paused; from any other state it pauses.
pub open spec fn toggled(state: State) -> State {
    match state {
        State::PAUSED => State::RUNNING,
        _ => State::PAUSED,
    }
}

/// The new state and the outcome of one event.
pub open spec fn spec_handle_event(state: State, event: InputEvent) -> (State, EventOutcome) {
    match event {
        InputEvent::Quit => (State::QUIT, EventOutcome::Stop),
        InputEvent::KeyDown(Key::Escape) => (State::QUIT, EventOutcome::Stop),
        InputEvent::KeyDown(key) => {
            let next = if key == Key::Space {
                toggled(state)
            } else {
                state
            };
            match key_index(key) {
                Some(index) => (next, EventOutcome::Pressed(index)),
                None => (next, EventOutcome::Continue),
            }
        },
        InputEvent::KeyUp(key) => match key_index(key) {
            Some(index) => (state, EventOutcome::Released(index)),
            None => (state, EventOutcome::Continue),
        },
        InputEvent::Other => (state, EventOutcome::Continue),
    }
}

/// What the main loop does with a frame in a given state.
#[derive(Debug, Clone, Copy, PartialEq, Eq, Structural)]
pub enum FrameAction {
    /// Paused: go back to reading events without running the machine.
    Skip,
    /// Shutting down: leave the main loop.
    Exit,
    /// Run the machine for a frame and redraw.
    Run,
}

/// The main loop's action for `state`.
pub open spec fn spec_frame_action(state: State) -> FrameAction {
    match state {
        State::PAUSED => FrameAction::Skip,
        State::QUIT => FrameAction::Exit,
        State::RUNNING => FrameAction::Run,
    }
}

/// Decides what the main loop does with the next frame: nothing while
/// paused, stop when quitting, otherwise run and draw.
pub fn frame_action(state: State) -> (action: FrameAction)
    ensures
        action == spec_frame_action(state),
{
    match state {
        State::PAUSED => FrameAction::Skip,
        State::QUIT => FrameAction::Exit,
        _ => FrameAction::Run,
    }
}

/// The state after handling `events` one after another from `state`.
pub open spec fn state_after_events(state: State, events: Seq<InputEvent>) -> State
    decreases events.len(),
{
    if events.len() == 0 {
        state
    } else {
        spec_handle_event(state_after_events(state, events.drop_last()), events.last()).0
    }
}

/// How many of `events` are Space key presses.
pub open spec fn space_presses(events: Seq<InputEvent>) -> nat
    decreases events.len(),
{
    if events.len() == 0 {
        0
    } else {
        space_presses(events.drop_last()) + if events.last() == InputEvent::KeyDown(Key::Space) {
            1nat
        } else {
            0nat
        }
    }
}

/// `state` toggled `m` times.
pub open spec fn toggled_times(state: State, m: nat) -> State
    decreases m,
{
    if m == 0 {
        state
    } else {
        toggled(toggled_times(state, (m - 1) as nat))
    }
}

/// The CHIP-8 keypad index of a host key, if it has one.
pub fn map_key(key: Key) -> (index: Option<usize>)
    ensures
        index == key_index(key),
{
    match key {
        Key::Num1 => Some(0x1),
        Key::Num2 => Some(0x2),
        Key::Num3 => Some(0x3),
        Key::C => Some(0xC),
        Key::Num4 => Some(0x4),
        Key::Num5 => Some(0x5),
        Key::Num6 => Some(0x6),
        Key::D => Some(0xD),
        Key::Num7 => Some(0x7),
        Key::Num8 => Some(0x8),
        Key::Num9 => Some(0x9),
        Key::E => Some(0xE),
        Key::A => Some(0xA),
        Key::Num0 => Some(0x0),
        Key::B => Some(0xB),
        Key::F => Some(0xF),
        _ => None,
    }
}

/// Handles one event: closing the window or Escape quits and stops event
/// handling, Space toggles pause, and keypad keys are reported.
pub fn handle_event(state: &mut State, event: InputEvent) -> (outcome: EventOutcome)
    ensures
        (*final(state), outcome) == spec_handle_event(*old(state), event),
{
    match event {
        InputEvent::Quit => {
            *state = State::QUIT;
            EventOutcome::Stop
        },
        InputEvent::KeyDown(keycode) => {
            if let Key::Escape = keycode {
                *state = State::QUIT;
                return EventOutcome::Stop;
            }
            if let Key::Space = keycode {
                *state = match *state {
                    State::PAUSED => State::RUNNING,
                    _ => State::PAUSED,
                };
            }
            match map_key(keycode) {
                Some(index) => EventOutcome::Pressed(index),
                None => EventOutcome::Continue,
            }
        },
        InputEvent::KeyUp(keycode) => match map_key(keycode) {
            Some(index) => EventOutcome::Released(index),
            None => EventOutcome::Continue,
        },
        InputEvent::Other => EventOutcome::Continue,
    }
}

} // verus!
