//! The push button that asks for the next screen.
//!
//! A press is accepted once: after the falling edge the level is read a
//! second time, a short while later, and only a level that is still low
//! counts. The next press is looked for after the button has been released.

use vstd::prelude::*;

verus! {

/// The time between the falling edge and the second reading, in milliseconds.
pub const DEBOUNCE_MILLIS: u32 = 50;

/// What the button waits for.
#[derive(Debug, Clone, Copy, PartialEq, Eq, Structural)]
pub enum ButtonState {
    /// The button is up: the next falling edge starts a press.
    Released,
    /// A falling edge was seen: the level is read again after the delay.
    Settling,
    /// The second reading was taken: the next rising edge ends the press.
    Pressed,
}

/// What has happened to the button.
#[derive(Debug, Clone, Copy, PartialEq, Eq, Structural)]
pub enum ButtonEvent {
    /// The level fell.
    FallingEdge,
    /// The delay is over, and the level is low or not.
    Sampled { low: bool },
    /// The level rose.
    RisingEdge,
}

/// What the owner of the pin does next.
#[derive(Debug, Clone, Copy, PartialEq, Eq, Structural)]
pub enum ButtonAction {
    /// Wait for the level to fall.
    AwaitFallingEdge,
    /// Wait for `DEBOUNCE_MILLIS`, then read the level.
    SampleAfterDelay,
    /// Wait for the level to rise.
    AwaitRisingEdge,
}

/// The answer to an event: what the button waits for next, what its owner
/// does next, and whether a press has been accepted.
#[derive(Debug, Clone, Copy, PartialEq, Eq, Structural)]
pub struct ButtonStep {
    pub state: ButtonState,
    pub action: ButtonAction,
    pub pressed: bool,
}

/// What the owner of the pin does while the button is in the state `state`.
pub open spec fn awaited(state: ButtonState) -> ButtonAction {
    match state {
        ButtonState::Released => ButtonAction::AwaitFallingEdge,
        ButtonState::Settling => ButtonAction::SampleAfterDelay,
        ButtonState::Pressed => ButtonAction::AwaitRisingEdge,
    }
}

/// The answer to `event` in the state `state`.
///
/// A falling edge on a released button starts the delay. The second reading
/// ends it: a low level is a press. A rising edge then releases the button.
/// An event that the state does not wait for changes nothing.
pub open spec fn button_step(state: ButtonState, event: ButtonEvent) -> ButtonStep {
    match (state, event) {
        (ButtonState::Released, ButtonEvent::FallingEdge) => ButtonStep {
            state: ButtonState::Settling,
            action: ButtonAction::SampleAfterDelay,
            pressed: false,
        },
        (ButtonState::Settling, ButtonEvent::Sampled { low }) => ButtonStep {
            state: ButtonState::Pressed,
            action: ButtonAction::AwaitRisingEdge,
            pressed: low,
        },
        (ButtonState::Pressed, ButtonEvent::RisingEdge) => ButtonStep {
            state: ButtonState::Released,
            action: ButtonAction::AwaitFallingEdge,
            pressed: false,
        },
        _ => ButtonStep { state, action: awaited(state), pressed: false },
    }
}

/// What the owner of the pin does while the button is in the state `state`.
pub fn action_for(state: ButtonState) -> (action: ButtonAction)
    ensures
        action == awaited(state),
{
    match state {
        ButtonState::Released => ButtonAction::AwaitFallingEdge,
        ButtonState::Settling => ButtonAction::SampleAfterDelay,
        ButtonState::Pressed => ButtonAction::AwaitRisingEdge,
    }
}

/// Answers `event` in the state `state`, as `button_step` says.
pub fn on_button_event(state: ButtonState, event: ButtonEvent) -> (step: ButtonStep)
    ensures
        step == button_step(state, event),
{
    match state {
        ButtonState::Released => match event {
            ButtonEvent::FallingEdge => ButtonStep {
                state: ButtonState::Settling,
                action: ButtonAction::SampleAfterDelay,
                pressed: false,
            },
            _ => ButtonStep { state, action: action_for(state), pressed: false },
        },
        ButtonState::Settling => match event {
            ButtonEvent::Sampled { low } => ButtonStep {
                state: ButtonState::Pressed,
                action: ButtonAction::AwaitRisingEdge,
                pressed: low,
            },
            _ => ButtonStep { state, action: action_for(state), pressed: false },
        },
        ButtonState::Pressed => match event {
            ButtonEvent::RisingEdge => ButtonStep {
                state: ButtonState::Released,
                action: ButtonAction::AwaitFallingEdge,
                pressed: false,
            },
            _ => ButtonStep { state, action: action_for(state), pressed: false },
        },
    }
}

/// One press gives one command: between two accepted presses the button has
/// been released, so a press is never accepted twice in a row.
pub proof fn lemma_one_press_at_a_time(state: ButtonState, first: ButtonEvent, second: ButtonEvent)
    requires
        button_step(state, first).pressed,
    ensures
        !button_step(button_step(state, first).state, second).pressed,
{
}

} // verus!
