use next_tramway::button::{
    action_for, on_button_event, ButtonAction, ButtonEvent, ButtonState, ButtonStep,
};

#[test]
fn a_press_is_accepted_after_the_second_reading() {
    let step = on_button_event(ButtonState::Released, ButtonEvent::FallingEdge);
    assert_eq!(
        step,
        ButtonStep { state: ButtonState::Settling, action: ButtonAction::SampleAfterDelay, pressed: false }
    );
    let step = on_button_event(step.state, ButtonEvent::Sampled { low: true });
    assert_eq!(
        step,
        ButtonStep { state: ButtonState::Pressed, action: ButtonAction::AwaitRisingEdge, pressed: true }
    );
    let step = on_button_event(step.state, ButtonEvent::RisingEdge);
    assert_eq!(
        step,
        ButtonStep { state: ButtonState::Released, action: ButtonAction::AwaitFallingEdge, pressed: false }
    );
}

#[test]
fn a_bounce_is_no_press() {
    let step = on_button_event(ButtonState::Settling, ButtonEvent::Sampled { low: false });
    assert_eq!(
        step,
        ButtonStep { state: ButtonState::Pressed, action: ButtonAction::AwaitRisingEdge, pressed: false }
    );
}

#[test]
fn an_event_out_of_turn_changes_nothing() {
    for state in [ButtonState::Released, ButtonState::Settling, ButtonState::Pressed] {
        for event in [
            ButtonEvent::FallingEdge,
            ButtonEvent::Sampled { low: true },
            ButtonEvent::Sampled { low: false },
            ButtonEvent::RisingEdge,
        ] {
            let expected = matches!(
                (state, event),
                (ButtonState::Released, ButtonEvent::FallingEdge)
                    | (ButtonState::Settling, ButtonEvent::Sampled { .. })
                    | (ButtonState::Pressed, ButtonEvent::RisingEdge)
            );
            let step = on_button_event(state, event);
            if !expected {
                assert_eq!(step, ButtonStep { state, action: action_for(state), pressed: false });
            }
        }
    }
    assert_eq!(action_for(ButtonState::Released), ButtonAction::AwaitFallingEdge);
    assert_eq!(action_for(ButtonState::Settling), ButtonAction::SampleAfterDelay);
    assert_eq!(action_for(ButtonState::Pressed), ButtonAction::AwaitRisingEdge);
}
