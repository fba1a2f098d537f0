use rtgc_siberian_cities::input::InputAction;

#[test]
fn test_input_action_count() {
    let actions = vec![InputAction::MoveForward, InputAction::Accelerate, InputAction::Pause];
    assert_eq!(actions.len(), 3);
}

use rtgc_siberian_cities::input::{default_layout, GamepadAxis, GamepadBinding, GamepadButton};

#[test]
fn default_layout_binds_each_action_once() {
    let layout = default_layout();
    assert_eq!(layout.len(), 18);
    for i in 0..layout.len() {
        for j in (i + 1)..layout.len() {
            assert_ne!(layout[i].0, layout[j].0);
        }
    }
}

#[test]
fn default_layout_entries() {
    let layout = default_layout();
    let find = |a: InputAction| layout.iter().find(|(x, _)| *x == a).map(|(_, b)| *b).unwrap();
    assert_eq!(
        find(InputAction::MoveForward),
        GamepadBinding { button: Some(GamepadButton::DPadUp), axis: Some(GamepadAxis::LeftStickY), invert_axis: true }
    );
    assert_eq!(
        find(InputAction::LookHorizontal),
        GamepadBinding { button: None, axis: Some(GamepadAxis::RightStickX), invert_axis: false }
    );
    assert_eq!(find(InputAction::Pause).button, Some(GamepadButton::Mode));
    assert_eq!(find(InputAction::Horn).button, Some(GamepadButton::LeftThumb));
    assert!(layout.iter().all(|(a, _)| *a != InputAction::UseItem && *a != InputAction::Lights));
    assert_eq!(GamepadBinding::default(), GamepadBinding { button: None, axis: None, invert_axis: false });
}
