//! Input actions that gamepad buttons and axes are bound to.

use vstd::prelude::*;

verus! {

/// A game action that a button or an axis can be bound to.
#[derive(Clone, Debug, Hash, PartialEq, Eq, Structural)]
pub enum InputAction {
    // Movement
    MoveForward,
    MoveBackward,
    MoveLeft,
    MoveRight,
    // Camera
    LookHorizontal,
    LookVertical,
    // Driving and moving
    Accelerate,
    Brake,
    Handbrake,
    Jump,
    Crouch,
    // Interaction
    Interact,
    UseItem,
    // Menus
    Pause,
    Menu,
    /// Open the map.
    MapView,
    // Switching
    NextWeapon,
    PreviousWeapon,
    // Special
    Nitro,
    Horn,
    Lights,
}

/// A button of an Xbox-style gamepad.
#[derive(Clone, Copy, Debug, Hash, PartialEq, Eq, Structural)]
pub enum GamepadButton {
    /// A on Xbox, Cross on PlayStation.
    South,
    /// B on Xbox, Circle on PlayStation.
    East,
    /// Y on Xbox, Triangle on PlayStation.
    North,
    /// X on Xbox, Square on PlayStation.
    West,
    C,
    Z,
    /// Left bumper.
    LeftTrigger,
    /// Left trigger.
    LeftTrigger2,
    /// Right bumper.
    RightTrigger,
    /// Right trigger.
    RightTrigger2,
    /// Back / View.
    Select,
    Start,
    /// Start / Menu.
    Mode,
    LeftThumb,
    RightThumb,
    DPadUp,
    DPadDown,
    DPadLeft,
    DPadRight,
    Unknown,
}

/// An analog axis of an Xbox-style gamepad.
#[derive(Clone, Copy, Debug, Hash, PartialEq, Eq, Structural)]
pub enum GamepadAxis {
    LeftStickX,
    LeftStickY,
    LeftZ,
    RightStickX,
    RightStickY,
    RightZ,
    LeftTrigger2,
    RightTrigger2,
    DPadX,
    DPadY,
    Unknown,
}

/// What an action is bound to on a gamepad: a button, an axis for analog
/// input, and whether that axis is inverted. (How far an axis has to move
/// before it counts is a float threshold, kept with the input state.)
#[derive(Clone, Copy, Debug, PartialEq, Eq, Structural)]
pub struct GamepadBinding {
    pub button: Option<GamepadButton>,
    pub axis: Option<GamepadAxis>,
    pub invert_axis: bool,
}

impl Default for GamepadBinding {
    /// Bound to nothing, axis not inverted.
    fn default() -> (r: Self)
        ensures
            r == (GamepadBinding { button: None, axis: None, invert_axis: false }),
    {
        GamepadBinding { button: None, axis: None, invert_axis: false }
    }
}

/// The default Xbox-style layout: the D-pad and left stick move, the right
/// stick looks around (vertical inverted), the triggers accelerate and brake,
/// the face buttons are handbrake, jump, crouch and interact, Start/Menu and
/// Back/View pause and open the menu, the bumpers switch weapons, and the
/// stick clicks are nitro and horn.
pub open spec fn default_layout_spec() -> Seq<(InputAction, GamepadBinding)> {
    seq![
        (InputAction::MoveForward, GamepadBinding { button: Some(GamepadButton::DPadUp), axis: Some(GamepadAxis::LeftStickY), invert_axis: true }),
        (InputAction::MoveBackward, GamepadBinding { button: Some(GamepadButton::DPadDown), axis: Some(GamepadAxis::LeftStickY), invert_axis: false }),
        (InputAction::MoveLeft, GamepadBinding { button: Some(GamepadButton::DPadLeft), axis: Some(GamepadAxis::LeftStickX), invert_axis: true }),
        (InputAction::MoveRight, GamepadBinding { button: Some(GamepadButton::DPadRight), axis: Some(GamepadAxis::LeftStickX), invert_axis: false }),
        (InputAction::LookHorizontal, GamepadBinding { button: None, axis: Some(GamepadAxis::RightStickX), invert_axis: false }),
        (InputAction::LookVertical, GamepadBinding { button: None, axis: Some(GamepadAxis::RightStickY), invert_axis: true }),
        (InputAction::Accelerate, GamepadBinding { button: Some(GamepadButton::RightTrigger2), axis: Some(GamepadAxis::RightTrigger2), invert_axis: false }),
        (InputAction::Brake, GamepadBinding { button: Some(GamepadButton::LeftTrigger2), axis: Some(GamepadAxis::LeftTrigger2), invert_axis: false }),
        (InputAction::Handbrake, GamepadBinding { button: Some(GamepadButton::South), axis: None, invert_axis: false }),
        (InputAction::Jump, GamepadBinding { button: Some(GamepadButton::East), axis: None, invert_axis: false }),
        (InputAction::Crouch, GamepadBinding { button: Some(GamepadButton::West), axis: None, invert_axis: false }),
        (InputAction::Interact, GamepadBinding { button: Some(GamepadButton::North), axis: None, invert_axis: false }),
        (InputAction::Pause, GamepadBinding { button: Some(GamepadButton::Mode), axis: None, invert_axis: false }),
        (InputAction::Menu, GamepadBinding { button: Some(GamepadButton::Select), axis: None, invert_axis: false }),
        (InputAction::NextWeapon, GamepadBinding { button: Some(GamepadButton::RightTrigger), axis: None, invert_axis: false }),
        (InputAction::PreviousWeapon, GamepadBinding { button: Some(GamepadButton::LeftTrigger), axis: None, invert_axis: false }),
        (InputAction::Nitro, GamepadBinding { button: Some(GamepadButton::RightThumb), axis: None, invert_axis: false }),
        (InputAction::Horn, GamepadBinding { button: Some(GamepadButton::LeftThumb), axis: None, invert_axis: false }),
    ]
}

/// Whether no action is bound twice in `layout`.
pub open spec fn actions_distinct(layout: Seq<(InputAction, GamepadBinding)>) -> bool {
    forall|i: int, j: int| 0 <= i < j < layout.len() ==> (#[trigger] layout[i]).0 != (#[trigger] layout[j]).0
}

/// The default gamepad layout, one entry per bound action.
pub fn default_layout() -> (r: Vec<(InputAction, GamepadBinding)>)
    ensures
        r@ == default_layout_spec(),
        r@.len() == 18,
        actions_distinct(r@),
{
    let mut layout: Vec<(InputAction, GamepadBinding)> = Vec::new();
    layout.push((InputAction::MoveForward, GamepadBinding { button: Some(GamepadButton::DPadUp), axis: Some(GamepadAxis::LeftStickY), invert_axis: true }));
    layout.push((InputAction::MoveBackward, GamepadBinding { button: Some(GamepadButton::DPadDown), axis: Some(GamepadAxis::LeftStickY), invert_axis: false }));
    layout.push((InputAction::MoveLeft, GamepadBinding { button: Some(GamepadButton::DPadLeft), axis: Some(GamepadAxis::LeftStickX), invert_axis: true }));
    layout.push((InputAction::MoveRight, GamepadBinding { button: Some(GamepadButton::DPadRight), axis: Some(GamepadAxis::LeftStickX), invert_axis: false }));
    layout.push((InputAction::LookHorizontal, GamepadBinding { button: None, axis: Some(GamepadAxis::RightStickX), invert_axis: false }));
    layout.push((InputAction::LookVertical, GamepadBinding { button: None, axis: Some(GamepadAxis::RightStickY), invert_axis: true }));
    layout.push((InputAction::Accelerate, GamepadBinding { button: Some(GamepadButton::RightTrigger2), axis: Some(GamepadAxis::RightTrigger2), invert_axis: false }));
    layout.push((InputAction::Brake, GamepadBinding { button: Some(GamepadButton::LeftTrigger2), axis: Some(GamepadAxis::LeftTrigger2), invert_axis: false }));
    layout.push((InputAction::Handbrake, GamepadBinding { button: Some(GamepadButton::South), axis: None, invert_axis: false }));
    layout.push((InputAction::Jump, GamepadBinding { button: Some(GamepadButton::East), axis: None, invert_axis: false }));
    layout.push((InputAction::Crouch, GamepadBinding { button: Some(GamepadButton::West), axis: None, invert_axis: false }));
    layout.push((InputAction::Interact, GamepadBinding { button: Some(GamepadButton::North), axis: None, invert_axis: false }));
    layout.push((InputAction::Pause, GamepadBinding { button: Some(GamepadButton::Mode), axis: None, invert_axis: false }));
    layout.push((InputAction::Menu, GamepadBinding { button: Some(GamepadButton::Select), axis: None, invert_axis: false }));
    layout.push((InputAction::NextWeapon, GamepadBinding { button: Some(GamepadButton::RightTrigger), axis: None, invert_axis: false }));
    layout.push((InputAction::PreviousWeapon, GamepadBinding { button: Some(GamepadButton::LeftTrigger), axis: None, invert_axis: false }));
    layout.push((InputAction::Nitro, GamepadBinding { button: Some(GamepadButton::RightThumb), axis: None, invert_axis: false }));
    layout.push((InputAction::Horn, GamepadBinding { button: Some(GamepadButton::LeftThumb), axis: None, invert_axis: false }));
    assert(layout@ =~= default_layout_spec());
    layout
}

/// The binding of an action in `layout` (meaningful when it is bound).
pub open spec fn binding_in(layout: Seq<(InputAction, GamepadBinding)>, action: InputAction) -> GamepadBinding {
    layout[choose|i: int| 0 <= i < layout.len() && (#[trigger] layout[i]).0 == action].1
}

/// What the default layout does with each action, entry by entry: the right
/// trigger accelerates and the left one brakes; the D-pad and left stick move
/// (forward and left inverted on the stick); the right stick looks (vertical
/// inverted); the face buttons are handbrake (South), jump (East), crouch
/// (West) and interact (North); Start/Menu pauses and Back/View opens the
/// menu; the bumpers switch weapons (right next, left previous); the stick
/// clicks are nitro (right) and horn (left). `UseItem` and `Lights` are
/// left unbound.
pub proof fn law_default_layout_bindings(i: int)
    requires
        0 <= i < default_layout_spec().len(),
    ensures
        ({
            let layout = default_layout_spec();
            &&& layout[i].0 != InputAction::UseItem
            &&& layout[i].0 != InputAction::Lights
            &&& layout[i].0 == InputAction::MoveForward ==> layout[i].1 == (GamepadBinding { button: Some(GamepadButton::DPadUp), axis: Some(GamepadAxis::LeftStickY), invert_axis: true })
            &&& layout[i].0 == InputAction::MoveBackward ==> layout[i].1 == (GamepadBinding { button: Some(GamepadButton::DPadDown), axis: Some(GamepadAxis::LeftStickY), invert_axis: false })
            &&& layout[i].0 == InputAction::MoveLeft ==> layout[i].1 == (GamepadBinding { button: Some(GamepadButton::DPadLeft), axis: Some(GamepadAxis::LeftStickX), invert_axis: true })
            &&& layout[i].0 == InputAction::MoveRight ==> layout[i].1 == (GamepadBinding { button: Some(GamepadButton::DPadRight), axis: Some(GamepadAxis::LeftStickX), invert_axis: false })
            &&& layout[i].0 == InputAction::LookHorizontal ==> layout[i].1 == (GamepadBinding { button: None, axis: Some(GamepadAxis::RightStickX), invert_axis: false })
            &&& layout[i].0 == InputAction::LookVertical ==> layout[i].1 == (GamepadBinding { button: None, axis: Some(GamepadAxis::RightStickY), invert_axis: true })
            &&& layout[i].0 == InputAction::Accelerate ==> layout[i].1 == (GamepadBinding { button: Some(GamepadButton::RightTrigger2), axis: Some(GamepadAxis::RightTrigger2), invert_axis: false })
            &&& layout[i].0 == InputAction::Brake ==> layout[i].1 == (GamepadBinding { button: Some(GamepadButton::LeftTrigger2), axis: Some(GamepadAxis::LeftTrigger2), invert_axis: false })
            &&& layout[i].0 == InputAction::Handbrake ==> layout[i].1 == (GamepadBinding { button: Some(GamepadButton::South), axis: None, invert_axis: false })
            &&& layout[i].0 == InputAction::Jump ==> layout[i].1 == (GamepadBinding { button: Some(GamepadButton::East), axis: None, invert_axis: false })
            &&& layout[i].0 == InputAction::Crouch ==> layout[i].1 == (GamepadBinding { button: Some(GamepadButton::West), axis: None, invert_axis: false })
            &&& layout[i].0 == InputAction::Interact ==> layout[i].1 == (GamepadBinding { button: Some(GamepadButton::North), axis: None, invert_axis: false })
            &&& layout[i].0 == InputAction::Pause ==> layout[i].1 == (GamepadBinding { button: Some(GamepadButton::Mode), axis: None, invert_axis: false })
            &&& layout[i].0 == InputAction::Menu ==> layout[i].1 == (GamepadBinding { button: Some(GamepadButton::Select), axis: None, invert_axis: false })
            &&& layout[i].0 == InputAction::NextWeapon ==> layout[i].1 == (GamepadBinding { button: Some(GamepadButton::RightTrigger), axis: None, invert_axis: false })
            &&& layout[i].0 == InputAction::PreviousWeapon ==> layout[i].1 == (GamepadBinding { button: Some(GamepadButton::LeftTrigger), axis: None, invert_axis: false })
            &&& layout[i].0 == InputAction::Nitro ==> layout[i].1 == (GamepadBinding { button: Some(GamepadButton::RightThumb), axis: None, invert_axis: false })
            &&& layout[i].0 == InputAction::Horn ==> layout[i].1 == (GamepadBinding { button: Some(GamepadButton::LeftThumb), axis: None, invert_axis: false })
        }),
{
}

/// The accelerator and the brake are on the two triggers, right and left,
/// and each action of the layout has one binding.
pub proof fn law_triggers_drive(layout: Seq<(InputAction, GamepadBinding)>)
    requires
        layout == default_layout_spec(),
    ensures
        actions_distinct(layout),
        binding_in(layout, InputAction::Accelerate).button == Some(GamepadButton::RightTrigger2),
        binding_in(layout, InputAction::Accelerate).axis == Some(GamepadAxis::RightTrigger2),
        binding_in(layout, InputAction::Brake).button == Some(GamepadButton::LeftTrigger2),
        binding_in(layout, InputAction::Brake).axis == Some(GamepadAxis::LeftTrigger2),
{
    assert(layout[6].0 == InputAction::Accelerate);
    assert(layout[7].0 == InputAction::Brake);
    let a = choose|i: int| 0 <= i < layout.len() && (#[trigger] layout[i]).0 == InputAction::Accelerate;
    let b = choose|i: int| 0 <= i < layout.len() && (#[trigger] layout[i]).0 == InputAction::Brake;
    law_default_layout_bindings(a);
    law_default_layout_bindings(b);
}

} // verus!
