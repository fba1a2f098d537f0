//! Menu screens, and what the engine does when a key is pressed or released
//! on each of them.

use vstd::prelude::*;

verus! {

/// The screen the game is showing.
#[derive(Debug, Clone, Copy, PartialEq, Eq, Structural)]
pub enum MenuState {
    Loading,
    MainMenu,
    CitySelection,
    InGame,
    WorldCreation,
    Settings,
}

/// A key as the engine's key handler tells keys apart.
#[derive(Debug, Clone, Copy, PartialEq, Eq, Structural)]
pub enum ControlKey {
    Escape,
    ArrowUp,
    ArrowDown,
    ArrowLeft,
    ArrowRight,
    Space,
    /// A key that types exactly this one character.
    Character(char),
    /// Any other key.
    Other,
}

/// What the engine does in answer to a key event.
#[derive(Debug, Clone, Copy, PartialEq, Eq, Structural)]
pub enum KeyCommand {
    /// Leave the application.
    Exit,
    /// Show another screen.
    OpenMenu(MenuState),
    /// Set the throttle input: `1` forward, `-1` reverse, `0` released.
    SetThrottle(i8),
    /// Set the steering input: `-1` left, `1` right, `0` released.
    SetSteering(i8),
    /// Set the brake input: `1` pressed, `0` released.
    SetBrake(i8),
    /// Put the truck back at its starting position.
    ResetVehicle,
    /// Pick up or drop cargo with the winch.
    CargoAction,
    /// Switch between first- and third-person camera.
    SwitchCamera,
    /// The key does nothing.
    Nothing,
}

/// Whether `c` is one of the characters the key handler reacts to.
pub open spec fn is_command_char(c: char) -> bool {
    c == 'r' || c == 'R' || c == 'e' || c == 'E' || c == 'c' || c == 'C' || c == '1' || c == '2'
        || c == '3' || c == '4'
}

/// Whether the screen is a root screen, from which Escape leaves the game.
pub open spec fn is_root_menu(state: MenuState) -> bool {
    state == MenuState::MainMenu || state == MenuState::Loading
}

/// The `1`, `0` or `-1` that an analog control takes while its key is held
/// (`held_value`) or after it is released.
pub open spec fn hold_value(pressed: bool, held_value: i8) -> i8 {
    if pressed {
        held_value
    } else {
        0
    }
}

/// What a key event does on the screen `state`; `pressed` tells a press from
/// a release.
///
/// Escape (pressed) leaves the game from the main menu and the loading
/// screen, and goes back to the main menu from every other screen. The arrow
/// keys and Space drive the truck while held and release their control when
/// let go. `R`, `E` and `C` (either case) reset the truck, work the winch and
/// switch the camera when pressed. On the main menu `1`, `2` and `3` open
/// world creation, city selection and settings, and `4` leaves the game; on
/// other screens they do nothing. Every other event does nothing.
pub fn key_command(state: MenuState, key: ControlKey, pressed: bool) -> (r: KeyCommand)
    ensures
        key == ControlKey::Escape ==> r == (if !pressed {
            KeyCommand::Nothing
        } else if is_root_menu(state) {
            KeyCommand::Exit
        } else {
            KeyCommand::OpenMenu(MenuState::MainMenu)
        }),
        key == ControlKey::ArrowUp ==> r == KeyCommand::SetThrottle(hold_value(pressed, 1i8)),
        key == ControlKey::ArrowDown ==> r == KeyCommand::SetThrottle(hold_value(pressed, -1i8)),
        key == ControlKey::ArrowLeft ==> r == KeyCommand::SetSteering(hold_value(pressed, -1i8)),
        key == ControlKey::ArrowRight ==> r == KeyCommand::SetSteering(hold_value(pressed, 1i8)),
        key == ControlKey::Space ==> r == KeyCommand::SetBrake(hold_value(pressed, 1i8)),
        key == ControlKey::Other ==> r == KeyCommand::Nothing,
        key is Character && !pressed ==> r == KeyCommand::Nothing,
        key is Character && !is_command_char(key->Character_0) ==> r == KeyCommand::Nothing,
        pressed && (key == ControlKey::Character('r') || key == ControlKey::Character('R')) ==> r
            == KeyCommand::ResetVehicle,
        pressed && (key == ControlKey::Character('e') || key == ControlKey::Character('E')) ==> r
            == KeyCommand::CargoAction,
        pressed && (key == ControlKey::Character('c') || key == ControlKey::Character('C')) ==> r
            == KeyCommand::SwitchCamera,
        pressed && key == ControlKey::Character('1') ==> r == (if state == MenuState::MainMenu {
            KeyCommand::OpenMenu(MenuState::WorldCreation)
        } else {
            KeyCommand::Nothing
        }),
        pressed && key == ControlKey::Character('2') ==> r == (if state == MenuState::MainMenu {
            KeyCommand::OpenMenu(MenuState::CitySelection)
        } else {
            KeyCommand::Nothing
        }),
        pressed && key == ControlKey::Character('3') ==> r == (if state == MenuState::MainMenu {
            KeyCommand::OpenMenu(MenuState::Settings)
        } else {
            KeyCommand::Nothing
        }),
        pressed && key == ControlKey::Character('4') ==> r == (if state == MenuState::MainMenu {
            KeyCommand::Exit
        } else {
            KeyCommand::Nothing
        }),
{
    match key {
        ControlKey::Escape => {
            if !pressed {
                KeyCommand::Nothing
            } else {
                match state {
                    MenuState::MainMenu | MenuState::Loading => KeyCommand::Exit,
                    _ => KeyCommand::OpenMenu(MenuState::MainMenu),
                }
            }
        },
        ControlKey::ArrowUp => KeyCommand::SetThrottle(if pressed { 1 } else { 0 }),
        ControlKey::ArrowDown => KeyCommand::SetThrottle(if pressed { -1 } else { 0 }),
        ControlKey::ArrowLeft => KeyCommand::SetSteering(if pressed { -1 } else { 0 }),
        ControlKey::ArrowRight => KeyCommand::SetSteering(if pressed { 1 } else { 0 }),
        ControlKey::Space => KeyCommand::SetBrake(if pressed { 1 } else { 0 }),
        ControlKey::Character(c) => {
            if !pressed {
                KeyCommand::Nothing
            } else if c == 'r' || c == 'R' {
                KeyCommand::ResetVehicle
            } else if c == 'e' || c == 'E' {
                KeyCommand::CargoAction
            } else if c == 'c' || c == 'C' {
                KeyCommand::SwitchCamera
            } else if c == '1' || c == '2' || c == '3' || c == '4' {
                match state {
                    MenuState::MainMenu => {
                        if c == '1' {
                            KeyCommand::OpenMenu(MenuState::WorldCreation)
                        } else if c == '2' {
                            KeyCommand::OpenMenu(MenuState::CitySelection)
                        } else if c == '3' {
                            KeyCommand::OpenMenu(MenuState::Settings)
                        } else {
                            KeyCommand::Exit
                        }
                    },
                    _ => KeyCommand::Nothing,
                }
            } else {
                KeyCommand::Nothing
            }
        },
        ControlKey::Other => KeyCommand::Nothing,
    }
}

/// Number of Siberian cities on the city-selection screen.
pub const CITY_COUNT: usize = 14;

/// The city after `index`, wrapping from the last back to the first.
pub open spec fn city_after(index: int) -> int {
    (index + 1) % (CITY_COUNT as int)
}

/// The city before `index`, wrapping from the first to the last.
pub open spec fn city_before(index: int) -> int {
    if index == 0 {
        CITY_COUNT - 1
    } else {
        index - 1
    }
}

/// The city after `index` on the city-selection screen.
pub fn next_city_index(index: usize) -> (r: usize)
    requires
        index < usize::MAX,
    ensures
        r == city_after(index as int),
{
    (index + 1) % CITY_COUNT
}

/// The city before `index` on the city-selection screen.
pub fn prev_city_index(index: usize) -> (r: usize)
    ensures
        r == city_before(index as int),
{
    if index == 0 {
        CITY_COUNT - 1
    } else {
        index - 1
    }
}

/// Stepping to the next city and back, or back and then on, returns to the
/// city one started from.
pub proof fn law_city_steps_undo(index: int)
    requires
        0 <= index < CITY_COUNT,
    ensures
        city_before(city_after(index)) == index,
        city_after(city_before(index)) == index,
        0 <= city_after(index) < CITY_COUNT,
        0 <= city_before(index) < CITY_COUNT,
{
}

} // verus!
