use rtgc_siberian_cities::menu::{
    key_command, next_city_index, prev_city_index, ControlKey, KeyCommand, MenuState, CITY_COUNT,
};

#[test]
fn escape_leaves_root_screens_and_backs_out_of_others() {
    assert_eq!(key_command(MenuState::MainMenu, ControlKey::Escape, true), KeyCommand::Exit);
    assert_eq!(key_command(MenuState::Loading, ControlKey::Escape, true), KeyCommand::Exit);
    for state in [MenuState::CitySelection, MenuState::InGame, MenuState::WorldCreation, MenuState::Settings] {
        assert_eq!(key_command(state, ControlKey::Escape, true), KeyCommand::OpenMenu(MenuState::MainMenu));
    }
    assert_eq!(key_command(MenuState::InGame, ControlKey::Escape, false), KeyCommand::Nothing);
}

#[test]
fn arrows_and_space_drive_while_held() {
    let s = MenuState::InGame;
    assert_eq!(key_command(s, ControlKey::ArrowUp, true), KeyCommand::SetThrottle(1));
    assert_eq!(key_command(s, ControlKey::ArrowUp, false), KeyCommand::SetThrottle(0));
    assert_eq!(key_command(s, ControlKey::ArrowDown, true), KeyCommand::SetThrottle(-1));
    assert_eq!(key_command(s, ControlKey::ArrowDown, false), KeyCommand::SetThrottle(0));
    assert_eq!(key_command(s, ControlKey::ArrowLeft, true), KeyCommand::SetSteering(-1));
    assert_eq!(key_command(s, ControlKey::ArrowRight, true), KeyCommand::SetSteering(1));
    assert_eq!(key_command(s, ControlKey::ArrowRight, false), KeyCommand::SetSteering(0));
    assert_eq!(key_command(s, ControlKey::Space, true), KeyCommand::SetBrake(1));
    assert_eq!(key_command(s, ControlKey::Space, false), KeyCommand::SetBrake(0));
}

#[test]
fn letter_keys_in_either_case() {
    let s = MenuState::InGame;
    assert_eq!(key_command(s, ControlKey::Character('r'), true), KeyCommand::ResetVehicle);
    assert_eq!(key_command(s, ControlKey::Character('R'), true), KeyCommand::ResetVehicle);
    assert_eq!(key_command(s, ControlKey::Character('E'), true), KeyCommand::CargoAction);
    assert_eq!(key_command(s, ControlKey::Character('c'), true), KeyCommand::SwitchCamera);
    assert_eq!(key_command(s, ControlKey::Character('r'), false), KeyCommand::Nothing);
    assert_eq!(key_command(s, ControlKey::Character('x'), true), KeyCommand::Nothing);
    assert_eq!(key_command(s, ControlKey::Other, true), KeyCommand::Nothing);
}

#[test]
fn number_keys_on_the_main_menu() {
    let m = MenuState::MainMenu;
    assert_eq!(key_command(m, ControlKey::Character('1'), true), KeyCommand::OpenMenu(MenuState::WorldCreation));
    assert_eq!(key_command(m, ControlKey::Character('2'), true), KeyCommand::OpenMenu(MenuState::CitySelection));
    assert_eq!(key_command(m, ControlKey::Character('3'), true), KeyCommand::OpenMenu(MenuState::Settings));
    assert_eq!(key_command(m, ControlKey::Character('4'), true), KeyCommand::Exit);
    assert_eq!(key_command(MenuState::CitySelection, ControlKey::Character('1'), true), KeyCommand::Nothing);
    assert_eq!(key_command(MenuState::InGame, ControlKey::Character('4'), true), KeyCommand::Nothing);
}

#[test]
fn cities_wrap_around() {
    assert_eq!(CITY_COUNT, 14);
    assert_eq!(next_city_index(0), 1);
    assert_eq!(next_city_index(13), 0);
    assert_eq!(prev_city_index(0), 13);
    assert_eq!(prev_city_index(5), 4);
    for i in 0..CITY_COUNT {
        assert_eq!(prev_city_index(next_city_index(i)), i);
        assert_eq!(next_city_index(prev_city_index(i)), i);
    }
}
