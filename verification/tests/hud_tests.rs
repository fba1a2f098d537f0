use rtgc_siberian_cities::hud::{flash_element_for, GearState, HudFlashElement, HudLayout};

#[test]
fn gear_defaults_to_neutral() {
    assert_eq!(GearState::default(), GearState::Neutral);
    assert_ne!(GearState::Drive(3), GearState::Drive(4));
}

#[test]
fn layout_shows_everything_full_size() {
    let layout = HudLayout::default();
    assert!(layout.show_speed);
    assert!(layout.show_gear);
    assert!(layout.show_fuel);
    assert!(layout.show_diff_status);
    assert!(layout.show_wheel_status);
    assert!(layout.show_cargo);
    assert!(layout.show_terrain_angle);
    assert!(!layout.compact_mode);
    assert!(layout.show_minimap);
}

#[test]
fn fuel_reserve_comes_first() {
    assert_eq!(flash_element_for(true, true, [true; 4]), Some(HudFlashElement::FuelReserve));
    assert_eq!(flash_element_for(true, false, [false; 4]), Some(HudFlashElement::FuelReserve));
}

#[test]
fn overheating_before_wheel_slip() {
    assert_eq!(flash_element_for(false, true, [true; 4]), Some(HudFlashElement::EngineOverheat));
}

#[test]
fn first_slipping_wheel() {
    assert_eq!(flash_element_for(false, false, [false, false, true, true]), Some(HudFlashElement::WheelSlip(2)));
    assert_eq!(flash_element_for(false, false, [true, false, false, true]), Some(HudFlashElement::WheelSlip(0)));
    assert_eq!(flash_element_for(false, false, [false, false, false, true]), Some(HudFlashElement::WheelSlip(3)));
    assert_eq!(flash_element_for(false, false, [false; 4]), None);
}
