//! The parts of the head-up display that do not measure anything: the gear
//! indicator, which blocks are shown, and which warning blinks.

use vstd::prelude::*;

verus! {

/// The gear shown on the gear indicator.
#[derive(Debug, Clone, PartialEq, Eq, Structural)]
pub enum GearState {
    Park,
    Reverse,
    Neutral,
    /// Forward gear `1..8`.
    Drive(u8),
}

impl Default for GearState {
    /// Neutral.
    fn default() -> (r: Self)
        ensures
            r == GearState::Neutral,
    {
        GearState::Neutral
    }
}

/// Which blocks of the HUD are drawn.
#[derive(Debug, Clone)]
pub struct HudLayout {
    pub show_speed: bool,
    pub show_gear: bool,
    pub show_fuel: bool,
    pub show_diff_status: bool,
    pub show_wheel_status: bool,
    pub show_cargo: bool,
    pub show_terrain_angle: bool,
    /// Small version for small screens.
    pub compact_mode: bool,
    /// The right-hand block with the map.
    pub show_minimap: bool,
}

impl Default for HudLayout {
    /// Every block shown, in the full-size version.
    fn default() -> (r: Self)
        ensures
            r.show_speed,
            r.show_gear,
            r.show_fuel,
            r.show_diff_status,
            r.show_wheel_status,
            r.show_cargo,
            r.show_terrain_angle,
            !r.compact_mode,
            r.show_minimap,
    {
        HudLayout {
            show_speed: true,
            show_gear: true,
            show_fuel: true,
            show_diff_status: true,
            show_wheel_status: true,
            show_cargo: true,
            show_terrain_angle: true,
            compact_mode: false,
            show_minimap: true,
        }
    }
}

/// A HUD element that blinks to warn the driver.
#[derive(Debug, Clone, PartialEq, Eq, Structural)]
pub enum HudFlashElement {
    FuelReserve,
    EngineOverheat,
    /// Wheel `0..3` is slipping.
    WheelSlip(usize),
}

/// Whether some wheel slips before index `end`.
pub open spec fn slips_before(wheel_slipping: Seq<bool>, end: int) -> bool {
    exists|i: int| 0 <= i < end && #[trigger] wheel_slipping[i]
}

/// The warning that blinks: the fuel reserve first, then overheating, then
/// the first slipping wheel, or none.
pub open spec fn flash_choice(
    fuel_reserve: bool,
    engine_overheating: bool,
    wheel_slipping: Seq<bool>,
) -> Option<HudFlashElement> {
    if fuel_reserve {
        Some(HudFlashElement::FuelReserve)
    } else if engine_overheating {
        Some(HudFlashElement::EngineOverheat)
    } else if slips_before(wheel_slipping, wheel_slipping.len() as int) {
        let i = choose|i: int|
            0 <= i < wheel_slipping.len() && #[trigger] wheel_slipping[i] && !slips_before(
                wheel_slipping,
                i,
            );
        Some(HudFlashElement::WheelSlip(i as usize))
    } else {
        None
    }
}

/// The warning the HUD blinks for one frame of vehicle data: the fuel
/// reserve if it is reached, else engine overheating, else the first wheel
/// that slips (`wheel_slipping[i]` tells whether wheel `i` slips more than
/// the HUD's threshold), else nothing.
pub fn flash_element_for(
    fuel_reserve: bool,
    engine_overheating: bool,
    wheel_slipping: [bool; 4],
) -> (r: Option<HudFlashElement>)
    ensures
        fuel_reserve ==> r == Some(HudFlashElement::FuelReserve),
        !fuel_reserve && engine_overheating ==> r == Some(HudFlashElement::EngineOverheat),
        !fuel_reserve && !engine_overheating ==> match r {
            Some(HudFlashElement::WheelSlip(i)) => i < 4 && wheel_slipping@[i as int]
                && !slips_before(wheel_slipping@, i as int),
            Some(_) => false,
            None => !slips_before(wheel_slipping@, 4),
        },
        r == flash_choice(fuel_reserve, engine_overheating, wheel_slipping@),
{
    if fuel_reserve {
        return Some(HudFlashElement::FuelReserve);
    }
    if engine_overheating {
        return Some(HudFlashElement::EngineOverheat);
    }
    let mut i: usize = 0;
    while i < 4
        invariant
            i <= 4,
            !fuel_reserve,
            !engine_overheating,
            wheel_slipping@.len() == 4,
            !slips_before(wheel_slipping@, i as int),
        decreases 4 - i,
    {
        if wheel_slipping[i] {
            proof {
                let j = choose|j: int|
                    0 <= j < wheel_slipping@.len() && #[trigger] wheel_slipping@[j] && !slips_before(
                        wheel_slipping@,
                        j,
                    );
                assert(slips_before(wheel_slipping@, 4));
                if j < i {
                    assert(slips_before(wheel_slipping@, i as int));
                }
                if i < j {
                    assert(slips_before(wheel_slipping@, j));
                }
                assert(j == i);
            }
            return Some(HudFlashElement::WheelSlip(i));
        }
        proof {
            assert forall|k: int| 0 <= k < i + 1 implies !#[trigger] wheel_slipping@[k] by {
                if k < i {
                    if wheel_slipping@[k] {
                        assert(slips_before(wheel_slipping@, i as int));
                    }
                }
            }
        }
        i = i + 1;
    }
    None
}

} // verus!
