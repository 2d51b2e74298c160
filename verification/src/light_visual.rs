//! How a light is drawn.

use vstd::prelude::*;

verus! {

/// The warmest light that is drawn, in kelvin.
pub const WARMEST_KELVIN: u16 = 2700;

/// The coldest light that is drawn, in kelvin.
pub const COLDEST_KELVIN: u16 = 6500;

/// The light that is drawn where it is not known, in kelvin.
pub const NEUTRAL_KELVIN: u16 = 4600;

/// The settings of a light.
#[derive(Clone, Copy, Debug, PartialEq, Eq, Structural)]
pub struct LightSettings {
    pub brightness_percent: u8,
    pub temperature_kelvin: Option<u16>,
}

/// How a light is drawn.
#[derive(Clone, Copy, Debug, PartialEq, Eq, Structural)]
pub enum LightVisual {
    /// By the picture of its model.
    Product {
        /// Half as bright, since it is away.
        dimmed: bool,
    },
    /// As a disc that glows.
    Drawn {
        /// Half as bright, since it is away.
        dimmed: bool,
        /// Whether it glows.
        powered: bool,
        kelvin: u16,
        brightness_percent: u8,
    },
}

/// A temperature that can be drawn.
pub open spec fn drawn_kelvin(kelvin: Option<u16>) -> u16 {
    let k = match kelvin {
        Some(k) => k,
        None => NEUTRAL_KELVIN,
    };
    if k < WARMEST_KELVIN {
        WARMEST_KELVIN
    } else if k > COLDEST_KELVIN {
        COLDEST_KELVIN
    } else {
        k
    }
}

/// How a light is drawn: by the picture of its model, or, where there is none,
/// as a disc that glows as it is set.
pub fn light_visual(
    has_picture: bool,
    online: bool,
    enabled: bool,
    settings: LightSettings,
) -> (r: LightVisual)
    ensures
        r == (if has_picture {
            LightVisual::Product { dimmed: !online }
        } else {
            LightVisual::Drawn {
                dimmed: !online,
                powered: online && enabled,
                kelvin: drawn_kelvin(settings.temperature_kelvin),
                brightness_percent: if settings.brightness_percent > 100 {
                    100u8
                } else {
                    settings.brightness_percent
                },
            }
        }),
{
    if has_picture {
        return LightVisual::Product { dimmed: !online };
    }
    let wanted: u16 = match settings.temperature_kelvin {
        Some(kelvin) => kelvin,
        None => NEUTRAL_KELVIN,
    };
    let kelvin: u16 = if wanted < WARMEST_KELVIN {
        WARMEST_KELVIN
    } else if wanted > COLDEST_KELVIN {
        COLDEST_KELVIN
    } else {
        wanted
    };
    let brightness_percent: u8 = if settings.brightness_percent > 100 {
        100
    } else {
        settings.brightness_percent
    };
    LightVisual::Drawn { dimmed: !online, powered: online && enabled, kelvin, brightness_percent }
}

/// A light is drawn in its own white where that can be drawn, in the nearest that can
/// be where not, and in a neutral one where it has none.
pub proof fn a_light_is_drawn_in_its_white(kelvin: u16)
    ensures
        2700 <= kelvin <= 6500 ==> drawn_kelvin(Some(kelvin)) == kelvin,
        kelvin < 2700 ==> drawn_kelvin(Some(kelvin)) == 2700,
        kelvin > 6500 ==> drawn_kelvin(Some(kelvin)) == 6500,
        drawn_kelvin(None) == 4600,
{
}

} // verus!
