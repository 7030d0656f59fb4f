//! Conversion from a Hue bridge light record to the core's device model.
//! The bridge reports hue in 1/65536 turns and saturation/brightness as
//! 0..=254; the core carries hue in degrees and the rest in thousandths.
//! Color-space conversion proper is outside the core.

use crate::device::{DeviceColor, Hsv, Light};
use vstd::prelude::*;

verus! {

/// The state block of a light as the Hue bridge reports it.
#[derive(Clone, Copy, Debug)]
pub struct BridgeLightState {
    pub on: bool,
    pub hue: Option<u16>,
    pub sat: Option<u8>,
    pub bri: Option<u8>,
}

/// A light as the Hue bridge reports it.
#[derive(Clone, Copy, Debug)]
pub struct BridgeLight {
    pub state: BridgeLightState,
}

/// The core's color components for a bridge report: hue scaled to
/// degrees, saturation and brightness to thousandths; nothing when any
/// component is missing.
pub open spec fn spec_bridge_color(bridge_light: BridgeLight) -> Option<DeviceColor> {
    match (bridge_light.state.hue, bridge_light.state.sat, bridge_light.state.bri) {
        (Some(h), Some(s), Some(b)) => {
            let hue = if h * 360 / 65536 > 360 {
                360
            } else {
                h * 360 / 65536
            };
            let sat = if s * 1000 / 254 > 1000 {
                1000
            } else {
                s * 1000 / 254
            };
            let val = if b * 1000 / 254 > 1000 {
                1000
            } else {
                b * 1000 / 254
            };
            Some(
                DeviceColor::Hsv(
                    Hsv { hue: hue as u16, saturation: sat as u16, value: val as u16 },
                ),
            )
        },
        _ => None,
    }
}

/// Scales a bridge color report into the core's components.
pub fn bridge_color(bridge_light: BridgeLight) -> (r: Option<DeviceColor>)
    ensures
        r == spec_bridge_color(bridge_light),
{
    match (bridge_light.state.hue, bridge_light.state.sat, bridge_light.state.bri) {
        (Some(h), Some(s), Some(b)) => {
            let hue32: u32 = h as u32 * 360 / 65536;
            let hue: u32 = if hue32 > 360 {
                360
            } else {
                hue32
            };
            let sat32: u32 = s as u32 * 1000 / 254;
            let sat: u32 = if sat32 > 1000 {
                1000
            } else {
                sat32
            };
            let val32: u32 = b as u32 * 1000 / 254;
            let val: u32 = if val32 > 1000 {
                1000
            } else {
                val32
            };
            Some(DeviceColor::Hsv(Hsv { hue: hue as u16, saturation: sat as u16, value: val as u16 }))
        },
        _ => None,
    }
}

/// The core's light record for a bridge report: the bridge's power flag
/// and scaled color components; the record carries no brightness of its
/// own, brightness rides in the color's value component.
pub open spec fn spec_to_light(bridge_light: BridgeLight) -> Light {
    Light {
        power: bridge_light.state.on,
        brightness: None,
        color: spec_bridge_color(bridge_light),
        cct: None,
        transition_ms: None,
    }
}

/// Converts a bridge light report to the core's light record.
pub fn to_light(bridge_light: BridgeLight) -> (r: Light)
    ensures
        r == spec_to_light(bridge_light),
{
    Light {
        power: bridge_light.state.on,
        brightness: None,
        color: bridge_color(bridge_light),
        cct: None,
        transition_ms: None,
    }
}

} // verus!
