//! The random-color demo integration's device model: the record it
//! announces on each poll tick, built from a color its caller has drawn.
//! Drawing the color is the caller's business — randomness has no place
//! in the core — and the configured brightness band is clamped here
//! before any draw uses it.

use crate::device::{Device, DeviceColor, DeviceId, DeviceState, DeviceStateView, IntegrationId,
    Light};
use vstd::prelude::*;

verus! {

/// A configured bound clamped into the valid 0..=1000 band.
pub open spec fn spec_clamped_bound(bound: Option<u16>, missing: u16) -> u16 {
    match bound {
        Some(b) => if b > 1000 {
            1000u16
        } else {
            b
        },
        None => missing,
    }
}

/// The brightness band a random draw must stay in: the configured
/// bounds clamped into 0..=1000, the whole band when unconfigured.
pub fn random_brightness_range(min_brightness: Option<u16>, max_brightness: Option<u16>) -> (r: (
    u16,
    u16,
))
    ensures
        r.0 == spec_clamped_bound(min_brightness, 0),
        r.1 == spec_clamped_bound(max_brightness, 1000),
        r.0 <= 1000,
        r.1 <= 1000,
{
    let lo = match min_brightness {
        Some(b) => if b > 1000 {
            1000
        } else {
            b
        },
        None => 0,
    };
    let hi = match max_brightness {
        Some(b) => if b > 1000 {
            1000
        } else {
            b
        },
        None => 1000,
    };
    (lo, hi)
}

/// The record the integration announces on each tick: a full-on light
/// carrying the drawn color, always under the fixed device id.
pub fn mk_random_device(device_name: String, integration_id: IntegrationId, color: DeviceColor)
    -> (r: Device)
    ensures
        r@.id == "color"@,
        r@.name == device_name@,
        r@.integration_id == integration_id@,
        r@.scene is None,
        r@.state == DeviceStateView::Light(
            Light {
                power: true,
                brightness: Some(1000u16),
                color: Some(color),
                cct: None,
                transition_ms: Some(1000u64),
            },
        ),
{
    Device {
        id: DeviceId::new("color".to_owned()),
        name: device_name,
        integration_id,
        scene: None,
        state: DeviceState::Light(Light::new(true, Some(1000), Some(color), Some(1000))),
    }
}

} // verus!
