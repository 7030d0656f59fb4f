//! Conversion from the core's light model to the state triple a Tuya
//! bulb takes, and the default record used when a configured device
//! cannot be reached at registration. The wire protocol itself is the
//! adapter's business, outside the core.

use crate::device::{Device, DeviceColor, DeviceId, DeviceState, DeviceStateView, IntegrationId,
    Light};
use vstd::prelude::*;

verus! {

/// Per-device connection settings for a Tuya bulb, as configured.
#[derive(Clone, Debug)]
pub struct TuyaDeviceConfig {
    pub name: String,
    pub local_key: String,
    pub ip: String,
    pub power_on_field: String,
    pub brightness_field: String,
    pub color_temp_field: String,
}

/// The state triple a Tuya bulb takes: power, brightness on the bulb's
/// 10..=1000 scale, and color temperature on its 0..=1000 scale.
#[derive(Clone, Copy, Debug)]
pub struct TuyaState {
    pub power_on: bool,
    pub brightness: u32,
    pub color_temperature: u32,
}

/// Why a device record cannot be expressed as a Tuya state.
#[derive(Clone, Copy, Debug)]
pub enum TuyaError {
    /// Only lights can be pushed to a Tuya bulb.
    UnsupportedDeviceState,
}

/// Whether a light's scaled quantities are within their ranges; the
/// core's brightness and color components live in 0..=1000.
pub open spec fn spec_light_in_range(l: Light) -> bool {
    &&& (match l.brightness {
        Some(b) => b <= 1000,
        None => true,
    })
    &&& (match l.color {
        Some(DeviceColor::Hsv(h)) => h.value <= 1000,
        None => true,
    })
}

/// The bulb's brightness for a light: the light's brightness — full
/// scale when absent — weighted by the color's value component, put on
/// the bulb's 10..=1000 scale.
pub open spec fn spec_tuya_brightness(l: Light) -> int {
    let b = (match l.brightness {
        Some(b) => b as int,
        None => 1000,
    });
    let v = (match l.color {
        Some(DeviceColor::Hsv(h)) => h.value as int,
        None => 1000,
    });
    (b * v / 1000) * 990 / 1000 + 10
}

/// The bulb's color temperature for a light: the Kelvin value — 4000 K
/// when absent — mapped onto the bulb's supported 2700 K..=4100 K band
/// and scaled to 0..=1000.
pub open spec fn spec_tuya_color_temperature(l: Light) -> int {
    let cct = (match l.cct {
        Some(c) => c.cct as int,
        None => 4000,
    });
    let clamped = if cct < 2700 {
        2700
    } else if cct > 4100 {
        4100
    } else {
        cct
    };
    (clamped - 2700) * 1000 / 1400
}

/// Expresses a device record as the state triple a Tuya bulb takes; a
/// record that is not a light is reported, never pushed.
pub fn to_tuya_state(device: &Device) -> (r: Result<TuyaState, TuyaError>)
    requires
        (match device.state {
            DeviceState::Light(l) => spec_light_in_range(l),
            DeviceState::Sensor(_) => true,
        }),
    ensures
        (match device.state {
            DeviceState::Light(l) => r matches Ok(t) && t.power_on == l.power && t.brightness
                as int == spec_tuya_brightness(l) && t.color_temperature as int
                == spec_tuya_color_temperature(l),
            DeviceState::Sensor(_) => r is Err,
        }),
{
    let light = match &device.state {
        DeviceState::Light(l) => *l,
        DeviceState::Sensor(_) => {
            return Err(TuyaError::UnsupportedDeviceState);
        },
    };
    let b: u32 = match light.brightness {
        Some(b) => b as u32,
        None => 1000,
    };
    let v: u32 = match light.color {
        Some(DeviceColor::Hsv(h)) => h.value as u32,
        None => 1000,
    };
    proof {
        assert(b <= 1000);
        assert(v <= 1000);
        assert(b * v <= 1000000) by (nonlinear_arith)
            requires
                b <= 1000,
                v <= 1000,
        ;
    }
    let brightness: u32 = (b * v / 1000) * 990 / 1000 + 10;
    let cct: u32 = match light.cct {
        Some(c) => c.cct,
        None => 4000,
    };
    let clamped: u32 = if cct < 2700 {
        2700
    } else if cct > 4100 {
        4100
    } else {
        cct
    };
    let color_temperature: u32 = (clamped - 2700) * 1000 / 1400;
    Ok(TuyaState { power_on: light.power, brightness, color_temperature })
}

/// The bulb's reported brightness on the core's 0..=1000 scale: the
/// bulb reports 10..=1000, an absent or out-of-band report counts as
/// full scale, and a report below the band's floor as darkness.
pub open spec fn spec_brightness_from_tuya(value: Option<u64>) -> int {
    let v = (match value {
        Some(v) => if v > 1000 {
            1000
        } else {
            v as int
        },
        None => 1000,
    });
    if v < 10 {
        0
    } else {
        (v - 10) * 1000 / 990
    }
}

/// The bulb's reported color temperature in Kelvin: its 0..=1000 scale
/// mapped back onto the supported 2700 K..=4100 K band; an absent or
/// out-of-band report counts as the band's ceiling.
pub open spec fn spec_cct_from_tuya(value: Option<u64>) -> int {
    let v = (match value {
        Some(v) => if v > 1000 {
            1000
        } else {
            v as int
        },
        None => 1000,
    });
    v * 1400 / 1000 + 2700
}

/// The device record a successful poll resolves to, once the adapter
/// has read the bulb's reported power, brightness and color-temperature
/// values out of the wire payload.
pub fn tuya_device_from_poll(
    device_id: DeviceId,
    name: String,
    integration_id: IntegrationId,
    power: Option<bool>,
    brightness: Option<u64>,
    color_temp: Option<u64>,
) -> (r: Device)
    ensures
        r@.id == device_id@,
        r@.name == name@,
        r@.integration_id == integration_id@,
        r@.scene is None,
        (match r@.state {
            DeviceStateView::Light(l) => {
                &&& l.power == (match power {
                    Some(p) => p,
                    None => true,
                })
                &&& (match brightness {
                    Some(_) => l.brightness == Some(
                        spec_brightness_from_tuya(brightness) as u16,
                    ),
                    None => l.brightness is None,
                })
                &&& (match color_temp {
                    Some(_) => l.cct matches Some(c) && c.cct as int == spec_cct_from_tuya(
                        color_temp,
                    ) && c.start == 2700 && c.end == 4100,
                    None => l.cct is None,
                })
                &&& l.color is None
                &&& l.transition_ms == Some(1000u64)
            },
            DeviceStateView::Sensor(_) => false,
        }),
{
    let power_on = match power {
        Some(p) => p,
        None => true,
    };
    let bri: Option<u16> = match brightness {
        Some(v) => {
            let clamped: u64 = if v > 1000 {
                1000
            } else {
                v
            };
            if clamped < 10 {
                Some(0)
            } else {
                Some((((clamped - 10) * 1000 / 990) as u16))
            }
        },
        None => None,
    };
    let cct = match color_temp {
        Some(v) => {
            let clamped: u64 = if v > 1000 {
                1000
            } else {
                v
            };
            Some(
                crate::device::CorrelatedColorTemperature::new(
                    (clamped * 1400 / 1000 + 2700) as u32,
                    2700,
                    4100,
                ),
            )
        },
        None => None,
    };
    Device {
        id: device_id,
        name,
        integration_id,
        scene: None,
        state: DeviceState::Light(Light::new_with_cct(power_on, bri, cct, Some(1000))),
    }
}

/// The record a configured device falls back to when its initial state
/// cannot be read at registration: a light that is off and otherwise
/// unset, so startup never fails on an unreachable bulb.
pub fn default_device(device_id: DeviceId, name: String, integration_id: IntegrationId) -> (r:
    Device)
    ensures
        r@.id == device_id@,
        r@.name == name@,
        r@.integration_id == integration_id@,
        r@.scene is None,
        r@.state == crate::device::DeviceStateView::Light(
            Light {
                power: false,
                brightness: None,
                color: None,
                cct: None,
                transition_ms: None,
            },
        ),
{
    Device {
        id: device_id,
        name,
        integration_id,
        scene: None,
        state: DeviceState::Light(
            Light { power: false, brightness: None, color: None, cct: None, transition_ms: None },
        ),
    }
}

/// The record registration files for a configured device: what the
/// device reported when it could be read, the documented default
/// otherwise — discovery is best-effort and never fails startup.
pub fn register_device(
    device_id: DeviceId,
    name: String,
    integration_id: IntegrationId,
    fetched: Option<Device>,
) -> (r: Device)
    ensures
        (match fetched {
            Some(d) => r@ == d@,
            None => {
                &&& r@.id == device_id@
                &&& r@.name == name@
                &&& r@.integration_id == integration_id@
                &&& r@.scene is None
                &&& r@.state == crate::device::DeviceStateView::Light(
                    Light {
                        power: false,
                        brightness: None,
                        color: None,
                        cct: None,
                        transition_ms: None,
                    },
                )
            },
        }),
{
    match fetched {
        Some(d) => d,
        None => default_device(device_id, name, integration_id),
    }
}

} // verus!
