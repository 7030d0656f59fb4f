//! Dimming: descriptors naming which devices or groups to dim and by how
//! much, and the brightness arithmetic itself. Brightness steps are in
//! thousandths of full scale; results are clamped into the valid range
//! before they can reach hardware.

use crate::device::{Device, DeviceColor, DeviceKey, DeviceKeyView, DeviceState, DeviceView, Hsv,
    Light};
use crate::group::GroupId;
use crate::kvmap::KvMap;
use vstd::prelude::*;

verus! {

/// The step applied when a dim request names none, in thousandths.
pub const DEFAULT_DIM_STEP: i16 = -100;

/// Names the devices and groups a dim request applies to.
#[derive(Debug)]
pub struct DimDescriptor {
    /// Optionally only apply the dim to these devices.
    pub device_keys: Option<Vec<DeviceKey>>,
    /// Optionally only apply the dim to these groups.
    pub group_keys: Option<Vec<GroupId>>,
    /// The amount to dim, in thousandths of full scale.
    pub step: Option<i16>,
}

pub ghost struct DimDescriptorView {
    pub device_keys: Option<Seq<DeviceKeyView>>,
    pub group_keys: Option<Seq<Seq<char>>>,
    pub step: Option<i16>,
}

impl View for DimDescriptor {
    type V = DimDescriptorView;

    open spec fn view(&self) -> DimDescriptorView {
        DimDescriptorView {
            device_keys: match self.device_keys {
                Some(ks) => Some(ks@.map_values(|k: DeviceKey| k@)),
                None => None,
            },
            group_keys: match self.group_keys {
                Some(gs) => Some(gs@.map_values(|g: GroupId| g@)),
                None => None,
            },
            step: self.step,
        }
    }
}

impl Clone for DimDescriptor {
    fn clone(&self) -> (r: Self)
        ensures
            r@ == self@,
    {
        DimDescriptor {
            device_keys: match &self.device_keys {
                Some(ks) => Some(crate::group::clone_device_keys(ks)),
                None => None,
            },
            group_keys: match &self.group_keys {
                Some(gs) => Some(crate::group::clone_group_ids(gs)),
                None => None,
            },
            step: self.step,
        }
    }
}

/// Desired states keyed by device, as a dim configuration resolves to.
pub struct DimDeviceStates(pub KvMap<DeviceKey, DeviceState>);

/// A dim configuration resolved to concrete device keys.
pub struct FlattenedDimConfig {
    pub name: String,
    pub devices: DimDeviceStates,
    pub hidden: Option<bool>,
}

/// A link to another device: the dim reads its current state from
/// there, optionally overriding the brightness.
#[derive(Debug)]
pub struct DimDeviceLink {
    pub integration_id: crate::device::IntegrationId,
    pub device_id: Option<crate::device::DeviceId>,
    pub name: Option<String>,
    /// Overrides the linked brightness, in thousandths.
    pub brightness: Option<u16>,
}

/// The state a dim configuration holds for one device.
#[derive(Debug)]
pub struct DimDeviceState {
    pub power: bool,
    pub color: Option<ColorConfig>,
    pub brightness: Option<u16>,
    pub cct: Option<crate::device::CorrelatedColorTemperature>,
    pub transition_ms: Option<u64>,
}

/// What a dim configuration may hold per device: a link to another
/// device's state, a link to another dim, or a state of its own.
#[derive(Debug)]
pub enum DimDeviceConfig {
    DimDeviceLink(DimDeviceLink),
    DimLink(DimDescriptor),
    DimDeviceState(DimDeviceState),
}

/// Mathematical result of stepping a brightness: the sum clamped into the
/// valid range.
pub open spec fn spec_dim_brightness(brightness: u16, step: i16) -> int {
    let v = brightness + step;
    if v < 0 {
        0
    } else if v > 1000 {
        1000
    } else {
        v
    }
}

/// Steps a brightness, clamping the result into the valid range rather
/// than rejecting the request.
pub fn dim_brightness(brightness: u16, step: i16) -> (r: u16)
    ensures
        r as int == spec_dim_brightness(brightness, step),
{
    let v: i32 = brightness as i32 + step as i32;
    if v < 0 {
        0
    } else if v > 1000 {
        1000
    } else {
        v as u16
    }
}

/// A light after a dim step: brightness stepped and clamped, everything
/// else unchanged. A light without a brightness is left as it is.
pub open spec fn spec_dim_light(l: Light, step: i16) -> Light {
    match l.brightness {
        Some(b) => Light { brightness: Some(spec_dim_brightness(b, step) as u16), ..l },
        None => l,
    }
}

pub fn dim_light(l: Light, step: i16) -> (r: Light)
    ensures
        r == spec_dim_light(l, step),
{
    match l.brightness {
        Some(b) => Light { brightness: Some(dim_brightness(b, step)), ..l },
        None => l,
    }
}

/// A device record after a dim step; sensors are unaffected.
pub open spec fn spec_dim_device(d: Device, step: i16) -> Device {
    match d.state {
        DeviceState::Light(l) => Device { state: DeviceState::Light(spec_dim_light(l, step)), ..d },
        DeviceState::Sensor(_) => d,
    }
}

/// A device record after a dim step, over views; sensors are unaffected.
pub open spec fn spec_dim_device_view(d: DeviceView, step: i16) -> DeviceView {
    match d.state {
        crate::device::DeviceStateView::Light(l) => DeviceView {
            state: crate::device::DeviceStateView::Light(spec_dim_light(l, step)),
            ..d
        },
        crate::device::DeviceStateView::Sensor(_) => d,
    }
}

pub fn dim_device(d: Device, step: i16) -> (r: Device)
    ensures
        r == spec_dim_device(d, step),
        r@ == spec_dim_device_view(d@, step),
{
    match d.state {
        DeviceState::Light(l) => Device { state: DeviceState::Light(dim_light(l, step)), ..d },
        DeviceState::Sensor(_) => d,
    }
}

/// A color stated in the configuration file: either directly as hue,
/// saturation and value, or as red, green and blue channels. A color
/// stated in a lightness/chroma/hue space is converted to one of these
/// forms before it reaches the core: color-space conversion is the
/// configuration loader's business, outside this crate.
#[derive(Clone, Copy, Debug)]
pub enum ColorConfig {
    Hsv(Hsv),
    Rgb(Rgb),
}

/// A color as 8-bit red, green and blue channels.
#[derive(Clone, Copy, Debug)]
pub struct Rgb {
    pub red: u8,
    pub green: u8,
    pub blue: u8,
}

/// The hue/saturation/value form of an RGB color, components scaled to
/// degrees and thousandths, computed in integer arithmetic.
pub open spec fn spec_hsv_of_rgb(rgb: Rgb) -> Hsv {
    let r = rgb.red as int;
    let g = rgb.green as int;
    let b = rgb.blue as int;
    let cmax = if r >= g && r >= b {
        r
    } else if g >= b {
        g
    } else {
        b
    };
    let cmin = if r <= g && r <= b {
        r
    } else if g <= b {
        g
    } else {
        b
    };
    let delta = cmax - cmin;
    let value = if cmax * 1000 / 255 > 1000 {
        1000
    } else {
        cmax * 1000 / 255
    };
    let saturation = if cmax == 0 {
        0
    } else if delta * 1000 / cmax > 1000 {
        1000
    } else {
        delta * 1000 / cmax
    };
    let hue = if delta == 0 {
        0
    } else if cmax == r {
        if g >= b {
            (g - b) * 60 / delta
        } else {
            360 - (b - g) * 60 / delta
        }
    } else if cmax == g {
        if b >= r {
            120 + (b - r) * 60 / delta
        } else {
            120 - (r - b) * 60 / delta
        }
    } else {
        if r >= g {
            240 + (r - g) * 60 / delta
        } else {
            240 - (g - r) * 60 / delta
        }
    };
    Hsv { hue: hue as u16, saturation: saturation as u16, value: value as u16 }
}

/// Converts an RGB channel triple to the hue/saturation/value form.
pub fn hsv_of_rgb(rgb: Rgb) -> (res: Hsv)
    ensures
        res == spec_hsv_of_rgb(rgb),
{
    let r: i32 = rgb.red as i32;
    let g: i32 = rgb.green as i32;
    let b: i32 = rgb.blue as i32;
    let cmax: i32 = if r >= g && r >= b {
        r
    } else if g >= b {
        g
    } else {
        b
    };
    let cmin: i32 = if r <= g && r <= b {
        r
    } else if g <= b {
        g
    } else {
        b
    };
    let delta: i32 = cmax - cmin;
    let value: i32 = if cmax * 1000 / 255 > 1000 {
        1000
    } else {
        cmax * 1000 / 255
    };
    let saturation: i32 = if cmax == 0 {
        0
    } else if delta * 1000 / cmax > 1000 {
        1000
    } else {
        delta * 1000 / cmax
    };
    let hue: i32 = if delta == 0 {
        0
    } else if cmax == r {
        if g >= b {
            (g - b) * 60 / delta
        } else {
            360 - (b - g) * 60 / delta
        }
    } else if cmax == g {
        if b >= r {
            120 + (b - r) * 60 / delta
        } else {
            120 - (r - b) * 60 / delta
        }
    } else {
        if r >= g {
            240 + (r - g) * 60 / delta
        } else {
            240 - (g - r) * 60 / delta
        }
    };
    Hsv { hue: hue as u16, saturation: saturation as u16, value: value as u16 }
}

/// The device color a configured color stands for.
pub open spec fn spec_color_config_as_device_color(color_config: ColorConfig) -> DeviceColor {
    match color_config {
        ColorConfig::Hsv(hsv) => DeviceColor::Hsv(hsv),
        ColorConfig::Rgb(rgb) => DeviceColor::Hsv(spec_hsv_of_rgb(rgb)),
    }
}

pub fn color_config_as_device_color(color_config: ColorConfig) -> (r: DeviceColor)
    ensures
        r == spec_color_config_as_device_color(color_config),
{
    match color_config {
        ColorConfig::Hsv(hsv) => DeviceColor::Hsv(hsv),
        ColorConfig::Rgb(rgb) => DeviceColor::Hsv(hsv_of_rgb(rgb)),
    }
}

} // verus!
