//! The device model: identities, light and sensor state, and the device
//! store mapping (`DevicesState`). All quantities are plain integers —
//! brightness, color components and the like are carried in thousandths
//! of full scale — so that states can be compared exactly.

use crate::kvmap::{KeyView, KvMap};
use crate::scene::SceneId;
use vstd::prelude::*;

verus! {

/// Identity of a configured integration.
#[derive(Debug)]
pub struct IntegrationId(pub String);

impl View for IntegrationId {
    type V = Seq<char>;

    open spec fn view(&self) -> Seq<char> {
        self.0@
    }
}

impl IntegrationId {
    pub fn new(s: String) -> (r: Self)
        ensures
            r@ == s@,
    {
        IntegrationId(s)
    }
}

impl Clone for IntegrationId {
    fn clone(&self) -> (r: Self)
        ensures
            r@ == self@,
    {
        IntegrationId(self.0.clone())
    }
}

/// Identity of a device within its integration.
#[derive(Debug)]
pub struct DeviceId(pub String);

impl View for DeviceId {
    type V = Seq<char>;

    open spec fn view(&self) -> Seq<char> {
        self.0@
    }
}

impl DeviceId {
    pub fn new(s: String) -> (r: Self)
        ensures
            r@ == s@,
    {
        DeviceId(s)
    }
}

impl Clone for DeviceId {
    fn clone(&self) -> (r: Self)
        ensures
            r@ == self@,
    {
        DeviceId(self.0.clone())
    }
}

/// Unique identity of a device: integration plus device id.
pub ghost struct DeviceKeyView {
    pub integration_id: Seq<char>,
    pub device_id: Seq<char>,
}

#[derive(Debug)]
pub struct DeviceKey {
    pub integration_id: IntegrationId,
    pub device_id: DeviceId,
}

impl View for DeviceKey {
    type V = DeviceKeyView;

    open spec fn view(&self) -> DeviceKeyView {
        DeviceKeyView { integration_id: self.integration_id@, device_id: self.device_id@ }
    }
}

impl DeviceKey {
    pub fn new(integration_id: IntegrationId, device_id: DeviceId) -> (r: Self)
        ensures
            r@ == (DeviceKeyView { integration_id: integration_id@, device_id: device_id@ }),
    {
        DeviceKey { integration_id, device_id }
    }
}

impl Clone for DeviceKey {
    fn clone(&self) -> (r: Self)
        ensures
            r@ == self@,
    {
        DeviceKey { integration_id: self.integration_id.clone(), device_id: self.device_id.clone() }
    }
}

impl KeyView for DeviceKey {
    fn key_eq(&self, other: &Self) -> (r: bool)
        ensures
            r == (self@ == other@),
    {
        self.integration_id.0 == other.integration_id.0 && self.device_id.0 == other.device_id.0
    }
}

/// A color as hue in degrees and saturation/value in thousandths.
#[derive(Clone, Copy, Debug)]
pub struct Hsv {
    pub hue: u16,
    pub saturation: u16,
    pub value: u16,
}

/// Closed union of the color forms a device can carry.
#[derive(Clone, Copy, Debug)]
pub enum DeviceColor {
    Hsv(Hsv),
}

/// A correlated color temperature in Kelvin, together with the range the
/// device supports.
#[derive(Clone, Copy, Debug)]
pub struct CorrelatedColorTemperature {
    pub cct: u32,
    pub start: u32,
    pub end: u32,
}

impl CorrelatedColorTemperature {
    pub fn new(cct: u32, start: u32, end: u32) -> (r: Self)
        ensures
            r == (CorrelatedColorTemperature { cct, start, end }),
    {
        CorrelatedColorTemperature { cct, start, end }
    }

    pub fn get_cct(&self) -> (r: u32)
        ensures
            r == self.cct,
    {
        self.cct
    }
}

/// State of a light. Brightness is in thousandths of full scale.
#[derive(Clone, Copy, Debug)]
pub struct Light {
    pub power: bool,
    pub brightness: Option<u16>,
    pub color: Option<DeviceColor>,
    pub cct: Option<CorrelatedColorTemperature>,
    pub transition_ms: Option<u64>,
}

impl Light {
    pub fn new(
        power: bool,
        brightness: Option<u16>,
        color: Option<DeviceColor>,
        transition_ms: Option<u64>,
    ) -> (r: Self)
        ensures
            r == (Light { power, brightness, color, cct: None, transition_ms }),
    {
        Light { power, brightness, color, cct: None, transition_ms }
    }

    pub fn new_with_cct(
        power: bool,
        brightness: Option<u16>,
        cct: Option<CorrelatedColorTemperature>,
        transition_ms: Option<u64>,
    ) -> (r: Self)
        ensures
            r == (Light { power, brightness, color: None, cct, transition_ms }),
    {
        Light { power, brightness, color: None, cct, transition_ms }
    }
}

/// Payload of a sensor reading.
#[derive(Debug)]
pub enum SensorDevice {
    Boolean { value: bool },
    Text { value: String },
    Number { value: i64 },
}

pub ghost enum SensorDeviceView {
    Boolean { value: bool },
    Text { value: Seq<char> },
    Number { value: i64 },
}

impl View for SensorDevice {
    type V = SensorDeviceView;

    open spec fn view(&self) -> SensorDeviceView {
        match self {
            SensorDevice::Boolean { value } => SensorDeviceView::Boolean { value: *value },
            SensorDevice::Text { value } => SensorDeviceView::Text { value: value@ },
            SensorDevice::Number { value } => SensorDeviceView::Number { value: *value },
        }
    }
}

impl Clone for SensorDevice {
    fn clone(&self) -> (r: Self)
        ensures
            r@ == self@,
    {
        match self {
            SensorDevice::Boolean { value } => SensorDevice::Boolean { value: *value },
            SensorDevice::Text { value } => SensorDevice::Text { value: value.clone() },
            SensorDevice::Number { value } => SensorDevice::Number { value: *value },
        }
    }
}

/// Closed union of the state a device can be in.
#[derive(Debug)]
pub enum DeviceState {
    Light(Light),
    Sensor(SensorDevice),
}

pub ghost enum DeviceStateView {
    Light(Light),
    Sensor(SensorDeviceView),
}

impl View for DeviceState {
    type V = DeviceStateView;

    open spec fn view(&self) -> DeviceStateView {
        match self {
            DeviceState::Light(l) => DeviceStateView::Light(*l),
            DeviceState::Sensor(s) => DeviceStateView::Sensor(s@),
        }
    }
}

impl Clone for DeviceState {
    fn clone(&self) -> (r: Self)
        ensures
            r@ == self@,
    {
        match self {
            DeviceState::Light(l) => DeviceState::Light(*l),
            DeviceState::Sensor(s) => DeviceState::Sensor(s.clone()),
        }
    }
}

/// A device record: identity, display name, active scene and state.
pub ghost struct DeviceView {
    pub id: Seq<char>,
    pub name: Seq<char>,
    pub integration_id: Seq<char>,
    pub scene: Option<Seq<char>>,
    pub state: DeviceStateView,
}

impl DeviceView {
    /// The identity under which the device store files this record.
    pub open spec fn key(self) -> DeviceKeyView {
        DeviceKeyView { integration_id: self.integration_id, device_id: self.id }
    }

    /// Whether the device reports itself powered on; meaningless for sensors.
    pub open spec fn powered_on(self) -> Option<bool> {
        match self.state {
            DeviceStateView::Light(l) => Some(l.power),
            DeviceStateView::Sensor(_) => None,
        }
    }

    /// The sensor payload, if this device is a sensor.
    pub open spec fn sensor_state(self) -> Option<SensorDeviceView> {
        match self.state {
            DeviceStateView::Light(_) => None,
            DeviceStateView::Sensor(s) => Some(s),
        }
    }
}

#[derive(Debug)]
pub struct Device {
    pub id: DeviceId,
    pub name: String,
    pub integration_id: IntegrationId,
    pub scene: Option<SceneId>,
    pub state: DeviceState,
}

impl View for Device {
    type V = DeviceView;

    open spec fn view(&self) -> DeviceView {
        DeviceView {
            id: self.id@,
            name: self.name@,
            integration_id: self.integration_id@,
            scene: match self.scene {
                Some(s) => Some(s@),
                None => None,
            },
            state: self.state@,
        }
    }
}

impl Clone for Device {
    fn clone(&self) -> (r: Self)
        ensures
            r@ == self@,
    {
        Device {
            id: self.id.clone(),
            name: self.name.clone(),
            integration_id: self.integration_id.clone(),
            scene: match &self.scene {
                Some(s) => Some(s.clone()),
                None => None,
            },
            state: self.state.clone(),
        }
    }
}

impl Device {
    /// The identity under which the device store files this record.
    pub fn get_device_key(&self) -> (r: DeviceKey)
        ensures
            r@ == self@.key(),
    {
        DeviceKey { integration_id: self.integration_id.clone(), device_id: self.id.clone() }
    }

    pub fn get_scene(&self) -> (r: Option<SceneId>)
        ensures
            (match r {
                Some(s) => self@.scene == Some(s@),
                None => self@.scene is None,
            }),
    {
        match &self.scene {
            Some(s) => Some(s.clone()),
            None => None,
        }
    }

    pub fn get_sensor_state(&self) -> (r: Option<&SensorDevice>)
        ensures
            (match r {
                Some(s) => self@.sensor_state() == Some(s@),
                None => self@.sensor_state() is None,
            }),
    {
        match &self.state {
            DeviceState::Light(_) => None,
            DeviceState::Sensor(s) => Some(s),
        }
    }

    pub fn is_powered_on(&self) -> (r: Option<bool>)
        ensures
            r == self@.powered_on(),
    {
        match &self.state {
            DeviceState::Light(l) => Some(l.power),
            DeviceState::Sensor(_) => None,
        }
    }
}

pub fn color_eq(a: &DeviceColor, b: &DeviceColor) -> (r: bool)
    ensures
        r == (*a == *b),
{
    match (a, b) {
        (DeviceColor::Hsv(x), DeviceColor::Hsv(y)) => x.hue == y.hue && x.saturation
            == y.saturation && x.value == y.value,
    }
}

pub fn light_eq(a: &Light, b: &Light) -> (r: bool)
    ensures
        r == (*a == *b),
{
    let powers = a.power == b.power;
    let brightnesses = match (a.brightness, b.brightness) {
        (Some(x), Some(y)) => x == y,
        (None, None) => true,
        _ => false,
    };
    let colors = match (&a.color, &b.color) {
        (Some(x), Some(y)) => color_eq(x, y),
        (None, None) => true,
        _ => false,
    };
    let ccts = match (a.cct, b.cct) {
        (Some(x), Some(y)) => x.cct == y.cct && x.start == y.start && x.end == y.end,
        (None, None) => true,
        _ => false,
    };
    let transitions = match (a.transition_ms, b.transition_ms) {
        (Some(x), Some(y)) => x == y,
        (None, None) => true,
        _ => false,
    };
    powers && brightnesses && colors && ccts && transitions
}

pub fn sensor_eq(a: &SensorDevice, b: &SensorDevice) -> (r: bool)
    ensures
        r == (a@ == b@),
{
    match (a, b) {
        (SensorDevice::Boolean { value: x }, SensorDevice::Boolean { value: y }) => x == y,
        (SensorDevice::Text { value: x }, SensorDevice::Text { value: y }) => *x == *y,
        (SensorDevice::Number { value: x }, SensorDevice::Number { value: y }) => x == y,
        _ => false,
    }
}

pub fn state_eq(a: &DeviceState, b: &DeviceState) -> (r: bool)
    ensures
        r == (a@ == b@),
{
    match (a, b) {
        (DeviceState::Light(x), DeviceState::Light(y)) => light_eq(x, y),
        (DeviceState::Sensor(x), DeviceState::Sensor(y)) => sensor_eq(x, y),
        _ => false,
    }
}

pub fn device_eq(a: &Device, b: &Device) -> (r: bool)
    ensures
        r == (a@ == b@),
{
    let scenes = match (&a.scene, &b.scene) {
        (Some(x), Some(y)) => x.0 == y.0,
        (None, None) => true,
        _ => false,
    };
    a.id.0 == b.id.0 && a.name == b.name && a.integration_id.0 == b.integration_id.0 && scenes
        && state_eq(&a.state, &b.state)
}

/// The authoritative mapping from device key to last-known device record.
pub type DevicesState = KvMap<DeviceKey, Device>;

/// Looks a device up in a state snapshot, cloning the record.
pub fn find_device(state: &DevicesState, key: &DeviceKey) -> (r: Option<Device>)
    requires
        state.wf(),
    ensures
        (match r {
            Some(d) => state@.contains_key(key@) && d@ == state@[key@],
            None => !state@.contains_key(key@),
        }),
{
    match state.get(key) {
        Some(d) => Some(d.clone()),
        None => None,
    }
}

/// Whether a key list names a key.
pub fn keys_contain(keys: &Vec<DeviceKey>, key: &DeviceKey) -> (r: bool)
    ensures
        r == exists|i: int| 0 <= i < keys@.len() && keys@[i]@ == key@,
{
    let n = keys.len();
    let mut i: usize = 0;
    while i < n
        invariant
            n == keys@.len(),
            0 <= i <= n,
            forall|j: int| 0 <= j < i ==> keys@[j]@ != key@,
        decreases n - i,
    {
        if keys[i].key_eq(key) {
            return true;
        }
        i += 1;
    }
    false
}

/// Clones a state snapshot; the copy describes the same mapping.
pub fn clone_devices_state(s: &DevicesState) -> (r: DevicesState)
    requires
        s.wf(),
    ensures
        r.wf(),
        r@ == s@,
{
    let mut entries: Vec<(DeviceKey, Device)> = Vec::new();
    let n = s.entries.len();
    let mut i: usize = 0;
    while i < n
        invariant
            s.wf(),
            n == s.entries@.len(),
            0 <= i <= n,
            entries@.len() == i,
            forall|j: int|
                0 <= j < i ==> (#[trigger] entries@[j]).0@ == s.entries@[j].0@ && entries@[j].1@
                    == s.entries@[j].1@,
        decreases n - i,
    {
        let entry = &s.entries[i];
        entries.push((entry.0.clone(), entry.1.clone()));
        i += 1;
    }
    proof {
        crate::kvmap::lemma_map_of_congruence::<DeviceKey, Device>(entries@, s.entries@);
        assert forall|a: int, b: int| 0 <= a < b < entries@.len() implies entries@[a].0@
            != entries@[b].0@ by {
            assert(s.entries@[a].0@ != s.entries@[b].0@);
        }
    }
    KvMap { entries }
}

/// Decides whether two snapshots hold exactly the same devices.
pub fn states_equal(a: &DevicesState, b: &DevicesState) -> (r: bool)
    requires
        a.wf(),
        b.wf(),
    ensures
        r == (a@ == b@),
{
    let n_a = a.num_entries();
    let n_b = b.num_entries();
    let mut i: usize = 0;
    while i < n_a
        invariant
            a.wf(),
            b.wf(),
            n_a == a.entries_seq().len(),
            0 <= i <= n_a,
            forall|j: int|
                0 <= j < i ==> {
                    &&& b@.contains_key(#[trigger] a.entries_seq()[j].0@)
                    &&& b@[a.entries_seq()[j].0@] == a.entries_seq()[j].1@
                },
        decreases n_a - i,
    {
        let entry = a.entry_at(i);
        proof {
            a.lemma_entry_in_view(i as int);
        }
        match b.get(&entry.0) {
            Some(d) => {
                if !device_eq(&entry.1, d) {
                    proof {
                        assert(a@[a.entries_seq()[i as int].0@] == a.entries_seq()[i as int].1@);
                    }
                    return false;
                }
            },
            None => {
                return false;
            },
        }
        i += 1;
    }
    let mut i: usize = 0;
    while i < n_b
        invariant
            a.wf(),
            b.wf(),
            n_a == a.entries_seq().len(),
            n_b == b.entries_seq().len(),
            0 <= i <= n_b,
            forall|j: int|
                0 <= j < n_a ==> {
                    &&& b@.contains_key(#[trigger] a.entries_seq()[j].0@)
                    &&& b@[a.entries_seq()[j].0@] == a.entries_seq()[j].1@
                },
            forall|j: int| 0 <= j < i ==> a@.contains_key(#[trigger] b.entries_seq()[j].0@),
        decreases n_b - i,
    {
        let entry = b.entry_at(i);
        proof {
            b.lemma_entry_in_view(i as int);
        }
        if !a.contains_key(&entry.0) {
            return false;
        }
        i += 1;
    }
    proof {
        assert forall|k: DeviceKeyView| #[trigger] a@.dom().contains(k) implies b@.dom().contains(
            k,
        ) && b@[k] == a@[k] by {
            a.lemma_contains(k);
            let j = choose|j: int| 0 <= j < a.entries_seq().len() && a.entries_seq()[j].0@ == k;
            a.lemma_entry_in_view(j);
            assert(b@.contains_key(k));
        }
        assert forall|k: DeviceKeyView| #[trigger] b@.dom().contains(k) implies a@.dom().contains(
            k,
        ) by {
            b.lemma_contains(k);
            let j = choose|j: int| 0 <= j < b.entries_seq().len() && b.entries_seq()[j].0@ == k;
            assert(a@.contains_key(b.entries_seq()[j].0@));
        }
        assert(a@ =~= b@);
    }
    true
}

} // verus!
