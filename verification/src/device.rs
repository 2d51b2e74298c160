//! What is known of the devices of a host.

use std::cmp::Ordering;

use vstd::prelude::*;
use vstd::std_specs::cmp::{PartialEqSpec, PartialEqSpecImpl, PartialOrdSpec, PartialOrdSpecImpl};

use crate::data::Data;
use crate::glow::{GlowGeometry, GlowSeg};
use crate::keyed::Key;
use crate::text::{
    lemma_lex_irreflexive, lemma_lex_total, lemma_lex_transitive, lex_lt, text_before,
};

verus! {

/// What a device is.
#[derive(Clone, Copy, Debug, PartialEq, Eq, Structural)]
pub enum DeviceKind {
    Mouse,
    Keyboard,
    Camera,
    Light,
    /// Nothing that the device said tells.
    Unknown,
}

impl DeepView for DeviceKind {
    type V = DeviceKind;

    open spec fn deep_view(&self) -> DeviceKind {
        *self
    }
}

impl Data for DeviceKind {
    fn duplicate(&self) -> (r: Self) {
        *self
    }

    fn same(&self, other: &Self) -> (r: bool) {
        *self == *other
    }
}

/// A coarse charge level.
#[derive(Clone, Copy, Debug, PartialEq, Eq, Structural)]
pub enum BatteryLevel {
    Critical,
    Low,
    Good,
    Full,
    Unknown,
}

impl DeepView for BatteryLevel {
    type V = BatteryLevel;

    open spec fn deep_view(&self) -> BatteryLevel {
        *self
    }
}

impl Data for BatteryLevel {
    fn duplicate(&self) -> (r: Self) {
        *self
    }

    fn same(&self, other: &Self) -> (r: bool) {
        *self == *other
    }
}

/// What a battery is doing.
#[derive(Clone, Copy, Debug, PartialEq, Eq, Structural)]
pub enum BatteryStatus {
    Discharging,
    Charging,
    ChargingSlow,
    Full,
    Error,
    Unknown,
}

impl DeepView for BatteryStatus {
    type V = BatteryStatus;

    open spec fn deep_view(&self) -> BatteryStatus {
        *self
    }
}

impl Data for BatteryStatus {
    fn duplicate(&self) -> (r: Self) {
        *self
    }

    fn same(&self, other: &Self) -> (r: bool) {
        *self == *other
    }
}

/// A battery reading.
#[derive(Clone, Copy, Debug, PartialEq, Eq, Structural)]
pub struct BatteryInfo {
    pub percentage: u8,
    pub level: BatteryLevel,
    pub status: BatteryStatus,
}

impl DeepView for BatteryInfo {
    type V = BatteryInfo;

    open spec fn deep_view(&self) -> BatteryInfo {
        *self
    }
}

impl Data for BatteryInfo {
    fn duplicate(&self) -> (r: Self) {
        *self
    }

    fn same(&self, other: &Self) -> (r: bool) {
        *self == *other
    }
}

/// The links that a device can be on.
#[derive(Clone, Copy, Debug, PartialEq, Eq, Default, Structural)]
pub struct DeviceTransports {
    pub usb: bool,
    /// A receiver link.
    pub equad: bool,
    pub bluetooth: bool,
    pub btle: bool,
}

impl DeepView for DeviceTransports {
    type V = DeviceTransports;

    open spec fn deep_view(&self) -> DeviceTransports {
        *self
    }
}

impl Data for DeviceTransports {
    fn duplicate(&self) -> (r: Self) {
        *self
    }

    fn same(&self, other: &Self) -> (r: bool) {
        *self == *other
    }
}

/// What of a device can be configured.
#[derive(Clone, Copy, Debug, PartialEq, Eq, Default, Structural)]
pub struct Capabilities {
    pub buttons: bool,
    pub pointer: bool,
    pub lighting: bool,
    pub thumbwheel: bool,
    pub scroll_inversion: bool,
    pub hires_wheel: bool,
}

impl DeepView for Capabilities {
    type V = Capabilities;

    open spec fn deep_view(&self) -> Capabilities {
        *self
    }
}

impl Data for Capabilities {
    fn duplicate(&self) -> (r: Self) {
        *self
    }

    fn same(&self, other: &Self) -> (r: bool) {
        *self == *other
    }
}

/// The unit of a light value.
#[derive(Clone, Copy, Debug, PartialEq, Eq, Structural)]
pub enum LightValueUnit {
    Lumens,
    Percent,
    Kelvin,
}

impl DeepView for LightValueUnit {
    type V = LightValueUnit;

    open spec fn deep_view(&self) -> LightValueUnit {
        *self
    }
}

impl Data for LightValueUnit {
    fn duplicate(&self) -> (r: Self) {
        *self
    }

    fn same(&self, other: &Self) -> (r: bool) {
        *self == *other
    }
}

/// The values that a light takes.
#[derive(Clone, Copy, Debug, PartialEq, Eq, Structural)]
pub struct LightValueRange {
    pub min: u32,
    pub max: u32,
    pub step: u32,
    pub unit: LightValueUnit,
}

impl DeepView for LightValueRange {
    type V = LightValueRange;

    open spec fn deep_view(&self) -> LightValueRange {
        *self
    }
}

impl Data for LightValueRange {
    fn duplicate(&self) -> (r: Self) {
        *self
    }

    fn same(&self, other: &Self) -> (r: bool) {
        *self == *other
    }
}

/// What of a light can be controlled.
#[derive(Clone, Copy, Debug, PartialEq, Eq, Default, Structural)]
pub struct LightCapabilities {
    pub power: bool,
    pub brightness: Option<LightValueRange>,
    pub temperature: Option<LightValueRange>,
}

impl DeepView for LightCapabilities {
    type V = LightCapabilities;

    open spec fn deep_view(&self) -> LightCapabilities {
        *self
    }
}

impl Data for LightCapabilities {
    fn duplicate(&self) -> (r: Self) {
        *self
    }

    fn same(&self, other: &Self) -> (r: bool) {
        *self == *other
    }
}

/// What a device says of its model.
#[derive(Clone, Debug, PartialEq, Eq)]
pub struct DeviceModelInfo {
    /// Names the model, without anything of the unit.
    pub model_key: String,
    pub entity_count: u8,
    pub serial_number: Option<String>,
    pub unit_id: u32,
    pub transports: DeviceTransports,
    pub model_ids: Vec<u16>,
    pub extended_model_id: u8,
}

/// What a [`DeviceModelInfo`] holds.
pub ghost struct DeviceModelInfoModel {
    pub model_key: Seq<char>,
    pub entity_count: u8,
    pub serial_number: Option<Seq<char>>,
    pub unit_id: u32,
    pub transports: DeviceTransports,
    pub model_ids: Seq<u16>,
    pub extended_model_id: u8,
}

impl DeepView for DeviceModelInfo {
    type V = DeviceModelInfoModel;

    open spec fn deep_view(&self) -> DeviceModelInfoModel {
        DeviceModelInfoModel {
            model_key: self.model_key.deep_view(),
            entity_count: self.entity_count.deep_view(),
            serial_number: self.serial_number.deep_view(),
            unit_id: self.unit_id.deep_view(),
            transports: self.transports.deep_view(),
            model_ids: self.model_ids.deep_view(),
            extended_model_id: self.extended_model_id.deep_view(),
        }
    }
}

impl Data for DeviceModelInfo {
    fn duplicate(&self) -> (r: Self) {
        DeviceModelInfo {
            model_key: self.model_key.duplicate(),
            entity_count: self.entity_count.duplicate(),
            serial_number: self.serial_number.duplicate(),
            unit_id: self.unit_id.duplicate(),
            transports: self.transports.duplicate(),
            model_ids: self.model_ids.duplicate(),
            extended_model_id: self.extended_model_id.duplicate(),
        }
    }

    fn same(&self, other: &Self) -> (r: bool) {
        self.model_key.same(&other.model_key)
            && self.entity_count.same(&other.entity_count)
            && self.serial_number.same(&other.serial_number)
            && self.unit_id.same(&other.unit_id)
            && self.transports.same(&other.transports)
            && self.model_ids.same(&other.model_ids)
            && self.extended_model_id.same(&other.extended_model_id)
    }
}

/// A device that a receiver, or the host itself, has.
#[derive(Clone, Debug, PartialEq, Eq)]
pub struct PairedDevice {
    pub slot: u8,
    pub codename: Option<String>,
    pub wpid: Option<u16>,
    pub kind: DeviceKind,
    pub online: bool,
    pub battery: Option<BatteryInfo>,
    pub model_info: Option<DeviceModelInfo>,
    pub capabilities: Option<Capabilities>,
}

/// What a [`PairedDevice`] holds.
pub ghost struct PairedDeviceModel {
    pub slot: u8,
    pub codename: Option<Seq<char>>,
    pub wpid: Option<u16>,
    pub kind: DeviceKind,
    pub online: bool,
    pub battery: Option<BatteryInfo>,
    pub model_info: Option<DeviceModelInfoModel>,
    pub capabilities: Option<Capabilities>,
}

impl DeepView for PairedDevice {
    type V = PairedDeviceModel;

    open spec fn deep_view(&self) -> PairedDeviceModel {
        PairedDeviceModel {
            slot: self.slot.deep_view(),
            codename: self.codename.deep_view(),
            wpid: self.wpid.deep_view(),
            kind: self.kind.deep_view(),
            online: self.online.deep_view(),
            battery: self.battery.deep_view(),
            model_info: self.model_info.deep_view(),
            capabilities: self.capabilities.deep_view(),
        }
    }
}

impl Data for PairedDevice {
    fn duplicate(&self) -> (r: Self) {
        PairedDevice {
            slot: self.slot.duplicate(),
            codename: self.codename.duplicate(),
            wpid: self.wpid.duplicate(),
            kind: self.kind.duplicate(),
            online: self.online.duplicate(),
            battery: self.battery.duplicate(),
            model_info: self.model_info.duplicate(),
            capabilities: self.capabilities.duplicate(),
        }
    }

    fn same(&self, other: &Self) -> (r: bool) {
        self.slot.same(&other.slot)
            && self.codename.same(&other.codename)
            && self.wpid.same(&other.wpid)
            && self.kind.same(&other.kind)
            && self.online.same(&other.online)
            && self.battery.same(&other.battery)
            && self.model_info.same(&other.model_info)
            && self.capabilities.same(&other.capabilities)
    }
}

/// A receiver, or the node of a device that has none.
#[derive(Clone, Debug, PartialEq, Eq)]
pub struct ReceiverInfo {
    pub name: String,
    pub vendor_id: u16,
    pub product_id: u16,
    pub unique_id: Option<String>,
}

/// What a [`ReceiverInfo`] holds.
pub ghost struct ReceiverInfoModel {
    pub name: Seq<char>,
    pub vendor_id: u16,
    pub product_id: u16,
    pub unique_id: Option<Seq<char>>,
}

impl DeepView for ReceiverInfo {
    type V = ReceiverInfoModel;

    open spec fn deep_view(&self) -> ReceiverInfoModel {
        ReceiverInfoModel {
            name: self.name.deep_view(),
            vendor_id: self.vendor_id.deep_view(),
            product_id: self.product_id.deep_view(),
            unique_id: self.unique_id.deep_view(),
        }
    }
}

impl Data for ReceiverInfo {
    fn duplicate(&self) -> (r: Self) {
        ReceiverInfo {
            name: self.name.duplicate(),
            vendor_id: self.vendor_id.duplicate(),
            product_id: self.product_id.duplicate(),
            unique_id: self.unique_id.duplicate(),
        }
    }

    fn same(&self, other: &Self) -> (r: bool) {
        self.name.same(&other.name)
            && self.vendor_id.same(&other.vendor_id)
            && self.product_id.same(&other.product_id)
            && self.unique_id.same(&other.unique_id)
    }
}

/// A receiver and its devices.
#[derive(Clone, Debug, PartialEq, Eq)]
pub struct DeviceInventory {
    pub receiver: ReceiverInfo,
    pub paired: Vec<PairedDevice>,
}

/// What a [`DeviceInventory`] holds.
pub ghost struct DeviceInventoryModel {
    pub receiver: ReceiverInfoModel,
    pub paired: Seq<PairedDeviceModel>,
}

impl DeepView for DeviceInventory {
    type V = DeviceInventoryModel;

    open spec fn deep_view(&self) -> DeviceInventoryModel {
        DeviceInventoryModel {
            receiver: self.receiver.deep_view(),
            paired: self.paired.deep_view(),
        }
    }
}

impl Data for DeviceInventory {
    fn duplicate(&self) -> (r: Self) {
        DeviceInventory {
            receiver: self.receiver.duplicate(),
            paired: self.paired.duplicate(),
        }
    }

    fn same(&self, other: &Self) -> (r: bool) {
        self.receiver.same(&other.receiver)
            && self.paired.same(&other.paired)
    }
}

/// How a device is addressed.
#[derive(Clone, Debug, PartialEq, Eq)]
pub enum DeviceRoute {
    /// Through a Bolt receiver.
    Bolt { address: String },
    /// Through a Unifying receiver.
    Unifying { address: String },
    /// As a node of its own.
    Direct { address: String },
    /// As a raw node of its own.
    RawHid { address: String },
}

/// What a [`DeviceRoute`] holds.
pub ghost enum RouteModel {
    Bolt(Seq<char>),
    Unifying(Seq<char>),
    Direct(Seq<char>),
    RawHid(Seq<char>),
}

impl DeepView for DeviceRoute {
    type V = RouteModel;

    open spec fn deep_view(&self) -> RouteModel {
        match self {
            DeviceRoute::Bolt { address } => RouteModel::Bolt(address@),
            DeviceRoute::Unifying { address } => RouteModel::Unifying(address@),
            DeviceRoute::Direct { address } => RouteModel::Direct(address@),
            DeviceRoute::RawHid { address } => RouteModel::RawHid(address@),
        }
    }
}

impl Data for DeviceRoute {
    fn duplicate(&self) -> (r: Self) {
        match self {
            DeviceRoute::Bolt { address } => DeviceRoute::Bolt { address: address.clone() },
            DeviceRoute::Unifying { address } => DeviceRoute::Unifying { address: address.clone() },
            DeviceRoute::Direct { address } => DeviceRoute::Direct { address: address.clone() },
            DeviceRoute::RawHid { address } => DeviceRoute::RawHid { address: address.clone() },
        }
    }

    fn same(&self, other: &Self) -> (r: bool) {
        match (self, other) {
            (DeviceRoute::Bolt { address: a }, DeviceRoute::Bolt { address: b }) => *a == *b,
            (DeviceRoute::Unifying { address: a }, DeviceRoute::Unifying { address: b }) => *a
                == *b,
            (DeviceRoute::Direct { address: a }, DeviceRoute::Direct { address: b }) => *a == *b,
            (DeviceRoute::RawHid { address: a }, DeviceRoute::RawHid { address: b }) => *a == *b,
            _ => false,
        }
    }
}

impl DeepView for GlowSeg {
    type V = GlowSeg;

    open spec fn deep_view(&self) -> GlowSeg {
        *self
    }
}

impl Data for GlowSeg {
    fn duplicate(&self) -> (r: Self) {
        *self
    }

    fn same(&self, other: &Self) -> (r: bool) {
        *self == *other
    }
}

/// What a [`GlowGeometry`] holds.
pub ghost struct GlowGeometryModel {
    pub width: u32,
    pub height: u32,
    pub segments: Seq<GlowSeg>,
}

impl DeepView for GlowGeometry {
    type V = GlowGeometryModel;

    open spec fn deep_view(&self) -> GlowGeometryModel {
        GlowGeometryModel {
            width: self.width,
            height: self.height,
            segments: self.segments.deep_view(),
        }
    }
}

impl Data for GlowGeometry {
    fn duplicate(&self) -> (r: Self) {
        GlowGeometry {
            width: self.width,
            height: self.height,
            segments: self.segments.duplicate(),
        }
    }

    fn same(&self, other: &Self) -> (r: bool) {
        self.width == other.width && self.height == other.height && self.segments.same(
            &other.segments,
        )
    }
}

/// The artwork of a device.
#[derive(Clone, Debug, PartialEq, Eq)]
pub struct ResolvedAsset {
    /// Where it comes from.
    pub depot: String,
    pub hero_image_path: Option<String>,
    pub glow: Option<GlowGeometry>,
}

/// What a [`ResolvedAsset`] holds.
pub ghost struct ResolvedAssetModel {
    pub depot: Seq<char>,
    pub hero_image_path: Option<Seq<char>>,
    pub glow: Option<GlowGeometryModel>,
}

impl DeepView for ResolvedAsset {
    type V = ResolvedAssetModel;

    open spec fn deep_view(&self) -> ResolvedAssetModel {
        ResolvedAssetModel {
            depot: self.depot.deep_view(),
            hero_image_path: self.hero_image_path.deep_view(),
            glow: self.glow.deep_view(),
        }
    }
}

impl Data for ResolvedAsset {
    fn duplicate(&self) -> (r: Self) {
        ResolvedAsset {
            depot: self.depot.duplicate(),
            hero_image_path: self.hero_image_path.duplicate(),
            glow: self.glow.duplicate(),
        }
    }

    fn same(&self, other: &Self) -> (r: bool) {
        self.depot.same(&other.depot)
            && self.hero_image_path.same(&other.hero_image_path)
            && self.glow.same(&other.glow)
    }
}

/// A device as it is shown.
#[derive(Clone, Debug, PartialEq, Eq)]
pub struct DeviceRecord {
    /// Names the device in the configuration.
    pub config_key: String,
    /// Names the device among those of an inventory.
    pub inventory_key: String,
    /// Names the device on screen.
    pub record_key: String,
    /// Names the model of the device.
    pub model_key: String,
    pub display_name: String,
    pub model_name: String,
    pub codename: Option<String>,
    pub kind: DeviceKind,
    /// Whether the device is told apart well enough to keep settings for it.
    pub persistent: bool,
    pub online: bool,
    pub slot: u8,
    pub route: Option<DeviceRoute>,
    pub route_key: String,
    /// The place of its route in the canonical order.
    pub order: u64,
    pub battery: Option<BatteryInfo>,
    pub model_info: Option<DeviceModelInfo>,
    pub capabilities: Option<Capabilities>,
    pub light_capabilities: Option<LightCapabilities>,
    pub driver_id: Option<String>,
    pub registry_model_id: Option<String>,
    pub asset: Option<ResolvedAsset>,
}

/// What a [`DeviceRecord`] holds.
pub ghost struct DeviceRecordModel {
    pub config_key: Seq<char>,
    pub inventory_key: Seq<char>,
    pub record_key: Seq<char>,
    pub model_key: Seq<char>,
    pub display_name: Seq<char>,
    pub model_name: Seq<char>,
    pub codename: Option<Seq<char>>,
    pub kind: DeviceKind,
    pub persistent: bool,
    pub online: bool,
    pub slot: u8,
    pub route: Option<RouteModel>,
    pub route_key: Seq<char>,
    pub order: u64,
    pub battery: Option<BatteryInfo>,
    pub model_info: Option<DeviceModelInfoModel>,
    pub capabilities: Option<Capabilities>,
    pub light_capabilities: Option<LightCapabilities>,
    pub driver_id: Option<Seq<char>>,
    pub registry_model_id: Option<Seq<char>>,
    pub asset: Option<ResolvedAssetModel>,
}

impl DeepView for DeviceRecord {
    type V = DeviceRecordModel;

    open spec fn deep_view(&self) -> DeviceRecordModel {
        DeviceRecordModel {
            config_key: self.config_key.deep_view(),
            inventory_key: self.inventory_key.deep_view(),
            record_key: self.record_key.deep_view(),
            model_key: self.model_key.deep_view(),
            display_name: self.display_name.deep_view(),
            model_name: self.model_name.deep_view(),
            codename: self.codename.deep_view(),
            kind: self.kind.deep_view(),
            persistent: self.persistent.deep_view(),
            online: self.online.deep_view(),
            slot: self.slot.deep_view(),
            route: self.route.deep_view(),
            route_key: self.route_key.deep_view(),
            order: self.order.deep_view(),
            battery: self.battery.deep_view(),
            model_info: self.model_info.deep_view(),
            capabilities: self.capabilities.deep_view(),
            light_capabilities: self.light_capabilities.deep_view(),
            driver_id: self.driver_id.deep_view(),
            registry_model_id: self.registry_model_id.deep_view(),
            asset: self.asset.deep_view(),
        }
    }
}

impl Data for DeviceRecord {
    fn duplicate(&self) -> (r: Self) {
        DeviceRecord {
            config_key: self.config_key.duplicate(),
            inventory_key: self.inventory_key.duplicate(),
            record_key: self.record_key.duplicate(),
            model_key: self.model_key.duplicate(),
            display_name: self.display_name.duplicate(),
            model_name: self.model_name.duplicate(),
            codename: self.codename.duplicate(),
            kind: self.kind.duplicate(),
            persistent: self.persistent.duplicate(),
            online: self.online.duplicate(),
            slot: self.slot.duplicate(),
            route: self.route.duplicate(),
            route_key: self.route_key.duplicate(),
            order: self.order.duplicate(),
            battery: self.battery.duplicate(),
            model_info: self.model_info.duplicate(),
            capabilities: self.capabilities.duplicate(),
            light_capabilities: self.light_capabilities.duplicate(),
            driver_id: self.driver_id.duplicate(),
            registry_model_id: self.registry_model_id.duplicate(),
            asset: self.asset.duplicate(),
        }
    }

    fn same(&self, other: &Self) -> (r: bool) {
        self.config_key.same(&other.config_key)
            && self.inventory_key.same(&other.inventory_key)
            && self.record_key.same(&other.record_key)
            && self.model_key.same(&other.model_key)
            && self.display_name.same(&other.display_name)
            && self.model_name.same(&other.model_name)
            && self.codename.same(&other.codename)
            && self.kind.same(&other.kind)
            && self.persistent.same(&other.persistent)
            && self.online.same(&other.online)
            && self.slot.same(&other.slot)
            && self.route.same(&other.route)
            && self.route_key.same(&other.route_key)
            && self.order.same(&other.order)
            && self.battery.same(&other.battery)
            && self.model_info.same(&other.model_info)
            && self.capabilities.same(&other.capabilities)
            && self.light_capabilities.same(&other.light_capabilities)
            && self.driver_id.same(&other.driver_id)
            && self.registry_model_id.same(&other.registry_model_id)
            && self.asset.same(&other.asset)
    }
}

impl DeviceRecord {
    /// The key under which settings of this device are kept, if they are.
    pub fn persistent_config_key(&self) -> (r: Option<&String>)
        ensures
            r.deep_view() == persistent_key(self.deep_view()),
            r matches Some(key) ==> *key == self.config_key,
    {
        if self.persistent {
            Some(&self.config_key)
        } else {
            None
        }
    }

    /// Whether settings of this device are kept.
    pub fn is_persistent(&self) -> (r: bool)
        ensures
            r == self.persistent,
    {
        self.persistent
    }

    /// The key of this device in the tables of per-device state.
    pub fn device_key(&self) -> (r: DeviceKey)
        ensures
            r.deep_view() == self.config_key@,
    {
        DeviceKey { text: self.config_key.clone() }
    }
}

/// The key under which settings of a device are kept, if they are.
pub open spec fn persistent_key(record: DeviceRecordModel) -> Option<Seq<char>> {
    if record.persistent {
        Some(record.config_key)
    } else {
        None
    }
}

/// Names a device in the tables of per-device state.
///
/// It is made from a device's configuration key, so that some other text
/// cannot be taken for one.
#[derive(Clone, Debug, Eq, Ord, Hash, Default)]
pub struct DeviceKey {
    pub text: String,
}

impl PartialEq for DeviceKey {
    fn eq(&self, other: &Self) -> (r: bool) {
        self.text == other.text
    }
}

impl PartialEqSpecImpl for DeviceKey {
    open spec fn obeys_eq_spec() -> bool {
        true
    }

    open spec fn eq_spec(&self, other: &Self) -> bool {
        self.text@ == other.text@
    }
}

impl PartialOrd for DeviceKey {
    fn partial_cmp(&self, other: &Self) -> (r: Option<Ordering>) {
        proof {
            lemma_lex_total(self.text@, other.text@);
        }
        if text_before(self.text.as_str(), other.text.as_str()) {
            Some(Ordering::Less)
        } else if self.text == other.text {
            Some(Ordering::Equal)
        } else {
            Some(Ordering::Greater)
        }
    }
}

impl PartialOrdSpecImpl for DeviceKey {
    open spec fn obeys_partial_cmp_spec() -> bool {
        true
    }

    open spec fn partial_cmp_spec(&self, other: &Self) -> Option<Ordering> {
        if lex_lt(self.text@, other.text@) {
            Some(Ordering::Less)
        } else if self.text@ == other.text@ {
            Some(Ordering::Equal)
        } else {
            Some(Ordering::Greater)
        }
    }
}

impl DeepView for DeviceKey {
    type V = Seq<char>;

    open spec fn deep_view(&self) -> Seq<char> {
        self.text@
    }
}

impl Data for DeviceKey {
    fn duplicate(&self) -> (r: Self) {
        DeviceKey { text: self.text.clone() }
    }

    fn same(&self, other: &Self) -> (r: bool) {
        self.text == other.text
    }
}

impl Key for DeviceKey {
    open spec fn lt(a: Seq<char>, b: Seq<char>) -> bool {
        lex_lt(a, b)
    }

    proof fn irreflexive(a: Seq<char>) {
        lemma_lex_irreflexive(a);
    }

    proof fn transitive(a: Seq<char>, b: Seq<char>, c: Seq<char>) {
        lemma_lex_transitive(a, b, c);
    }

    proof fn total(a: Seq<char>, b: Seq<char>) {
        lemma_lex_total(a, b);
    }

    fn before(&self, other: &Self) -> (r: bool) {
        text_before(self.text.as_str(), other.text.as_str())
    }
}

impl DeviceKey {
    /// The key as text.
    pub fn as_str(&self) -> (r: &str)
        ensures
            r@ == self.deep_view(),
    {
        self.text.as_str()
    }
}

impl From<String> for DeviceKey {
    fn from(text: String) -> (r: Self) {
        DeviceKey { text }
    }
}

impl vstd::std_specs::convert::FromSpecImpl<String> for DeviceKey {
    open spec fn obeys_from_spec() -> bool {
        true
    }

    open spec fn from_spec(text: String) -> DeviceKey {
        DeviceKey { text }
    }
}

impl From<&str> for DeviceKey {
    fn from(text: &str) -> (r: Self)
        ensures
            r.deep_view() == text@,
    {
        DeviceKey { text: text.to_owned() }
    }
}

impl vstd::std_specs::convert::FromSpecImpl<&str> for DeviceKey {
    open spec fn obeys_from_spec() -> bool {
        false
    }

    open spec fn from_spec(text: &str) -> DeviceKey {
        arbitrary()
    }
}

/// Lets a table that is ordered by these keys be read with plain text.
impl std::borrow::Borrow<str> for DeviceKey {
    fn borrow(&self) -> (r: &str)
        ensures
            <str as View>::view(r) == self.text@,
    {
        self.text.as_str()
    }
}

/// Keys compare as their texts do: they are equal exactly when the texts are,
/// one is before another exactly when its text is, and exactly one of these
/// holds of two keys or holds the other way round.
pub proof fn keys_compare_as_their_texts(a: DeviceKey, b: DeviceKey)
    ensures
        PartialEqSpec::eq_spec(&a, &b) == (a.deep_view() == b.deep_view()),
        (PartialOrdSpec::partial_cmp_spec(&a, &b) == Some(Ordering::Less)) == lex_lt(a.deep_view(), b.deep_view()),
        (PartialOrdSpec::partial_cmp_spec(&a, &b) == Some(Ordering::Equal)) == PartialEqSpec::eq_spec(&a, &b),
        (PartialOrdSpec::partial_cmp_spec(&a, &b) == Some(Ordering::Greater)) == lex_lt(
            b.deep_view(),
            a.deep_view(),
        ),
        (PartialOrdSpec::partial_cmp_spec(&a, &b) == Some(Ordering::Less)) == (PartialOrdSpec::partial_cmp_spec(&b, &a) == Some(
            Ordering::Greater,
        )),
{
    let x = a.deep_view();
    let y = b.deep_view();
    lemma_lex_total(x, y);
    lemma_lex_irreflexive(x);
    if lex_lt(x, y) && lex_lt(y, x) {
        lemma_lex_transitive(x, y, x);
    }
}

} // verus!
