//! The gallery of devices: what a card says of its device.

use vstd::prelude::*;

use crate::data::Data;
use crate::device::{
    BatteryInfo, BatteryLevel, BatteryStatus, DeviceKind, DeviceRecord, DeviceRecordModel,
    DeviceRoute, DeviceTransports, GlowGeometryModel, RouteModel,
};
use crate::glow::GlowGeometry;
use crate::settings::shown_lighting;
use crate::state::{AppState, StateModel};
use crate::text::{concat, decimal, decimal_of};

verus! {

/// The charge at or below which a battery is low, in percent.
pub const LOW_BATTERY_PERCENT: u8 = 20;

/// The ring around a card.
#[derive(Clone, Copy, Debug, PartialEq, Eq, Structural)]
pub enum Ring {
    /// The device is switched off in the settings.
    Disabled,
    /// The device is the selected one.
    Accent,
    /// Nothing to see.
    Clear,
}

/// The ring around a card.
pub fn device_ring(enabled: bool, active: bool) -> (r: Ring)
    ensures
        r == (if !enabled {
            Ring::Disabled
        } else if active {
            Ring::Accent
        } else {
            Ring::Clear
        }),
{
    if !enabled {
        Ring::Disabled
    } else if active {
        Ring::Accent
    } else {
        Ring::Clear
    }
}

/// How many devices there are, as it is said.
#[derive(Clone, Copy, Debug, PartialEq, Eq, Structural)]
pub enum DeviceCount {
    One,
    Many(usize),
}

/// How many devices there are, as it is said.
pub fn device_count_label(count: usize) -> (r: DeviceCount)
    ensures
        r == (if count == 1 {
            DeviceCount::One
        } else {
            DeviceCount::Many(count)
        }),
{
    if count == 1 {
        DeviceCount::One
    } else {
        DeviceCount::Many(count)
    }
}

/// The light between the keys of a keyboard, and its colour.
pub open spec fn glow_of(m: StateModel, record: DeviceRecordModel, transient: bool) -> Option<
    (GlowGeometryModel, (u8, u8, u8)),
> {
    match shown_lighting(m, record.config_key, record.route_key, transient) {
        Some(lighting) => if record.kind == DeviceKind::Keyboard && lighting.enabled
            && record.asset is Some && record.asset->0.glow is Some {
            Some((record.asset->0.glow->0, (lighting.red, lighting.green, lighting.blue)))
        } else {
            None
        },
        None => None,
    }
}

/// The light between the keys of a keyboard, and its colour, or `None` unless
/// it is a keyboard that is lit and whose picture says where its keys are.
/// `transient` says whether its key is one of a unit that was not read.
pub fn keyboard_glow(state: &AppState, record: &DeviceRecord, transient: bool) -> (r: Option<
    (GlowGeometry, (u8, u8, u8)),
>)
    ensures
        match r {
            Some((geometry, color)) => glow_of(
                state.deep_view(),
                record.deep_view(),
                transient,
            ) == Some((geometry.deep_view(), color)),
            None => glow_of(state.deep_view(), record.deep_view(), transient) is None,
        },
{
    if record.kind != DeviceKind::Keyboard {
        return None;
    }
    let lighting = match state.lighting_for(&record.config_key, &record.route_key, transient) {
        Some(lighting) => lighting,
        None => {
            return None;
        },
    };
    if !lighting.enabled {
        return None;
    }
    match &record.asset {
        Some(asset) => match &asset.glow {
            Some(glow) => Some(
                (glow.duplicate(), (lighting.red, lighting.green, lighting.blue)),
            ),
            None => None,
        },
        None => None,
    }
}

/// What a card says below the name of a device.
pub open spec fn subtitle_of(record: DeviceRecordModel, kind: Seq<char>) -> Seq<char> {
    if record.display_name == record.model_name {
        kind
    } else {
        record.model_name + " · "@ + kind
    }
}

/// What a card says below the name of a device: what kind it is, and which
/// model where the name does not tell.
pub fn device_identity_subtitle(record: &DeviceRecord, kind: &str) -> (r: String)
    ensures
        r@ == subtitle_of(record.deep_view(), kind@),
{
    if record.display_name == record.model_name {
        kind.to_owned()
    } else {
        concat(concat(record.model_name.as_str(), " · ").as_str(), kind)
    }
}

/// The name that was given to a device; empty if none was.
pub fn custom_name(record: &DeviceRecord) -> (r: String)
    ensures
        r@ == (if record.deep_view().display_name == record.deep_view().model_name {
            ""@
        } else {
            record.deep_view().display_name
        }),
{
    if record.display_name == record.model_name {
        "".to_owned()
    } else {
        record.display_name.duplicate()
    }
}

/// Whether a device on its own can only be on a cable: it has no Bluetooth. A
/// receiver link is never a link of its own, so it does not count.
pub open spec fn only_wired(transports: Option<DeviceTransports>) -> bool {
    match transports {
        Some(t) => (t.usb || t.equad) && !t.bluetooth && !t.btle,
        None => false,
    }
}

/// The mark of a link.
pub open spec fn link_icon(
    route: Option<RouteModel>,
    transports: Option<DeviceTransports>,
) -> Seq<char> {
    match route {
        Some(RouteModel::Bolt(_)) => "action-icons/bolt.svg"@,
        Some(RouteModel::Unifying(_)) => "action-icons/unifying.svg"@,
        Some(RouteModel::RawHid(_)) => "action-icons/usb.svg"@,
        _ => if only_wired(transports) {
            "action-icons/usb.svg"@
        } else {
            "action-icons/bluetooth.svg"@
        },
    }
}

/// The mark of a link: that of its receiver; for a device on its own that of a
/// cable if it can be on nothing else, and that of Bluetooth otherwise. How a
/// device is addressed does not tell what carries it.
pub fn connection_icon_path(
    route: &Option<DeviceRoute>,
    transports: Option<DeviceTransports>,
) -> (r: &'static str)
    ensures
        r@ == link_icon(route.deep_view(), transports),
{
    match route {
        Some(DeviceRoute::Bolt { .. }) => "action-icons/bolt.svg",
        Some(DeviceRoute::Unifying { .. }) => "action-icons/unifying.svg",
        Some(DeviceRoute::RawHid { .. }) => "action-icons/usb.svg",
        _ => {
            let wired = match transports {
                Some(t) => (t.usb || t.equad) && !t.bluetooth && !t.btle,
                None => false,
            };
            if wired {
                "action-icons/usb.svg"
            } else {
                "action-icons/bluetooth.svg"
            }
        },
    }
}

/// What a card says of the link of a device.
pub open spec fn link_text(
    record: DeviceRecordModel,
    route: Seq<char>,
    channel: Seq<char>,
) -> Seq<char> {
    match record.route {
        Some(RouteModel::Bolt(_)) => route + " · "@ + channel + " "@ + decimal_of(
            record.slot as nat,
        ),
        Some(RouteModel::Unifying(_)) => route + " · "@ + channel + " "@ + decimal_of(
            record.slot as nat,
        ),
        _ => route,
    }
}

/// What a card says of the link of a device: what it is called, and on a
/// receiver its channel.
pub fn connection_summary(record: &DeviceRecord, route: &str, channel: &str) -> (r: String)
    ensures
        r@ == link_text(record.deep_view(), route@, channel@),
{
    let paired = match &record.route {
        Some(DeviceRoute::Bolt { .. }) => true,
        Some(DeviceRoute::Unifying { .. }) => true,
        _ => false,
    };
    if paired {
        let slot = decimal(record.slot as u64);
        let head = concat(concat(route, " · ").as_str(), channel);
        concat(concat(head.as_str(), " ").as_str(), slot.as_str())
    } else {
        route.to_owned()
    }
}

/// What stands for a device.
#[derive(Clone, Debug, PartialEq, Eq)]
pub enum DeviceImage {
    /// A light, drawn as it shines.
    Light,
    /// A picture.
    Photo(String),
    CameraMark,
    ChipMark,
}

/// What stands for a device: a light as it shines, a picture if there is one,
/// and else a mark.
pub fn device_image(record: &DeviceRecord) -> (r: DeviceImage)
    ensures
        ({
            let m = record.deep_view();
            if m.kind == DeviceKind::Light {
                r == DeviceImage::Light
            } else if m.asset is Some && m.asset->0.hero_image_path is Some {
                r matches DeviceImage::Photo(path) && path@ == m.asset->0.hero_image_path->0
            } else if m.kind == DeviceKind::Camera {
                r == DeviceImage::CameraMark
            } else {
                r == DeviceImage::ChipMark
            }
        }),
{
    if record.kind == DeviceKind::Light {
        return DeviceImage::Light;
    }
    match &record.asset {
        Some(asset) => match &asset.hero_image_path {
            Some(path) => {
                return DeviceImage::Photo(path.duplicate());
            },
            None => {},
        },
        None => {},
    }
    if record.kind == DeviceKind::Camera {
        DeviceImage::CameraMark
    } else {
        DeviceImage::ChipMark
    }
}

/// Whether a battery is low and nothing charges it.
pub open spec fn is_low(battery: BatteryInfo) -> bool {
    battery.percentage <= LOW_BATTERY_PERCENT && battery.status != BatteryStatus::Charging
        && battery.status != BatteryStatus::ChargingSlow && battery.status != BatteryStatus::Full
}

/// Whether a battery is low and nothing charges it.
pub fn battery_needs_attention(battery: &BatteryInfo) -> (r: bool)
    ensures
        r == is_low(*battery),
{
    battery.percentage <= LOW_BATTERY_PERCENT && battery.status != BatteryStatus::Charging
        && battery.status != BatteryStatus::ChargingSlow && battery.status != BatteryStatus::Full
}

/// The mark of a battery.
#[derive(Clone, Copy, Debug, PartialEq, Eq, Structural)]
pub enum BatteryIcon {
    Charging,
    Full,
    Medium,
    Low,
    Warning,
    Plain,
}

/// The mark of a battery.
pub open spec fn battery_mark(battery: BatteryInfo) -> BatteryIcon {
    match battery.status {
        BatteryStatus::Charging => BatteryIcon::Charging,
        BatteryStatus::ChargingSlow => BatteryIcon::Charging,
        BatteryStatus::Full => BatteryIcon::Full,
        BatteryStatus::Error => BatteryIcon::Warning,
        _ => match battery.level {
            BatteryLevel::Critical => BatteryIcon::Warning,
            BatteryLevel::Low => BatteryIcon::Low,
            BatteryLevel::Good => BatteryIcon::Medium,
            BatteryLevel::Full => BatteryIcon::Full,
            BatteryLevel::Unknown => BatteryIcon::Plain,
        },
    }
}

/// The mark of a battery: of what is done to it, and else of its charge.
pub fn battery_icon(battery: &BatteryInfo) -> (r: BatteryIcon)
    ensures
        r == battery_mark(*battery),
{
    match battery.status {
        BatteryStatus::Charging => BatteryIcon::Charging,
        BatteryStatus::ChargingSlow => BatteryIcon::Charging,
        BatteryStatus::Full => BatteryIcon::Full,
        BatteryStatus::Error => BatteryIcon::Warning,
        BatteryStatus::Discharging | BatteryStatus::Unknown => match battery.level {
            BatteryLevel::Critical => BatteryIcon::Warning,
            BatteryLevel::Low => BatteryIcon::Low,
            BatteryLevel::Good => BatteryIcon::Medium,
            BatteryLevel::Full => BatteryIcon::Full,
            BatteryLevel::Unknown => BatteryIcon::Plain,
        },
    }
}

/// What a card says of a battery.
#[derive(Clone, Debug, PartialEq, Eq)]
pub struct BatteryView {
    pub icon: BatteryIcon,
    /// Whether it is shown as a warning.
    pub warn: bool,
    /// Whether it is said that this is what was last known.
    pub last_known: bool,
    /// The charge, or `None` if it is only said that it charges.
    pub percentage: Option<String>,
    /// Whether it is said that it is low.
    pub say_low: bool,
}

/// What a card says of a battery. `no_reading` tells that it charges and does
/// not say how far.
pub fn battery_view(battery: &BatteryInfo, online: bool, no_reading: bool) -> (r: BatteryView)
    ensures
        r.icon == battery_mark(*battery),
        r.warn == is_low(*battery),
        r.last_known == !online,
        r.percentage.deep_view() == (if no_reading {
            None
        } else {
            Some(decimal_of(battery.percentage as nat) + "%"@)
        }),
        r.say_low == (is_low(*battery) && !no_reading),
{
    let low = battery_needs_attention(battery);
    let percentage = if no_reading {
        None
    } else {
        Some(concat(decimal(battery.percentage as u64).as_str(), "%"))
    };
    BatteryView {
        icon: battery_icon(battery),
        warn: low,
        last_known: !online,
        percentage,
        say_low: low && !no_reading,
    }
}

/// A card of the gallery.
#[derive(Clone, Debug, PartialEq, Eq)]
pub struct DeviceCard {
    pub ring: Ring,
    /// Whether the picture is dimmed.
    pub dimmed: bool,
    pub image: DeviceImage,
    pub name: String,
    pub subtitle: String,
    /// Whether it is said that the device is the selected one.
    pub say_active: bool,
    pub can_rename: bool,
    pub link_icon: &'static str,
    pub link: String,
    pub battery: Option<BatteryView>,
}

/// What things are called on a card.
#[derive(Clone, Copy, Debug, PartialEq, Eq)]
pub struct CardTexts<'a> {
    /// The kind of the device.
    pub kind: &'a str,
    /// The link of the device.
    pub route: &'a str,
    /// A channel of a receiver.
    pub channel: &'a str,
}

/// The mark of the link of a device: cameras are on a cable.
pub open spec fn card_link_icon(record: DeviceRecordModel) -> Seq<char> {
    if record.kind == DeviceKind::Camera {
        "action-icons/usb.svg"@
    } else {
        link_icon(
            record.route,
            match record.model_info {
                Some(model) => Some(model.transports),
                None => None,
            },
        )
    }
}

/// The card of a device.
pub fn device_card(
    record: &DeviceRecord,
    enabled: bool,
    active: bool,
    texts: CardTexts,
    no_reading: bool,
) -> (r: DeviceCard)
    ensures
        ({
            let m = record.deep_view();
            &&& r.ring == (if !enabled {
                Ring::Disabled
            } else if active {
                Ring::Accent
            } else {
                Ring::Clear
            })
            &&& r.dimmed == !m.online
            &&& r.name@ == m.display_name
            &&& r.subtitle@ == subtitle_of(m, texts.kind@)
            &&& r.say_active == active
            &&& r.can_rename == m.persistent
            &&& r.link_icon@ == card_link_icon(m)
            &&& r.link@ == link_text(m, texts.route@, texts.channel@)
            &&& match (m.battery, r.battery) {
                (Some(battery), Some(view)) => {
                    &&& view.icon == battery_mark(battery)
                    &&& view.warn == is_low(battery)
                    &&& view.last_known == !m.online
                    &&& view.percentage.deep_view() == (if no_reading {
                        None
                    } else {
                        Some(decimal_of(battery.percentage as nat) + "%"@)
                    })
                    &&& view.say_low == (is_low(battery) && !no_reading)
                },
                (None, None) => true,
                _ => false,
            }
            &&& match r.image {
                DeviceImage::Light => m.kind == DeviceKind::Light,
                DeviceImage::Photo(path) => m.kind != DeviceKind::Light && m.asset is Some
                    && m.asset->0.hero_image_path == Some(path@),
                DeviceImage::CameraMark => m.kind == DeviceKind::Camera && (m.asset is None
                    || m.asset->0.hero_image_path is None),
                DeviceImage::ChipMark => m.kind != DeviceKind::Light && m.kind
                    != DeviceKind::Camera && (m.asset is None || m.asset->0.hero_image_path is None),
            }
        }),
{
    let link_icon = if record.kind == DeviceKind::Camera {
        "action-icons/usb.svg"
    } else {
        let transports = match &record.model_info {
            Some(model) => Some(model.transports),
            None => None,
        };
        connection_icon_path(&record.route, transports)
    };
    let battery = match &record.battery {
        Some(battery) => Some(battery_view(battery, record.online, no_reading)),
        None => None,
    };
    DeviceCard {
        ring: device_ring(enabled, active),
        dimmed: !record.online,
        image: device_image(record),
        name: record.display_name.duplicate(),
        subtitle: device_identity_subtitle(record, texts.kind),
        say_active: active,
        can_rename: record.persistent,
        link_icon,
        link: connection_summary(record, texts.route, texts.channel),
        battery,
    }
}

/// A battery that is being charged never asks for attention, however low it is.
pub proof fn charging_is_no_alarm(percentage: u8, level: BatteryLevel, status: BatteryStatus)
    requires
        status == BatteryStatus::Charging || status == BatteryStatus::ChargingSlow,
    ensures
        !is_low(BatteryInfo { percentage, level, status }),
        battery_mark(BatteryInfo { percentage, level, status }) == BatteryIcon::Charging,
{
}

/// Only a keyboard that is lit glows.
pub proof fn only_lit_keyboards_glow(m: StateModel, record: DeviceRecordModel, transient: bool)
    ensures
        glow_of(m, record, transient) is Some ==> record.kind == DeviceKind::Keyboard,
        glow_of(m, record, transient) is Some ==> {
            let lighting = shown_lighting(m, record.config_key, record.route_key, transient);
            lighting is Some && lighting->0.enabled
        },
{
}

/// A keyboard glows in its colour, over its picture, exactly where lighting is shown
/// for it, is on, and the picture has a glow.
pub proof fn a_lit_keyboard_glows_in_its_colour(
    m: StateModel,
    record: DeviceRecordModel,
    transient: bool,
)
    ensures
        ({
            let lighting = shown_lighting(m, record.config_key, record.route_key, transient);
            let glows = record.kind == DeviceKind::Keyboard && lighting is Some
                && lighting->0.enabled && record.asset is Some && record.asset->0.glow is Some;
            &&& glow_of(m, record, transient) is Some <==> glows
            &&& glow_of(m, record, transient) matches Some((geometry, (red, green, blue))) ==> {
                &&& geometry == record.asset->0.glow->0
                &&& red == lighting->0.red
                &&& green == lighting->0.green
                &&& blue == lighting->0.blue
            }
        }),
{
}

/// A device of its model's name is told by its kind alone; one with a name of its own
/// is told by its model too.
pub proof fn a_renamed_device_tells_its_model(record: DeviceRecordModel, kind: Seq<char>)
    ensures
        record.display_name == record.model_name ==> subtitle_of(record, kind) == kind,
        record.display_name != record.model_name ==> {
            let text = subtitle_of(record, kind);
            &&& text.len() == record.model_name.len() + 3 + kind.len()
            &&& text.take(record.model_name.len() as int) == record.model_name
            &&& text.skip(text.len() - kind.len()) == kind
        },
{
    reveal_strlit(" · ");
    let text = record.model_name + " · "@ + kind;
    assert(text.take(record.model_name.len() as int) =~= record.model_name);
    assert(text.skip(text.len() - kind.len()) =~= kind);
}

/// A battery is low at a fifth and below, unless it is being charged or is full.
pub proof fn a_battery_is_low_at_a_fifth(battery: BatteryInfo)
    ensures
        battery.percentage > 20 ==> !is_low(battery),
        battery.percentage <= 20 && (battery.status == BatteryStatus::Discharging || battery.status
            == BatteryStatus::Unknown || battery.status == BatteryStatus::Error) ==> is_low(battery),
        battery.status == BatteryStatus::Full ==> !is_low(battery),
{
}

/// The mark of a battery tells what is going on with it before how full it is.
pub proof fn a_battery_is_marked_as_it_is(battery: BatteryInfo)
    ensures
        battery.status == BatteryStatus::Full ==> battery_mark(battery) is Full,
        battery.status == BatteryStatus::Error ==> battery_mark(battery) is Warning,
        battery.status == BatteryStatus::Discharging ==> (battery_mark(battery) is Warning
            <==> battery.level == BatteryLevel::Critical),
        battery.status == BatteryStatus::Discharging ==> (battery_mark(battery) is Low
            <==> battery.level == BatteryLevel::Low),
        battery.status == BatteryStatus::Discharging ==> (battery_mark(battery) is Full
            <==> battery.level == BatteryLevel::Full),
        battery.status == BatteryStatus::Discharging ==> (battery_mark(battery) is Medium
            <==> battery.level == BatteryLevel::Good),
        battery_mark(battery) is Charging <==> battery.status == BatteryStatus::Charging
            || battery.status == BatteryStatus::ChargingSlow,
{
}

/// The link of a device on a receiver is told with its slot, and any other by its
/// route alone.
pub proof fn a_slot_is_told_on_a_receiver(
    record: DeviceRecordModel,
    route: Seq<char>,
    channel: Seq<char>,
)
    ensures
        (record.route matches Some(RouteModel::Bolt(_))) || (record.route matches Some(
            RouteModel::Unifying(_),
        )) ==> {
            let text = link_text(record, route, channel);
            let slot = decimal_of(record.slot as nat);
            &&& text.len() >= route.len() + slot.len()
            &&& text.take(route.len() as int) == route
            &&& text.skip(text.len() - slot.len()) == slot
        },
        record.route is None || (record.route matches Some(RouteModel::Direct(_))) || (
        record.route matches Some(RouteModel::RawHid(_))) ==> link_text(record, route, channel)
            == route,
{
    let slot = decimal_of(record.slot as nat);
    let text = route + " · "@ + channel + " "@ + slot;
    assert(text.take(route.len() as int) =~= route);
    assert(text.skip(text.len() - slot.len()) =~= slot);
}

/// A link is marked by the receiver that it goes through, a camera by its cable, and
/// another device by its cable only if it can be on nothing else.
pub proof fn a_link_is_marked_by_what_it_goes_through(
    record: DeviceRecordModel,
    t: DeviceTransports,
)
    ensures
        link_icon(record.route, Some(t)) == "action-icons/bolt.svg"@ || !(record.route matches Some(
            RouteModel::Bolt(_),
        )),
        link_icon(record.route, Some(t)) == "action-icons/unifying.svg"@ || !(
        record.route matches Some(RouteModel::Unifying(_))),
        record.route is None && (t.bluetooth || t.btle) ==> link_icon(record.route, Some(t))
            == "action-icons/bluetooth.svg"@,
        record.route is None && t.usb && !t.bluetooth && !t.btle ==> link_icon(
            record.route,
            Some(t),
        ) == "action-icons/usb.svg"@,
        record.kind == DeviceKind::Camera ==> card_link_icon(record) == "action-icons/usb.svg"@,
{
}

} // verus!
