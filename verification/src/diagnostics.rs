//! The report that is attached to a bug: what runs, on what, and with which
//! devices.

use vstd::prelude::*;

use crate::data::Data;
use crate::device::{
    BatteryInfo, Capabilities, DeviceInventory, DeviceInventoryModel, DeviceKind, DeviceRecord,
    DeviceRecordModel, DeviceRoute, DeviceTransports, PairedDevice, PairedDeviceModel, RouteModel,
};
use crate::load::{Load, LoadModel};
use crate::runtime::{AgentStatus, AgentStatusModel, InventoryHealth};
use crate::state::{AppState, DpiInfo, StateModel};
use crate::text::{chars_of, concat, decimal, decimal_of, same_text, starts_with, text_of};

verus! {

/// Where the enumeration of devices got to.
#[derive(Clone, Copy, Debug, PartialEq, Eq, Structural)]
pub enum InventoryState {
    Scanning,
    Ready,
    Unavailable,
}

impl DeepView for InventoryState {
    type V = InventoryState;

    open spec fn deep_view(&self) -> InventoryState {
        *self
    }
}

impl Data for InventoryState {
    fn duplicate(&self) -> (r: Self) {
        *self
    }

    fn same(&self, other: &Self) -> (r: bool) {
        *self == *other
    }
}

/// Where pictures come from.
#[derive(Clone, Copy, Debug, PartialEq, Eq, Structural)]
pub enum AssetSource {
    Bundle,
    UserCache,
    Nowhere,
}

impl DeepView for AssetSource {
    type V = AssetSource;

    open spec fn deep_view(&self) -> AssetSource {
        *self
    }
}

impl Data for AssetSource {
    fn duplicate(&self) -> (r: Self) {
        *self
    }

    fn same(&self, other: &Self) -> (r: bool) {
        *self == *other
    }
}

/// How a device is connected.
#[derive(Clone, Copy, Debug, PartialEq, Eq, Structural)]
pub enum ConnectionKind {
    BoltReceiver,
    UnifyingReceiver,
    BluetoothDirect,
    Wired,
    Unknown,
}

impl DeepView for ConnectionKind {
    type V = ConnectionKind;

    open spec fn deep_view(&self) -> ConnectionKind {
        *self
    }
}

impl Data for ConnectionKind {
    fn duplicate(&self) -> (r: Self) {
        *self
    }

    fn same(&self, other: &Self) -> (r: bool) {
        *self == *other
    }
}

/// What is known of the host and of the build.
#[derive(Clone, Debug, PartialEq, Eq)]
pub struct HostFacts {
    pub gui_version: String,
    pub build_profile: String,
    pub protocol: u32,
    pub os: String,
    pub os_version: Option<String>,
    /// As the compiler calls it.
    pub arch: String,
    pub system_locale: Option<String>,
    pub running_from_bundle: bool,
}

/// What a [`HostFacts`] holds.
pub ghost struct HostFactsModel {
    pub gui_version: Seq<char>,
    pub build_profile: Seq<char>,
    pub protocol: u32,
    pub os: Seq<char>,
    pub os_version: Option<Seq<char>>,
    pub arch: Seq<char>,
    pub system_locale: Option<Seq<char>>,
    pub running_from_bundle: bool,
}

impl DeepView for HostFacts {
    type V = HostFactsModel;

    open spec fn deep_view(&self) -> HostFactsModel {
        HostFactsModel {
            gui_version: self.gui_version.deep_view(),
            build_profile: self.build_profile.deep_view(),
            protocol: self.protocol.deep_view(),
            os: self.os.deep_view(),
            os_version: self.os_version.deep_view(),
            arch: self.arch.deep_view(),
            system_locale: self.system_locale.deep_view(),
            running_from_bundle: self.running_from_bundle.deep_view(),
        }
    }
}

impl Data for HostFacts {
    fn duplicate(&self) -> (r: Self) {
        HostFacts {
            gui_version: self.gui_version.duplicate(),
            build_profile: self.build_profile.duplicate(),
            protocol: self.protocol.duplicate(),
            os: self.os.duplicate(),
            os_version: self.os_version.duplicate(),
            arch: self.arch.duplicate(),
            system_locale: self.system_locale.duplicate(),
            running_from_bundle: self.running_from_bundle.duplicate(),
        }
    }

    fn same(&self, other: &Self) -> (r: bool) {
        self.gui_version.same(&other.gui_version)
            && self.build_profile.same(&other.build_profile)
            && self.protocol.same(&other.protocol)
            && self.os.same(&other.os)
            && self.os_version.same(&other.os_version)
            && self.arch.same(&other.arch)
            && self.system_locale.same(&other.system_locale)
            && self.running_from_bundle.same(&other.running_from_bundle)
    }
}

/// What is reported of the application.
#[derive(Clone, Debug, PartialEq, Eq)]
pub struct AppInfo {
    pub gui_version: String,
    pub build_profile: String,
    pub agent_version: Option<String>,
    pub protocol_gui: u32,
    pub protocol_agent: Option<u32>,
    pub inventory: Option<InventoryState>,
    pub os: String,
    pub os_version: Option<String>,
    pub arch: String,
    pub system_locale: Option<String>,
    pub ui_language: Option<String>,
    pub accessibility_granted: bool,
    pub hook_installed: Option<bool>,
    pub launch_at_login: Option<bool>,
    pub show_in_menu_bar: Option<bool>,
    pub check_for_updates: Option<bool>,
    pub thumbwheel_sensitivity: Option<u32>,
    pub config_schema_version: Option<u32>,
    pub configured_device_count: Option<usize>,
    pub running_from_bundle: bool,
}

/// What a [`AppInfo`] holds.
pub ghost struct AppInfoModel {
    pub gui_version: Seq<char>,
    pub build_profile: Seq<char>,
    pub agent_version: Option<Seq<char>>,
    pub protocol_gui: u32,
    pub protocol_agent: Option<u32>,
    pub inventory: Option<InventoryState>,
    pub os: Seq<char>,
    pub os_version: Option<Seq<char>>,
    pub arch: Seq<char>,
    pub system_locale: Option<Seq<char>>,
    pub ui_language: Option<Seq<char>>,
    pub accessibility_granted: bool,
    pub hook_installed: Option<bool>,
    pub launch_at_login: Option<bool>,
    pub show_in_menu_bar: Option<bool>,
    pub check_for_updates: Option<bool>,
    pub thumbwheel_sensitivity: Option<u32>,
    pub config_schema_version: Option<u32>,
    pub configured_device_count: Option<usize>,
    pub running_from_bundle: bool,
}

impl DeepView for AppInfo {
    type V = AppInfoModel;

    open spec fn deep_view(&self) -> AppInfoModel {
        AppInfoModel {
            gui_version: self.gui_version.deep_view(),
            build_profile: self.build_profile.deep_view(),
            agent_version: self.agent_version.deep_view(),
            protocol_gui: self.protocol_gui.deep_view(),
            protocol_agent: self.protocol_agent.deep_view(),
            inventory: self.inventory.deep_view(),
            os: self.os.deep_view(),
            os_version: self.os_version.deep_view(),
            arch: self.arch.deep_view(),
            system_locale: self.system_locale.deep_view(),
            ui_language: self.ui_language.deep_view(),
            accessibility_granted: self.accessibility_granted.deep_view(),
            hook_installed: self.hook_installed.deep_view(),
            launch_at_login: self.launch_at_login.deep_view(),
            show_in_menu_bar: self.show_in_menu_bar.deep_view(),
            check_for_updates: self.check_for_updates.deep_view(),
            thumbwheel_sensitivity: self.thumbwheel_sensitivity.deep_view(),
            config_schema_version: self.config_schema_version.deep_view(),
            configured_device_count: self.configured_device_count.deep_view(),
            running_from_bundle: self.running_from_bundle.deep_view(),
        }
    }
}

impl Data for AppInfo {
    fn duplicate(&self) -> (r: Self) {
        AppInfo {
            gui_version: self.gui_version.duplicate(),
            build_profile: self.build_profile.duplicate(),
            agent_version: self.agent_version.duplicate(),
            protocol_gui: self.protocol_gui.duplicate(),
            protocol_agent: self.protocol_agent.duplicate(),
            inventory: self.inventory.duplicate(),
            os: self.os.duplicate(),
            os_version: self.os_version.duplicate(),
            arch: self.arch.duplicate(),
            system_locale: self.system_locale.duplicate(),
            ui_language: self.ui_language.duplicate(),
            accessibility_granted: self.accessibility_granted.duplicate(),
            hook_installed: self.hook_installed.duplicate(),
            launch_at_login: self.launch_at_login.duplicate(),
            show_in_menu_bar: self.show_in_menu_bar.duplicate(),
            check_for_updates: self.check_for_updates.duplicate(),
            thumbwheel_sensitivity: self.thumbwheel_sensitivity.duplicate(),
            config_schema_version: self.config_schema_version.duplicate(),
            configured_device_count: self.configured_device_count.duplicate(),
            running_from_bundle: self.running_from_bundle.duplicate(),
        }
    }

    fn same(&self, other: &Self) -> (r: bool) {
        self.gui_version.same(&other.gui_version)
            && self.build_profile.same(&other.build_profile)
            && self.agent_version.same(&other.agent_version)
            && self.protocol_gui.same(&other.protocol_gui)
            && self.protocol_agent.same(&other.protocol_agent)
            && self.inventory.same(&other.inventory)
            && self.os.same(&other.os)
            && self.os_version.same(&other.os_version)
            && self.arch.same(&other.arch)
            && self.system_locale.same(&other.system_locale)
            && self.ui_language.same(&other.ui_language)
            && self.accessibility_granted.same(&other.accessibility_granted)
            && self.hook_installed.same(&other.hook_installed)
            && self.launch_at_login.same(&other.launch_at_login)
            && self.show_in_menu_bar.same(&other.show_in_menu_bar)
            && self.check_for_updates.same(&other.check_for_updates)
            && self.thumbwheel_sensitivity.same(&other.thumbwheel_sensitivity)
            && self.config_schema_version.same(&other.config_schema_version)
            && self.configured_device_count.same(&other.configured_device_count)
            && self.running_from_bundle.same(&other.running_from_bundle)
    }
}

/// What is reported of pictures.
#[derive(Clone, Debug, PartialEq, Eq)]
pub struct AssetInfo {
    pub source: AssetSource,
    pub index_loaded: bool,
    pub index_entries: usize,
    pub user_cache_present: bool,
    pub cache_path: String,
    pub bundle_present: bool,
}

/// What a [`AssetInfo`] holds.
pub ghost struct AssetInfoModel {
    pub source: AssetSource,
    pub index_loaded: bool,
    pub index_entries: usize,
    pub user_cache_present: bool,
    pub cache_path: Seq<char>,
    pub bundle_present: bool,
}

impl DeepView for AssetInfo {
    type V = AssetInfoModel;

    open spec fn deep_view(&self) -> AssetInfoModel {
        AssetInfoModel {
            source: self.source.deep_view(),
            index_loaded: self.index_loaded.deep_view(),
            index_entries: self.index_entries.deep_view(),
            user_cache_present: self.user_cache_present.deep_view(),
            cache_path: self.cache_path.deep_view(),
            bundle_present: self.bundle_present.deep_view(),
        }
    }
}

impl Data for AssetInfo {
    fn duplicate(&self) -> (r: Self) {
        AssetInfo {
            source: self.source.duplicate(),
            index_loaded: self.index_loaded.duplicate(),
            index_entries: self.index_entries.duplicate(),
            user_cache_present: self.user_cache_present.duplicate(),
            cache_path: self.cache_path.duplicate(),
            bundle_present: self.bundle_present.duplicate(),
        }
    }

    fn same(&self, other: &Self) -> (r: bool) {
        self.source.same(&other.source)
            && self.index_loaded.same(&other.index_loaded)
            && self.index_entries.same(&other.index_entries)
            && self.user_cache_present.same(&other.user_cache_present)
            && self.cache_path.same(&other.cache_path)
            && self.bundle_present.same(&other.bundle_present)
    }
}

/// What is reported of a receiver.
#[derive(Clone, Debug, PartialEq, Eq)]
pub struct ReceiverDiag {
    pub name: String,
    pub vendor_id: u16,
    pub product_id: u16,
}

/// What a [`ReceiverDiag`] holds.
pub ghost struct ReceiverDiagModel {
    pub name: Seq<char>,
    pub vendor_id: u16,
    pub product_id: u16,
}

impl DeepView for ReceiverDiag {
    type V = ReceiverDiagModel;

    open spec fn deep_view(&self) -> ReceiverDiagModel {
        ReceiverDiagModel {
            name: self.name.deep_view(),
            vendor_id: self.vendor_id.deep_view(),
            product_id: self.product_id.deep_view(),
        }
    }
}

impl Data for ReceiverDiag {
    fn duplicate(&self) -> (r: Self) {
        ReceiverDiag {
            name: self.name.duplicate(),
            vendor_id: self.vendor_id.duplicate(),
            product_id: self.product_id.duplicate(),
        }
    }

    fn same(&self, other: &Self) -> (r: bool) {
        self.name.same(&other.name)
            && self.vendor_id.same(&other.vendor_id)
            && self.product_id.same(&other.product_id)
    }
}

/// What is reported of a device. Nothing of it tells one unit of a model from
/// another.
#[derive(Clone, Debug, PartialEq, Eq)]
pub struct DeviceDiag {
    pub display_name: String,
    pub kind: DeviceKind,
    pub codename: Option<String>,
    pub connection: ConnectionKind,
    pub online: bool,
    pub battery: Option<BatteryInfo>,
    pub capabilities: Option<Capabilities>,
    pub dpi: Option<String>,
    /// The key of the model.
    pub config_key: String,
    pub wpid: Option<u16>,
    pub model_ids: Option<Vec<u16>>,
    pub extended_model_id: Option<u8>,
    pub transports: Option<DeviceTransports>,
    /// Where its picture comes from, or `None` if it is drawn.
    pub render_depot: Option<String>,
    pub slot: u8,
}

/// What a [`DeviceDiag`] holds.
pub ghost struct DeviceDiagModel {
    pub display_name: Seq<char>,
    pub kind: DeviceKind,
    pub codename: Option<Seq<char>>,
    pub connection: ConnectionKind,
    pub online: bool,
    pub battery: Option<BatteryInfo>,
    pub capabilities: Option<Capabilities>,
    pub dpi: Option<Seq<char>>,
    pub config_key: Seq<char>,
    pub wpid: Option<u16>,
    pub model_ids: Option<Seq<u16>>,
    pub extended_model_id: Option<u8>,
    pub transports: Option<DeviceTransports>,
    pub render_depot: Option<Seq<char>>,
    pub slot: u8,
}

impl DeepView for DeviceDiag {
    type V = DeviceDiagModel;

    open spec fn deep_view(&self) -> DeviceDiagModel {
        DeviceDiagModel {
            display_name: self.display_name.deep_view(),
            kind: self.kind.deep_view(),
            codename: self.codename.deep_view(),
            connection: self.connection.deep_view(),
            online: self.online.deep_view(),
            battery: self.battery.deep_view(),
            capabilities: self.capabilities.deep_view(),
            dpi: self.dpi.deep_view(),
            config_key: self.config_key.deep_view(),
            wpid: self.wpid.deep_view(),
            model_ids: self.model_ids.deep_view(),
            extended_model_id: self.extended_model_id.deep_view(),
            transports: self.transports.deep_view(),
            render_depot: self.render_depot.deep_view(),
            slot: self.slot.deep_view(),
        }
    }
}

impl Data for DeviceDiag {
    fn duplicate(&self) -> (r: Self) {
        DeviceDiag {
            display_name: self.display_name.duplicate(),
            kind: self.kind.duplicate(),
            codename: self.codename.duplicate(),
            connection: self.connection.duplicate(),
            online: self.online.duplicate(),
            battery: self.battery.duplicate(),
            capabilities: self.capabilities.duplicate(),
            dpi: self.dpi.duplicate(),
            config_key: self.config_key.duplicate(),
            wpid: self.wpid.duplicate(),
            model_ids: self.model_ids.duplicate(),
            extended_model_id: self.extended_model_id.duplicate(),
            transports: self.transports.duplicate(),
            render_depot: self.render_depot.duplicate(),
            slot: self.slot.duplicate(),
        }
    }

    fn same(&self, other: &Self) -> (r: bool) {
        self.display_name.same(&other.display_name)
            && self.kind.same(&other.kind)
            && self.codename.same(&other.codename)
            && self.connection.same(&other.connection)
            && self.online.same(&other.online)
            && self.battery.same(&other.battery)
            && self.capabilities.same(&other.capabilities)
            && self.dpi.same(&other.dpi)
            && self.config_key.same(&other.config_key)
            && self.wpid.same(&other.wpid)
            && self.model_ids.same(&other.model_ids)
            && self.extended_model_id.same(&other.extended_model_id)
            && self.transports.same(&other.transports)
            && self.render_depot.same(&other.render_depot)
            && self.slot.same(&other.slot)
    }
}

/// The report.
#[derive(Clone, Debug, PartialEq, Eq)]
pub struct DiagnosticsReport {
    pub app: AppInfo,
    pub assets: AssetInfo,
    pub receivers: Vec<ReceiverDiag>,
    pub devices: Vec<DeviceDiag>,
}

/// What a [`DiagnosticsReport`] holds.
pub ghost struct DiagnosticsReportModel {
    pub app: AppInfoModel,
    pub assets: AssetInfoModel,
    pub receivers: Seq<ReceiverDiagModel>,
    pub devices: Seq<DeviceDiagModel>,
}

impl DeepView for DiagnosticsReport {
    type V = DiagnosticsReportModel;

    open spec fn deep_view(&self) -> DiagnosticsReportModel {
        DiagnosticsReportModel {
            app: self.app.deep_view(),
            assets: self.assets.deep_view(),
            receivers: self.receivers.deep_view(),
            devices: self.devices.deep_view(),
        }
    }
}

impl Data for DiagnosticsReport {
    fn duplicate(&self) -> (r: Self) {
        DiagnosticsReport {
            app: self.app.duplicate(),
            assets: self.assets.duplicate(),
            receivers: self.receivers.duplicate(),
            devices: self.devices.duplicate(),
        }
    }

    fn same(&self, other: &Self) -> (r: bool) {
        self.app.same(&other.app)
            && self.assets.same(&other.assets)
            && self.receivers.same(&other.receivers)
            && self.devices.same(&other.devices)
    }
}

/// Where the enumeration of devices got to.
pub open spec fn inventory_of(health: InventoryHealth) -> InventoryState {
    match health {
        InventoryHealth::Scanning => InventoryState::Scanning,
        InventoryHealth::Ready => InventoryState::Ready,
        InventoryHealth::Unavailable => InventoryState::Unavailable,
    }
}

/// Where the enumeration of devices got to.
pub fn inventory_state(health: InventoryHealth) -> (r: InventoryState)
    ensures
        r == inventory_of(health),
{
    match health {
        InventoryHealth::Scanning => InventoryState::Scanning,
        InventoryHealth::Ready => InventoryState::Ready,
        InventoryHealth::Unavailable => InventoryState::Unavailable,
    }
}

/// What an architecture is called.
pub open spec fn arch_text(arch: Seq<char>) -> Seq<char> {
    if arch == "aarch64"@ {
        "arm64"@
    } else {
        arch
    }
}

/// What an architecture is called.
pub fn arch_label(arch: &str) -> (r: String)
    ensures
        r@ == arch_text(arch@),
{
    if same_text(arch, "aarch64") {
        "arm64".to_owned()
    } else {
        arch.to_owned()
    }
}

/// Whether a character ends a component of a path: a slash does, and a backslash
/// where the home directory is written with them.
pub open spec fn separates(c: char, home: Seq<char>) -> bool {
    c == '/' || (c == '\\' && home.contains('\\'))
}

/// Whether a path begins with the text of the home directory.
pub open spec fn begins_with(path: Seq<char>, home: Seq<char>) -> bool {
    home.len() <= path.len() && path.take(home.len() as int) == home
}

/// Whether a path is the home directory, or goes on from it with a separator.
pub open spec fn continues(path: Seq<char>, home: Seq<char>) -> bool {
    &&& home.len() > 0
    &&& begins_with(path, home)
    &&& path.len() > home.len() ==> separates(path[home.len() as int], home)
}

/// A path with `~` for the home directory, if it is that directory or lies
/// below it. The separator that a home directory may end in is not part of its
/// name.
pub open spec fn redacted(path: Seq<char>, home: Option<Seq<char>>) -> Seq<char> {
    match home {
        Some(home) => if continues(path, home) {
            "~"@ + path.skip(home.len() as int)
        } else if home.len() > 1 && begins_with(path, home) && separates(home.last(), home) {
            "~"@ + path.skip(home.len() - 1)
        } else {
            path
        },
        None => path,
    }
}

fn is_separator(c: char, home: &Vec<char>) -> (r: bool)
    ensures
        r == separates(c, home@),
{
    if c == '/' {
        return true;
    }
    if c != '\\' {
        return false;
    }
    let mut i: usize = 0;
    while i < home.len()
        invariant
            c == '\\',
            i <= home@.len(),
            forall|k: int| 0 <= k < i ==> home@[k] != '\\',
        decreases home@.len() - i,
    {
        if home[i] == '\\' {
            return true;
        }
        i = i + 1;
    }
    false
}

/// A path with `~` for the home directory, so that it does not tell who is
/// logged in.
pub fn redact_home(path: &str, home: &Option<String>) -> (r: String)
    ensures
        r@ == redacted(path@, home.deep_view()),
{
    match home {
        Some(home) => {
            let chars = chars_of(path);
            let own = chars_of(home.as_str());
            let n: usize = own.len();
            if n == 0 || !starts_with(path, home.as_str()) {
                return path.to_owned();
            }
            let from: usize = if chars.len() == n || is_separator(chars[n], &own) {
                n
            } else if n > 1 && is_separator(own[n - 1], &own) {
                n - 1
            } else {
                return path.to_owned();
            };
            let rest = text_of(&chars, from, chars.len());
            proof {
                assert(rest@ =~= path@.skip(from as int));
            }
            concat("~", rest.as_str())
        },
        None => path.to_owned(),
    }
}

/// What is reported of the application.
pub open spec fn app_info_of(
    m: Option<StateModel>,
    status: Option<AgentStatusModel>,
    host: HostFactsModel,
) -> AppInfoModel {
    AppInfoModel {
        gui_version: host.gui_version,
        build_profile: host.build_profile,
        agent_version: match status {
            Some(s) => Some(s.agent_version),
            None => None,
        },
        protocol_gui: host.protocol,
        protocol_agent: match status {
            Some(s) => Some(s.protocol_version),
            None => None,
        },
        inventory: match status {
            Some(s) => Some(inventory_of(s.inventory)),
            None => None,
        },
        os: host.os,
        os_version: host.os_version,
        arch: arch_text(host.arch),
        system_locale: host.system_locale,
        ui_language: match m {
            Some(m) => m.config.app_settings.language,
            None => None,
        },
        accessibility_granted: match status {
            Some(s) => s.accessibility_granted,
            None => false,
        },
        hook_installed: match status {
            Some(s) => Some(s.hook_installed),
            None => None,
        },
        launch_at_login: match status {
            Some(s) => Some(s.launch_at_login),
            None => None,
        },
        show_in_menu_bar: match m {
            Some(m) => Some(m.config.app_settings.show_in_menu_bar),
            None => None,
        },
        check_for_updates: match m {
            Some(m) => Some(m.config.app_settings.check_for_updates),
            None => None,
        },
        thumbwheel_sensitivity: match m {
            Some(m) => Some(m.config.app_settings.thumbwheel_sensitivity),
            None => None,
        },
        config_schema_version: match m {
            Some(m) => Some(m.config.schema_version),
            None => None,
        },
        configured_device_count: match m {
            Some(m) => Some(m.config.devices.len() as usize),
            None => None,
        },
        running_from_bundle: host.running_from_bundle,
    }
}

/// What is reported of the application. What the agent says of itself is given
/// as it is now, `None` while it is away.
pub fn app_info(
    state: Option<&AppState>,
    status: Option<&AgentStatus>,
    host: &HostFacts,
) -> (r: AppInfo)
    ensures
        r.deep_view() == app_info_of(state.deep_view(), status.deep_view(), host.deep_view()),
{
    let ui_language = match state {
        Some(state) => match state.language() {
            Some(language) => Some(language.duplicate()),
            None => None,
        },
        None => None,
    };
    let (show_in_menu_bar, check_for_updates, thumbwheel_sensitivity) = match state {
        Some(state) => {
            let settings = state.app_settings();
            (
                Some(settings.show_in_menu_bar),
                Some(settings.check_for_updates),
                Some(settings.thumbwheel_sensitivity),
            )
        },
        None => (None, None, None),
    };
    let (config_schema_version, configured_device_count) = match state {
        Some(state) => {
            let (version, count) = state.config_summary();
            (Some(version), Some(count))
        },
        None => (None, None),
    };
    let agent_version = match status {
        Some(s) => Some(s.agent_version.duplicate()),
        None => None,
    };
    let protocol_agent = match status {
        Some(s) => Some(s.protocol_version),
        None => None,
    };
    let inventory = match status {
        Some(s) => Some(inventory_state(s.inventory)),
        None => None,
    };
    let accessibility_granted = match status {
        Some(s) => s.accessibility_granted,
        None => false,
    };
    let hook_installed = match status {
        Some(s) => Some(s.hook_installed),
        None => None,
    };
    let launch_at_login = match status {
        Some(s) => Some(s.launch_at_login),
        None => None,
    };
    AppInfo {
        gui_version: host.gui_version.duplicate(),
        build_profile: host.build_profile.duplicate(),
        agent_version,
        protocol_gui: host.protocol,
        protocol_agent,
        inventory,
        os: host.os.duplicate(),
        os_version: host.os_version.duplicate(),
        arch: arch_label(host.arch.as_str()),
        system_locale: host.system_locale.duplicate(),
        ui_language,
        accessibility_granted,
        hook_installed,
        launch_at_login,
        show_in_menu_bar,
        check_for_updates,
        thumbwheel_sensitivity,
        config_schema_version,
        configured_device_count,
        running_from_bundle: host.running_from_bundle,
    }
}

/// What is reported of pictures.
pub fn asset_info(
    has_bundle: bool,
    index_loaded: bool,
    index_entries: usize,
    cache_present: bool,
    cache_path: &str,
    home: &Option<String>,
) -> (r: AssetInfo)
    ensures
        r.source == (if has_bundle {
            AssetSource::Bundle
        } else if index_loaded {
            AssetSource::UserCache
        } else {
            AssetSource::Nowhere
        }),
        r.index_loaded == index_loaded,
        r.index_entries == index_entries,
        r.user_cache_present == cache_present,
        r.cache_path@ == redacted(cache_path@, home.deep_view()),
        r.bundle_present == has_bundle,
{
    let source = if has_bundle {
        AssetSource::Bundle
    } else if index_loaded {
        AssetSource::UserCache
    } else {
        AssetSource::Nowhere
    };
    AssetInfo {
        source,
        index_loaded,
        index_entries,
        user_cache_present: cache_present,
        cache_path: redact_home(cache_path, home),
        bundle_present: has_bundle,
    }
}

/// The receivers of an inventory: what has an identity of its own.
pub open spec fn receivers_of(inventories: Seq<DeviceInventoryModel>) -> Seq<ReceiverDiagModel>
    decreases inventories.len(),
{
    if inventories.len() == 0 {
        Seq::empty()
    } else {
        let before = receivers_of(inventories.drop_last());
        let receiver = inventories.last().receiver;
        if receiver.unique_id is Some {
            before.push(
                ReceiverDiagModel {
                    name: receiver.name,
                    vendor_id: receiver.vendor_id,
                    product_id: receiver.product_id,
                },
            )
        } else {
            before
        }
    }
}

/// What is reported of receivers.
pub fn collect_receivers(state: &AppState) -> (r: Vec<ReceiverDiag>)
    ensures
        r.deep_view() == receivers_of(state.deep_view().last_inventory),
{
    let inventories = state.last_inventory();
    let ghost all = inventories.deep_view();
    let mut r: Vec<ReceiverDiag> = Vec::new();
    let mut i: usize = 0;
    proof {
        assert(all.take(0) =~= Seq::empty());
        assert(r.deep_view() =~= Seq::empty());
    }
    while i < inventories.len()
        invariant
            i <= inventories@.len(),
            all == inventories.deep_view(),
            r.deep_view() == receivers_of(all.take(i as int)),
        decreases inventories@.len() - i,
    {
        let receiver = &inventories[i].receiver;
        let ghost was = r.deep_view();
        proof {
            assert(all.take(i as int + 1).drop_last() =~= all.take(i as int));
            assert(all.take(i as int + 1).last() == inventories@[i as int].deep_view());
        }
        if receiver.unique_id.is_some() {
            r.push(
                ReceiverDiag {
                    name: receiver.name.duplicate(),
                    vendor_id: receiver.vendor_id,
                    product_id: receiver.product_id,
                },
            );
            proof {
                assert(r.deep_view() =~= was.push(
                    ReceiverDiagModel {
                        name: receiver.name@,
                        vendor_id: receiver.vendor_id,
                        product_id: receiver.product_id,
                    },
                ));
            }
        }
        i = i + 1;
    }
    proof {
        assert(all.take(all.len() as int) =~= all);
    }
    r
}

/// The first device of a model among those of a receiver.
pub open spec fn paired_in(paired: Seq<PairedDeviceModel>, model: Seq<char>) -> Option<
    PairedDeviceModel,
>
    decreases paired.len(),
{
    if paired.len() == 0 {
        None
    } else {
        match paired_in(paired.drop_last(), model) {
            Some(device) => Some(device),
            None => if paired.last().model_info is Some && paired.last().model_info->0.model_key
                == model {
                Some(paired.last())
            } else {
                None
            },
        }
    }
}

/// The first device of a model in an inventory.
pub open spec fn paired_of(inventories: Seq<DeviceInventoryModel>, model: Seq<char>) -> Option<
    PairedDeviceModel,
>
    decreases inventories.len(),
{
    if inventories.len() == 0 {
        None
    } else {
        match paired_of(inventories.drop_last(), model) {
            Some(device) => Some(device),
            None => paired_in(inventories.last().paired, model),
        }
    }
}

fn find_in<'a>(paired: &'a Vec<PairedDevice>, model: &String) -> (r: Option<&'a PairedDevice>)
    ensures
        r.deep_view() == paired_in(paired.deep_view(), model@),
{
    let ghost all = paired.deep_view();
    let mut r: Option<&PairedDevice> = None;
    let mut i: usize = 0;
    proof {
        assert(all.take(0) =~= Seq::empty());
    }
    while i < paired.len()
        invariant
            i <= paired@.len(),
            all == paired.deep_view(),
            r.deep_view() == paired_in(all.take(i as int), model@),
        decreases paired@.len() - i,
    {
        proof {
            assert(all.take(i as int + 1).drop_last() =~= all.take(i as int));
            assert(all.take(i as int + 1).last() == paired@[i as int].deep_view());
        }
        if r.is_none() {
            match &paired[i].model_info {
                Some(info) => {
                    if info.model_key == *model {
                        r = Some(&paired[i]);
                    }
                },
                None => {},
            }
        }
        i = i + 1;
    }
    proof {
        assert(all.take(all.len() as int) =~= all);
    }
    r
}

/// The first device of a model in an inventory.
pub fn find_paired<'a>(model: &String, inventories: &'a Vec<DeviceInventory>) -> (r: Option<
    &'a PairedDevice,
>)
    ensures
        r.deep_view() == paired_of(inventories.deep_view(), model@),
{
    let ghost all = inventories.deep_view();
    let mut r: Option<&PairedDevice> = None;
    let mut i: usize = 0;
    proof {
        assert(all.take(0) =~= Seq::empty());
    }
    while i < inventories.len()
        invariant
            i <= inventories@.len(),
            all == inventories.deep_view(),
            r.deep_view() == paired_of(all.take(i as int), model@),
        decreases inventories@.len() - i,
    {
        proof {
            assert(all.take(i as int + 1).drop_last() =~= all.take(i as int));
            assert(all.take(i as int + 1).last() == inventories@[i as int].deep_view());
        }
        if r.is_none() {
            r = find_in(&inventories[i].paired, model);
        }
        i = i + 1;
    }
    proof {
        assert(all.take(all.len() as int) =~= all);
    }
    r
}

/// How a device is connected.
pub open spec fn connection_of(
    route: Option<RouteModel>,
    transports: Option<DeviceTransports>,
) -> ConnectionKind {
    match route {
        Some(RouteModel::Bolt(_)) => ConnectionKind::BoltReceiver,
        Some(RouteModel::Unifying(_)) => ConnectionKind::UnifyingReceiver,
        Some(RouteModel::Direct(_)) => match transports {
            Some(t) => if t.bluetooth || t.btle {
                ConnectionKind::BluetoothDirect
            } else if t.usb {
                ConnectionKind::Wired
            } else {
                ConnectionKind::Unknown
            },
            None => ConnectionKind::Unknown,
        },
        Some(RouteModel::RawHid(_)) => ConnectionKind::Wired,
        None => ConnectionKind::Unknown,
    }
}

/// How a device is connected: what it is addressed through, and for one on its
/// own what it says it can be on.
pub fn connection_for(
    route: &Option<DeviceRoute>,
    transports: Option<DeviceTransports>,
) -> (r: ConnectionKind)
    ensures
        r == connection_of(route.deep_view(), transports),
{
    match route {
        Some(DeviceRoute::Bolt { .. }) => ConnectionKind::BoltReceiver,
        Some(DeviceRoute::Unifying { .. }) => ConnectionKind::UnifyingReceiver,
        Some(DeviceRoute::Direct { .. }) => match transports {
            Some(t) => if t.bluetooth || t.btle {
                ConnectionKind::BluetoothDirect
            } else if t.usb {
                ConnectionKind::Wired
            } else {
                ConnectionKind::Unknown
            },
            None => ConnectionKind::Unknown,
        },
        Some(DeviceRoute::RawHid { .. }) => ConnectionKind::Wired,
        None => ConnectionKind::Unknown,
    }
}

/// What is said of the pointer speed of a device.
pub open spec fn dpi_text(status: Option<LoadModel<DpiInfo>>) -> Option<Seq<char>> {
    match status {
        None => None,
        Some(LoadModel::Unknown) => None,
        Some(LoadModel::Loading) => Some("querying…"@),
        Some(LoadModel::Ready(info)) => Some(
            decimal_of(info.current as nat) + " dpi (range "@ + decimal_of(info.min as nat) + "–"@
                + decimal_of(info.max as nat) + ", "@ + decimal_of(info.steps as nat) + " steps)"@,
        ),
        Some(LoadModel::Unsupported(_)) => Some("unsupported"@),
        Some(LoadModel::Failed(_)) => Some("read failed"@),
    }
}

/// What is said of the pointer speed of a device, if anything is known.
pub fn dpi_summary(status: Option<&Load<DpiInfo>>) -> (r: Option<String>)
    ensures
        r.deep_view() == dpi_text(status.deep_view()),
{
    match status {
        None => None,
        Some(Load::Unknown) => None,
        Some(Load::Loading) => Some("querying…".to_owned()),
        Some(Load::Ready(info)) => {
            let mut text = decimal(info.current as u64);
            text.append(" dpi (range ");
            text.append(decimal(info.min as u64).as_str());
            text.append("–");
            text.append(decimal(info.max as u64).as_str());
            text.append(", ");
            text.append(decimal(info.steps as u64).as_str());
            text.append(" steps)");
            Some(text)
        },
        Some(Load::Unsupported(_)) => Some("unsupported".to_owned()),
        Some(Load::Failed(_)) => Some("read failed".to_owned()),
    }
}

/// What is reported of a device.
pub open spec fn device_diag_of(m: StateModel, record: DeviceRecordModel) -> DeviceDiagModel {
    let paired = paired_of(m.last_inventory, record.model_key);
    let model = match paired {
        Some(device) => device.model_info,
        None => None,
    };
    let transports = match model {
        Some(model) => Some(model.transports),
        None => None,
    };
    DeviceDiagModel {
        display_name: record.display_name,
        kind: record.kind,
        codename: match paired {
            Some(device) => device.codename,
            None => None,
        },
        connection: connection_of(record.route, transports),
        online: record.online,
        battery: record.battery,
        capabilities: record.capabilities,
        dpi: dpi_text(
            if m.dpi_reads.by_device.contains_key(record.config_key) {
                Some(m.dpi_reads.by_device[record.config_key])
            } else {
                None
            },
        ),
        config_key: record.model_key,
        wpid: match paired {
            Some(device) => device.wpid,
            None => None,
        },
        model_ids: match model {
            Some(model) => Some(model.model_ids),
            None => None,
        },
        extended_model_id: match model {
            Some(model) => Some(model.extended_model_id),
            None => None,
        },
        transports,
        render_depot: match record.asset {
            Some(asset) => Some(asset.depot),
            None => None,
        },
        slot: record.slot,
    }
}

/// What is reported of a device.
pub fn device_diag(state: &AppState, record: &DeviceRecord) -> (r: DeviceDiag)
    ensures
        r.deep_view() == device_diag_of(state.deep_view(), record.deep_view()),
{
    let paired = find_paired(&record.model_key, state.last_inventory());
    let model = match paired {
        Some(device) => device.model_info.duplicate(),
        None => None,
    };
    let transports = match &model {
        Some(model) => Some(model.transports),
        None => None,
    };
    let codename = match paired {
        Some(device) => device.codename.duplicate(),
        None => None,
    };
    let wpid = match paired {
        Some(device) => device.wpid,
        None => None,
    };
    let model_ids = match &model {
        Some(model) => Some(model.model_ids.duplicate()),
        None => None,
    };
    let extended_model_id = match &model {
        Some(model) => Some(model.extended_model_id),
        None => None,
    };
    let render_depot = match &record.asset {
        Some(asset) => Some(asset.depot.duplicate()),
        None => None,
    };
    let dpi = dpi_summary(state.dpi_reads.get(&record.device_key()));
    DeviceDiag {
        display_name: record.display_name.duplicate(),
        kind: record.kind,
        codename,
        connection: connection_for(&record.route, transports),
        online: record.online,
        battery: record.battery.duplicate(),
        capabilities: record.capabilities.duplicate(),
        dpi,
        config_key: record.model_key.duplicate(),
        wpid,
        model_ids,
        extended_model_id,
        transports,
        render_depot,
        slot: record.slot,
    }
}

/// What is reported of devices.
pub open spec fn devices_of(m: StateModel) -> Seq<DeviceDiagModel> {
    Seq::new(m.devices.records.len(), |i: int| device_diag_of(m, m.devices.records[i]))
}

/// What is reported of devices.
pub fn collect_devices(state: &AppState) -> (r: Vec<DeviceDiag>)
    ensures
        r.deep_view() == devices_of(state.deep_view()),
{
    let ghost m = state.deep_view();
    let records = &state.devices.records;
    let mut r: Vec<DeviceDiag> = Vec::new();
    let mut i: usize = 0;
    while i < records.len()
        invariant
            i <= records@.len(),
            *records == state.devices.records,
            m == state.deep_view(),
            r@.len() == i,
            forall|k: int|
                0 <= k < i ==> (#[trigger] r@[k]).deep_view() == device_diag_of(
                    m,
                    records@[k].deep_view(),
                ),
        decreases records@.len() - i,
    {
        r.push(device_diag(state, &records[i]));
        i = i + 1;
    }
    proof {
        assert(r.deep_view() =~= devices_of(m));
    }
    r
}

/// The report, which is empty of receivers and devices before there is a state.
pub fn collect(
    state: Option<&AppState>,
    status: Option<&AgentStatus>,
    host: &HostFacts,
    assets: AssetInfo,
) -> (r: DiagnosticsReport)
    ensures
        r.deep_view() == (DiagnosticsReportModel {
            app: app_info_of(state.deep_view(), status.deep_view(), host.deep_view()),
            assets: assets.deep_view(),
            receivers: match state.deep_view() {
                Some(m) => receivers_of(m.last_inventory),
                None => Seq::empty(),
            },
            devices: match state.deep_view() {
                Some(m) => devices_of(m),
                None => Seq::empty(),
            },
        }),
{
    let app = app_info(state, status, host);
    match state {
        Some(state) => DiagnosticsReport {
            app,
            assets,
            receivers: collect_receivers(state),
            devices: collect_devices(state),
        },
        None => {
            let receivers: Vec<ReceiverDiag> = Vec::new();
            let devices: Vec<DeviceDiag> = Vec::new();
            proof {
                assert(receivers.deep_view() =~= Seq::empty());
                assert(devices.deep_view() =~= Seq::empty());
            }
            DiagnosticsReport { app, assets, receivers, devices }
        },
    }
}

/// A report tells nothing of the unit: two devices that differ only in what
/// names the unit are reported alike.
pub proof fn a_report_does_not_tell_the_unit(
    m: StateModel,
    record: DeviceRecordModel,
    inventory_key: Seq<char>,
    record_key: Seq<char>,
    route_key: Seq<char>,
)
    ensures
        device_diag_of(m, record) == device_diag_of(
            m,
            DeviceRecordModel { inventory_key, record_key, route_key, ..record },
        ),
        device_diag_of(m, record).config_key == record.model_key,
{
}

/// A report that is made while the agent is away says so.
pub proof fn a_report_without_the_agent_says_so(m: Option<StateModel>, host: HostFactsModel)
    ensures
        app_info_of(m, None, host).agent_version is None,
        app_info_of(m, None, host).protocol_agent is None,
        app_info_of(m, None, host).inventory is None,
        !app_info_of(m, None, host).accessibility_granted,
{
}

/// No path in the home directory tells where that is.
pub proof fn the_home_directory_is_redacted(home: Seq<char>, rest: Seq<char>)
    requires
        home.len() > 0,
        rest.len() > 0 ==> rest[0] == '/',
    ensures
        redacted(home + rest, Some(home)) == "~"@ + rest,
{
    assert((home + rest).take(home.len() as int) =~= home);
    assert((home + rest).skip(home.len() as int) =~= rest);
}

/// A path outside of the home directory is told as it is, also where its text
/// begins alike.
pub proof fn a_neighbour_of_the_home_directory_is_told(home: Seq<char>, rest: Seq<char>)
    requires
        home.len() > 0 ==> !separates(home.last(), home),
        rest.len() > 0,
        !separates(rest[0], home),
    ensures
        redacted(home + rest, Some(home)) == home + rest,
{
    assert((home + rest)[home.len() as int] == rest[0]);
}

/// A report tells of the application what is so: what the host says, what the agent
/// says where it is there, and what is set.
pub proof fn a_report_tells_what_is_so(
    m: StateModel,
    status: AgentStatusModel,
    host: HostFactsModel,
)
    ensures
        ({
            let info = app_info_of(Some(m), Some(status), host);
            &&& info.gui_version == host.gui_version
            &&& info.build_profile == host.build_profile
            &&& info.protocol_gui == host.protocol
            &&& info.os == host.os
            &&& info.os_version == host.os_version
            &&& info.system_locale == host.system_locale
            &&& info.running_from_bundle == host.running_from_bundle
            &&& info.agent_version == Some(status.agent_version)
            &&& info.protocol_agent == Some(status.protocol_version)
            &&& info.accessibility_granted == status.accessibility_granted
            &&& info.hook_installed == Some(status.hook_installed)
            &&& info.launch_at_login == Some(status.launch_at_login)
            &&& info.ui_language == m.config.app_settings.language
            &&& info.show_in_menu_bar == Some(m.config.app_settings.show_in_menu_bar)
            &&& info.check_for_updates == Some(m.config.app_settings.check_for_updates)
            &&& info.thumbwheel_sensitivity == Some(m.config.app_settings.thumbwheel_sensitivity)
            &&& info.config_schema_version == Some(m.config.schema_version)
            &&& host.arch != "aarch64"@ ==> info.arch == host.arch
            &&& host.arch == "aarch64"@ ==> info.arch == "arm64"@
            &&& status.inventory is Ready ==> info.inventory == Some(InventoryState::Ready)
            &&& status.inventory is Scanning ==> info.inventory == Some(InventoryState::Scanning)
            &&& status.inventory is Unavailable ==> info.inventory == Some(
                InventoryState::Unavailable,
            )
        }),
{
}

/// Every device is reported, in the order in which it is shown, as it is shown.
pub proof fn every_device_is_reported(m: StateModel, i: int)
    requires
        0 <= i < m.devices.records.len(),
    ensures
        devices_of(m).len() == m.devices.records.len(),
        devices_of(m)[i].display_name == m.devices.records[i].display_name,
        devices_of(m)[i].kind == m.devices.records[i].kind,
        devices_of(m)[i].online == m.devices.records[i].online,
        devices_of(m)[i].battery == m.devices.records[i].battery,
        devices_of(m)[i].capabilities == m.devices.records[i].capabilities,
        devices_of(m)[i].slot == m.devices.records[i].slot,
        devices_of(m)[i].config_key == m.devices.records[i].model_key,
{
}

/// What has an identity of its own is reported as a receiver, in order, and nothing
/// else is.
pub proof fn every_receiver_is_reported(inventories: Seq<DeviceInventoryModel>, i: int)
    requires
        0 <= i < inventories.len(),
    ensures
        inventories[i].receiver.unique_id is Some ==> receivers_of(inventories).contains(
            ReceiverDiagModel {
                name: inventories[i].receiver.name,
                vendor_id: inventories[i].receiver.vendor_id,
                product_id: inventories[i].receiver.product_id,
            },
        ),
        (forall|k: int|
            0 <= k < inventories.len() ==> (#[trigger] inventories[k]).receiver.unique_id is None)
            ==> receivers_of(inventories).len() == 0,
    decreases inventories.len(),
{
    let rest = inventories.drop_last();
    let before = receivers_of(rest);
    let now = receivers_of(inventories);
    let last = inventories.len() - 1;
    let told = ReceiverDiagModel {
        name: inventories[i].receiver.name,
        vendor_id: inventories[i].receiver.vendor_id,
        product_id: inventories[i].receiver.product_id,
    };
    if rest.len() > 0 {
        let k = if i < last {
            i
        } else {
            0
        };
        every_receiver_is_reported(rest, k);
        if forall|k: int|
            0 <= k < inventories.len() ==> (#[trigger] inventories[k]).receiver.unique_id is None {
            assert forall|k: int| 0 <= k < rest.len() implies (
            #[trigger] rest[k]).receiver.unique_id is None by {
                assert(rest[k] == inventories[k]);
            }
            assert(inventories[last].receiver.unique_id is None);
        }
    } else {
        assert(inventories[last] == inventories.last());
    }
    if inventories[i].receiver.unique_id is Some {
        if i < last {
            assert(rest[i] == inventories[i]);
            let k = choose|k: int| 0 <= k < before.len() && before[k] == told;
            assert(now[k] == told);
        } else {
            assert(now[before.len() as int] == told);
        }
    }
}

/// The device that is told of a model is the first of it.
pub proof fn the_first_of_a_model_is_told(paired: Seq<PairedDeviceModel>, model: Seq<char>)
    ensures
        match paired_in(paired, model) {
            Some(device) => exists|i: int|
                0 <= i < paired.len() && #[trigger] paired[i] == device && device.model_info is Some
                    && device.model_info->0.model_key == model && forall|j: int|
                    0 <= j < i ==> !((#[trigger] paired[j]).model_info is Some
                        && paired[j].model_info->0.model_key == model),
            None => forall|j: int|
                0 <= j < paired.len() ==> !((#[trigger] paired[j]).model_info is Some
                    && paired[j].model_info->0.model_key == model),
        },
    decreases paired.len(),
{
    if paired.len() > 0 {
        let rest = paired.drop_last();
        let last = paired.len() - 1;
        the_first_of_a_model_is_told(rest, model);
        assert forall|j: int| 0 <= j < rest.len() implies #[trigger] rest[j] == paired[j] by {}
        match paired_in(rest, model) {
            Some(device) => {
                let i = choose|i: int|
                    0 <= i < rest.len() && #[trigger] rest[i] == device && device.model_info is Some
                        && device.model_info->0.model_key == model && forall|j: int|
                        0 <= j < i ==> !((#[trigger] rest[j]).model_info is Some
                            && rest[j].model_info->0.model_key == model);
                assert(paired[i] == device);
                assert forall|j: int| 0 <= j < i implies !((#[trigger] paired[j]).model_info is Some
                    && paired[j].model_info->0.model_key == model) by {
                    assert(rest[j] == paired[j]);
                }
            },
            None => {
                assert forall|j: int| 0 <= j < last implies !((
                #[trigger] paired[j]).model_info is Some && paired[j].model_info->0.model_key
                    == model) by {
                    assert(rest[j] == paired[j]);
                }
                if paired_in(paired, model) is Some {
                    assert(paired[last] == paired.last());
                }
            },
        }
    }
}

/// A device goes by what it is addressed through. One of its own goes by the air
/// where it can, and by the wire where it can only that.
pub proof fn a_connection_is_what_a_device_is_addressed_through(
    route: RouteModel,
    transports: Option<DeviceTransports>,
)
    ensures
        connection_of(None, transports) is Unknown,
        route is Bolt <==> connection_of(Some(route), transports) is BoltReceiver,
        route is Unifying <==> connection_of(Some(route), transports) is UnifyingReceiver,
        route is RawHid ==> connection_of(Some(route), transports) is Wired,
        route is Direct ==> (connection_of(Some(route), transports) is BluetoothDirect <==> (
        transports matches Some(t) && (t.bluetooth || t.btle))),
        route is Direct ==> (connection_of(Some(route), transports) is Wired <==> (
        transports matches Some(t) && t.usb && !t.bluetooth && !t.btle)),
{
}

/// Nothing is said of a speed that was not asked for.
pub proof fn a_speed_is_told_once_it_is_asked_for(info: DpiInfo, message: Seq<char>)
    ensures
        dpi_text(None) is None,
        dpi_text(Some(LoadModel::Unknown)) is None,
        dpi_text(Some(LoadModel::Loading)) is Some,
        dpi_text(Some(LoadModel::Unsupported(message))) == Some("unsupported"@),
        dpi_text(Some(LoadModel::Failed(message))) == Some("read failed"@),
        dpi_text(Some(LoadModel::Ready(info))) matches Some(text) && text.len() >= decimal_of(
            info.current as nat,
        ).len() && text.take(decimal_of(info.current as nat).len() as int) == decimal_of(
            info.current as nat,
        ),
{
    let text = dpi_text(Some(LoadModel::Ready(info)))->0;
    let current = decimal_of(info.current as nat);
    assert(text.take(current.len() as int) =~= current);
}

} // verus!
