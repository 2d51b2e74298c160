//! The configuration that survives a restart.

use vstd::prelude::*;

use crate::action::{Action, ActionModel, Binding, BindingModel};
use crate::controls::ButtonId;
use crate::data::Data;
use crate::device::{
    Capabilities, DeviceKind, DeviceModelInfo, DeviceModelInfoModel, LightCapabilities,
};
use crate::keyed::Table;

verus! {

/// The resolution of a wheel.
#[derive(Clone, Copy, Debug, PartialEq, Eq, Structural)]
pub enum ScrollResolution {
    Low,
    High,
}

impl DeepView for ScrollResolution {
    type V = ScrollResolution;

    open spec fn deep_view(&self) -> ScrollResolution {
        *self
    }
}

impl Data for ScrollResolution {
    fn duplicate(&self) -> (r: Self) {
        *self
    }

    fn same(&self, other: &Self) -> (r: bool) {
        *self == *other
    }
}

/// How a wheel turns.
#[derive(Clone, Copy, Debug, PartialEq, Eq, Structural)]
pub enum SmartShiftMode {
    Ratchet,
    FreeSpin,
}

impl DeepView for SmartShiftMode {
    type V = SmartShiftMode;

    open spec fn deep_view(&self) -> SmartShiftMode {
        *self
    }
}

impl Data for SmartShiftMode {
    fn duplicate(&self) -> (r: Self) {
        *self
    }

    fn same(&self, other: &Self) -> (r: bool) {
        *self == *other
    }
}

/// How a wheel changes over between ratchet and free spin.
#[derive(Clone, Copy, Debug, PartialEq, Eq, Structural)]
pub struct SmartShiftStatus {
    pub mode: SmartShiftMode,
    /// The speed at which the ratchet disengages.
    pub auto_disengage: u8,
    pub tunable_torque: Option<u8>,
}

impl DeepView for SmartShiftStatus {
    type V = SmartShiftStatus;

    open spec fn deep_view(&self) -> SmartShiftStatus {
        *self
    }
}

impl Data for SmartShiftStatus {
    fn duplicate(&self) -> (r: Self) {
        *self
    }

    fn same(&self, other: &Self) -> (r: bool) {
        *self == *other
    }
}

/// The lighting of a keyboard.
#[derive(Clone, Copy, Debug, PartialEq, Eq, Structural)]
pub struct Lighting {
    pub enabled: bool,
    pub red: u8,
    pub green: u8,
    pub blue: u8,
}

impl DeepView for Lighting {
    type V = Lighting;

    open spec fn deep_view(&self) -> Lighting {
        *self
    }
}

impl Data for Lighting {
    fn duplicate(&self) -> (r: Self) {
        *self
    }

    fn same(&self, other: &Self) -> (r: bool) {
        *self == *other
    }
}

/// Light or dark.
#[derive(Clone, Copy, Debug, PartialEq, Eq, Structural)]
pub enum Appearance {
    System,
    Light,
    Dark,
}

impl DeepView for Appearance {
    type V = Appearance;

    open spec fn deep_view(&self) -> Appearance {
        *self
    }
}

impl Data for Appearance {
    fn duplicate(&self) -> (r: Self) {
        *self
    }

    fn same(&self, other: &Self) -> (r: bool) {
        *self == *other
    }
}

/// Where artwork is fetched from.
#[derive(Clone, Copy, Debug, PartialEq, Eq, Structural)]
pub enum AssetSourcePreference {
    Automatic,
    OpenLogi,
    Cloudflare,
}

impl DeepView for AssetSourcePreference {
    type V = AssetSourcePreference;

    open spec fn deep_view(&self) -> AssetSourcePreference {
        *self
    }
}

impl Data for AssetSourcePreference {
    fn duplicate(&self) -> (r: Self) {
        *self
    }

    fn same(&self, other: &Self) -> (r: bool) {
        *self == *other
    }
}

/// How the devices are laid out.
#[derive(Clone, Copy, Debug, PartialEq, Eq, Structural)]
pub enum DeviceViewMode {
    Grid,
    List,
    Carousel,
}

impl DeepView for DeviceViewMode {
    type V = DeviceViewMode;

    open spec fn deep_view(&self) -> DeviceViewMode {
        *self
    }
}

impl Data for DeviceViewMode {
    fn duplicate(&self) -> (r: Self) {
        *self
    }

    fn same(&self, other: &Self) -> (r: bool) {
        *self == *other
    }
}

/// What is remembered of a device while it is away.
#[derive(Clone, Debug, PartialEq, Eq)]
pub struct DeviceIdentity {
    pub display_name: String,
    pub kind: DeviceKind,
    pub capabilities: Capabilities,
    pub light_capabilities: Option<LightCapabilities>,
    pub model_info: Option<DeviceModelInfo>,
    pub codename: Option<String>,
    pub driver_id: Option<String>,
    pub registry_model_id: Option<String>,
}

/// What a [`DeviceIdentity`] holds.
pub ghost struct DeviceIdentityModel {
    pub display_name: Seq<char>,
    pub kind: DeviceKind,
    pub capabilities: Capabilities,
    pub light_capabilities: Option<LightCapabilities>,
    pub model_info: Option<DeviceModelInfoModel>,
    pub codename: Option<Seq<char>>,
    pub driver_id: Option<Seq<char>>,
    pub registry_model_id: Option<Seq<char>>,
}

impl DeepView for DeviceIdentity {
    type V = DeviceIdentityModel;

    open spec fn deep_view(&self) -> DeviceIdentityModel {
        DeviceIdentityModel {
            display_name: self.display_name.deep_view(),
            kind: self.kind.deep_view(),
            capabilities: self.capabilities.deep_view(),
            light_capabilities: self.light_capabilities.deep_view(),
            model_info: self.model_info.deep_view(),
            codename: self.codename.deep_view(),
            driver_id: self.driver_id.deep_view(),
            registry_model_id: self.registry_model_id.deep_view(),
        }
    }
}

impl Data for DeviceIdentity {
    fn duplicate(&self) -> (r: Self) {
        DeviceIdentity {
            display_name: self.display_name.duplicate(),
            kind: self.kind.duplicate(),
            capabilities: self.capabilities.duplicate(),
            light_capabilities: self.light_capabilities.duplicate(),
            model_info: self.model_info.duplicate(),
            codename: self.codename.duplicate(),
            driver_id: self.driver_id.duplicate(),
            registry_model_id: self.registry_model_id.duplicate(),
        }
    }

    fn same(&self, other: &Self) -> (r: bool) {
        self.display_name.same(&other.display_name)
            && self.kind.same(&other.kind)
            && self.capabilities.same(&other.capabilities)
            && self.light_capabilities.same(&other.light_capabilities)
            && self.model_info.same(&other.model_info)
            && self.codename.same(&other.codename)
            && self.driver_id.same(&other.driver_id)
            && self.registry_model_id.same(&other.registry_model_id)
    }
}

/// An identity without what tells one unit of the model from another.
pub open spec fn of_the_model(identity: DeviceIdentityModel) -> DeviceIdentityModel {
    DeviceIdentityModel {
        model_info: match identity.model_info {
            Some(model) => Some(
                DeviceModelInfoModel { serial_number: None, unit_id: 0, ..model },
            ),
            None => None,
        },
        ..identity
    }
}

impl DeviceIdentity {
    /// This identity without what tells one unit of the model from another.
    pub fn without_unit_identifiers(self) -> (r: DeviceIdentity)
        ensures
            r.deep_view() == of_the_model(self.deep_view()),
    {
        let mut identity = self;
        let model_info = match identity.model_info {
            Some(model) => {
                let mut model = model;
                model.serial_number = None;
                model.unit_id = 0;
                Some(model)
            },
            None => None,
        };
        identity.model_info = model_info;
        identity
    }
}

/// A slot of a ring.
#[derive(Clone, Debug, PartialEq, Eq)]
pub struct RingSlotConfig {
    pub action: Option<Action>,
    pub icon: Option<String>,
}

/// What a [`RingSlotConfig`] holds.
pub ghost struct RingSlotConfigModel {
    pub action: Option<ActionModel>,
    pub icon: Option<Seq<char>>,
}

impl DeepView for RingSlotConfig {
    type V = RingSlotConfigModel;

    open spec fn deep_view(&self) -> RingSlotConfigModel {
        RingSlotConfigModel {
            action: self.action.deep_view(),
            icon: self.icon.deep_view(),
        }
    }
}

impl Data for RingSlotConfig {
    fn duplicate(&self) -> (r: Self) {
        RingSlotConfig {
            action: self.action.duplicate(),
            icon: self.icon.duplicate(),
        }
    }

    fn same(&self, other: &Self) -> (r: bool) {
        self.action.same(&other.action)
            && self.icon.same(&other.icon)
    }
}

impl crate::keyed::Key for usize {
    open spec fn lt(a: usize, b: usize) -> bool {
        a < b
    }

    proof fn irreflexive(a: usize) {
    }

    proof fn transitive(a: usize, b: usize, c: usize) {
    }

    proof fn total(a: usize, b: usize) {
    }

    fn before(&self, other: &Self) -> (r: bool) {
        *self < *other
    }
}

/// The ring of a device.
#[derive(Clone, Debug, PartialEq, Eq)]
pub struct ActionRingConfig {
    pub enabled: bool,
    pub haptics: bool,
    /// By the index of the slot.
    pub slots: Table<usize, RingSlotConfig>,
}

/// What a [`ActionRingConfig`] holds.
pub ghost struct ActionRingConfigModel {
    pub enabled: bool,
    pub haptics: bool,
    pub slots: Map<usize, RingSlotConfigModel>,
}

impl DeepView for ActionRingConfig {
    type V = ActionRingConfigModel;

    open spec fn deep_view(&self) -> ActionRingConfigModel {
        ActionRingConfigModel {
            enabled: self.enabled.deep_view(),
            haptics: self.haptics.deep_view(),
            slots: self.slots.deep_view(),
        }
    }
}

impl Data for ActionRingConfig {
    fn duplicate(&self) -> (r: Self) {
        ActionRingConfig {
            enabled: self.enabled.duplicate(),
            haptics: self.haptics.duplicate(),
            slots: self.slots.duplicate(),
        }
    }

    fn same(&self, other: &Self) -> (r: bool) {
        self.enabled.same(&other.enabled)
            && self.haptics.same(&other.haptics)
            && self.slots.same(&other.slots)
    }
}

/// The settings of a device.
#[derive(Clone, Debug, PartialEq, Eq)]
pub struct DeviceConfig {
    /// Whether the device is managed at all.
    pub enabled: bool,
    pub custom_name: Option<String>,
    /// The bindings of every application.
    pub bindings: Table<ButtonId, Binding>,
    /// What applications override.
    pub per_app: Table<String, Table<ButtonId, Action>>,
    pub dpi: Option<u32>,
    pub smartshift: Option<SmartShiftStatus>,
    pub lighting: Option<Lighting>,
    /// What a link overrides.
    pub lighting_by_route: Table<String, Option<Lighting>>,
    pub invert_scroll: bool,
    pub scroll_resolution: Option<ScrollResolution>,
    pub thumbwheel_sensitivity: Option<u32>,
    pub identity: Option<DeviceIdentity>,
    pub action_ring: Option<ActionRingConfig>,
    pub camera_controls: Option<Table<String, i32>>,
    pub camera_profiles: Table<String, Table<String, i32>>,
    pub camera_active_profile: Option<String>,
}

/// What a [`DeviceConfig`] holds.
pub ghost struct DeviceConfigModel {
    pub enabled: bool,
    pub custom_name: Option<Seq<char>>,
    pub bindings: Map<ButtonId, BindingModel>,
    pub per_app: Map<Seq<char>, Map<ButtonId, ActionModel>>,
    pub dpi: Option<u32>,
    pub smartshift: Option<SmartShiftStatus>,
    pub lighting: Option<Lighting>,
    pub lighting_by_route: Map<Seq<char>, Option<Lighting>>,
    pub invert_scroll: bool,
    pub scroll_resolution: Option<ScrollResolution>,
    pub thumbwheel_sensitivity: Option<u32>,
    pub identity: Option<DeviceIdentityModel>,
    pub action_ring: Option<ActionRingConfigModel>,
    pub camera_controls: Option<Map<Seq<char>, i32>>,
    pub camera_profiles: Map<Seq<char>, Map<Seq<char>, i32>>,
    pub camera_active_profile: Option<Seq<char>>,
}

impl DeepView for DeviceConfig {
    type V = DeviceConfigModel;

    open spec fn deep_view(&self) -> DeviceConfigModel {
        DeviceConfigModel {
            enabled: self.enabled.deep_view(),
            custom_name: self.custom_name.deep_view(),
            bindings: self.bindings.deep_view(),
            per_app: self.per_app.deep_view(),
            dpi: self.dpi.deep_view(),
            smartshift: self.smartshift.deep_view(),
            lighting: self.lighting.deep_view(),
            lighting_by_route: self.lighting_by_route.deep_view(),
            invert_scroll: self.invert_scroll.deep_view(),
            scroll_resolution: self.scroll_resolution.deep_view(),
            thumbwheel_sensitivity: self.thumbwheel_sensitivity.deep_view(),
            identity: self.identity.deep_view(),
            action_ring: self.action_ring.deep_view(),
            camera_controls: self.camera_controls.deep_view(),
            camera_profiles: self.camera_profiles.deep_view(),
            camera_active_profile: self.camera_active_profile.deep_view(),
        }
    }
}

impl Data for DeviceConfig {
    fn duplicate(&self) -> (r: Self) {
        DeviceConfig {
            enabled: self.enabled.duplicate(),
            custom_name: self.custom_name.duplicate(),
            bindings: self.bindings.duplicate(),
            per_app: self.per_app.duplicate(),
            dpi: self.dpi.duplicate(),
            smartshift: self.smartshift.duplicate(),
            lighting: self.lighting.duplicate(),
            lighting_by_route: self.lighting_by_route.duplicate(),
            invert_scroll: self.invert_scroll.duplicate(),
            scroll_resolution: self.scroll_resolution.duplicate(),
            thumbwheel_sensitivity: self.thumbwheel_sensitivity.duplicate(),
            identity: self.identity.duplicate(),
            action_ring: self.action_ring.duplicate(),
            camera_controls: self.camera_controls.duplicate(),
            camera_profiles: self.camera_profiles.duplicate(),
            camera_active_profile: self.camera_active_profile.duplicate(),
        }
    }

    fn same(&self, other: &Self) -> (r: bool) {
        self.enabled.same(&other.enabled)
            && self.custom_name.same(&other.custom_name)
            && self.bindings.same(&other.bindings)
            && self.per_app.same(&other.per_app)
            && self.dpi.same(&other.dpi)
            && self.smartshift.same(&other.smartshift)
            && self.lighting.same(&other.lighting)
            && self.lighting_by_route.same(&other.lighting_by_route)
            && self.invert_scroll.same(&other.invert_scroll)
            && self.scroll_resolution.same(&other.scroll_resolution)
            && self.thumbwheel_sensitivity.same(&other.thumbwheel_sensitivity)
            && self.identity.same(&other.identity)
            && self.action_ring.same(&other.action_ring)
            && self.camera_controls.same(&other.camera_controls)
            && self.camera_profiles.same(&other.camera_profiles)
            && self.camera_active_profile.same(&other.camera_active_profile)
    }
}

/// The settings of a device that has none.
pub open spec fn blank_row() -> DeviceConfigModel {
    DeviceConfigModel {
        enabled: true,
        custom_name: None,
        bindings: Map::empty(),
        per_app: Map::empty(),
        dpi: None,
        smartshift: None,
        lighting: None,
        lighting_by_route: Map::empty(),
        invert_scroll: false,
        scroll_resolution: None,
        thumbwheel_sensitivity: None,
        identity: None,
        action_ring: None,
        camera_controls: None,
        camera_profiles: Map::empty(),
        camera_active_profile: None,
    }
}

impl Default for DeviceConfig {
    fn default() -> (r: Self)
        ensures
            r.deep_view() == blank_row(),
    {
        DeviceConfig {
            enabled: true,
            custom_name: None,
            bindings: Table::new(),
            per_app: Table::new(),
            dpi: None,
            smartshift: None,
            lighting: None,
            lighting_by_route: Table::new(),
            invert_scroll: false,
            scroll_resolution: None,
            thumbwheel_sensitivity: None,
            identity: None,
            action_ring: None,
            camera_controls: None,
            camera_profiles: Table::new(),
            camera_active_profile: None,
        }
    }
}

/// The settings of the application.
#[derive(Clone, Debug, PartialEq, Eq)]
pub struct AppSettings {
    pub launch_at_login: bool,
    pub show_in_menu_bar: bool,
    pub check_for_updates: bool,
    pub auto_install_updates: bool,
    pub update_prompt_seen: bool,
    pub appearance: Appearance,
    pub theme_light: Option<String>,
    pub theme_dark: Option<String>,
    pub app_icon: String,
    pub ui_radius: Option<u8>,
    pub thumbwheel_sensitivity: u32,
    pub auto_download_assets: bool,
    pub asset_source: AssetSourcePreference,
    pub language: Option<String>,
    pub device_view_mode: DeviceViewMode,
}

/// What a [`AppSettings`] holds.
pub ghost struct AppSettingsModel {
    pub launch_at_login: bool,
    pub show_in_menu_bar: bool,
    pub check_for_updates: bool,
    pub auto_install_updates: bool,
    pub update_prompt_seen: bool,
    pub appearance: Appearance,
    pub theme_light: Option<Seq<char>>,
    pub theme_dark: Option<Seq<char>>,
    pub app_icon: Seq<char>,
    pub ui_radius: Option<u8>,
    pub thumbwheel_sensitivity: u32,
    pub auto_download_assets: bool,
    pub asset_source: AssetSourcePreference,
    pub language: Option<Seq<char>>,
    pub device_view_mode: DeviceViewMode,
}

impl DeepView for AppSettings {
    type V = AppSettingsModel;

    open spec fn deep_view(&self) -> AppSettingsModel {
        AppSettingsModel {
            launch_at_login: self.launch_at_login.deep_view(),
            show_in_menu_bar: self.show_in_menu_bar.deep_view(),
            check_for_updates: self.check_for_updates.deep_view(),
            auto_install_updates: self.auto_install_updates.deep_view(),
            update_prompt_seen: self.update_prompt_seen.deep_view(),
            appearance: self.appearance.deep_view(),
            theme_light: self.theme_light.deep_view(),
            theme_dark: self.theme_dark.deep_view(),
            app_icon: self.app_icon.deep_view(),
            ui_radius: self.ui_radius.deep_view(),
            thumbwheel_sensitivity: self.thumbwheel_sensitivity.deep_view(),
            auto_download_assets: self.auto_download_assets.deep_view(),
            asset_source: self.asset_source.deep_view(),
            language: self.language.deep_view(),
            device_view_mode: self.device_view_mode.deep_view(),
        }
    }
}

impl Data for AppSettings {
    fn duplicate(&self) -> (r: Self) {
        AppSettings {
            launch_at_login: self.launch_at_login.duplicate(),
            show_in_menu_bar: self.show_in_menu_bar.duplicate(),
            check_for_updates: self.check_for_updates.duplicate(),
            auto_install_updates: self.auto_install_updates.duplicate(),
            update_prompt_seen: self.update_prompt_seen.duplicate(),
            appearance: self.appearance.duplicate(),
            theme_light: self.theme_light.duplicate(),
            theme_dark: self.theme_dark.duplicate(),
            app_icon: self.app_icon.duplicate(),
            ui_radius: self.ui_radius.duplicate(),
            thumbwheel_sensitivity: self.thumbwheel_sensitivity.duplicate(),
            auto_download_assets: self.auto_download_assets.duplicate(),
            asset_source: self.asset_source.duplicate(),
            language: self.language.duplicate(),
            device_view_mode: self.device_view_mode.duplicate(),
        }
    }

    fn same(&self, other: &Self) -> (r: bool) {
        self.launch_at_login.same(&other.launch_at_login)
            && self.show_in_menu_bar.same(&other.show_in_menu_bar)
            && self.check_for_updates.same(&other.check_for_updates)
            && self.auto_install_updates.same(&other.auto_install_updates)
            && self.update_prompt_seen.same(&other.update_prompt_seen)
            && self.appearance.same(&other.appearance)
            && self.theme_light.same(&other.theme_light)
            && self.theme_dark.same(&other.theme_dark)
            && self.app_icon.same(&other.app_icon)
            && self.ui_radius.same(&other.ui_radius)
            && self.thumbwheel_sensitivity.same(&other.thumbwheel_sensitivity)
            && self.auto_download_assets.same(&other.auto_download_assets)
            && self.asset_source.same(&other.asset_source)
            && self.language.same(&other.language)
            && self.device_view_mode.same(&other.device_view_mode)
    }
}

/// The configuration.
#[derive(Clone, Debug, PartialEq, Eq)]
pub struct Config {
    pub schema_version: u32,
    pub selected_device: Option<String>,
    pub devices: Table<String, DeviceConfig>,
    /// What the function keys of every keyboard do.
    pub keyboard: Table<String, Action>,
    pub app_settings: AppSettings,
}

/// What a [`Config`] holds.
pub ghost struct ConfigModel {
    pub schema_version: u32,
    pub selected_device: Option<Seq<char>>,
    pub devices: Map<Seq<char>, DeviceConfigModel>,
    pub keyboard: Map<Seq<char>, ActionModel>,
    pub app_settings: AppSettingsModel,
}

impl DeepView for Config {
    type V = ConfigModel;

    open spec fn deep_view(&self) -> ConfigModel {
        ConfigModel {
            schema_version: self.schema_version.deep_view(),
            selected_device: self.selected_device.deep_view(),
            devices: self.devices.deep_view(),
            keyboard: self.keyboard.deep_view(),
            app_settings: self.app_settings.deep_view(),
        }
    }
}

impl Data for Config {
    fn duplicate(&self) -> (r: Self) {
        Config {
            schema_version: self.schema_version.duplicate(),
            selected_device: self.selected_device.duplicate(),
            devices: self.devices.duplicate(),
            keyboard: self.keyboard.duplicate(),
            app_settings: self.app_settings.duplicate(),
        }
    }

    fn same(&self, other: &Self) -> (r: bool) {
        self.schema_version.same(&other.schema_version)
            && self.selected_device.same(&other.selected_device)
            && self.devices.same(&other.devices)
            && self.keyboard.same(&other.keyboard)
            && self.app_settings.same(&other.app_settings)
    }
}

/// The settings of a device.
pub open spec fn row_of(config: ConfigModel, key: Seq<char>) -> DeviceConfigModel {
    if config.devices.contains_key(key) {
        config.devices[key]
    } else {
        blank_row()
    }
}

/// The configuration with other settings for a device.
pub open spec fn with_row(config: ConfigModel, key: Seq<char>, row: DeviceConfigModel) -> ConfigModel {
    ConfigModel { devices: config.devices.insert(key, row), ..config }
}

/// The overrides of an application, none where it has no profile.
pub open spec fn overrides_of(row: DeviceConfigModel, app: Seq<char>) -> Map<ButtonId, ActionModel> {
    if row.per_app.contains_key(app) {
        row.per_app[app]
    } else {
        Map::empty()
    }
}

/// The profiles with other overrides for an application; a profile without any
/// is dropped.
pub open spec fn with_overrides(
    row: DeviceConfigModel,
    app: Seq<char>,
    overrides: Map<ButtonId, ActionModel>,
) -> DeviceConfigModel {
    DeviceConfigModel {
        per_app: if overrides == Map::<ButtonId, ActionModel>::empty() {
            row.per_app.remove(app)
        } else {
            row.per_app.insert(app, overrides)
        },
        ..row
    }
}

/// A row with one override set or dropped.
pub open spec fn with_override(
    row: DeviceConfigModel,
    app: Seq<char>,
    button: ButtonId,
    action: Option<ActionModel>,
) -> DeviceConfigModel {
    with_overrides(
        row,
        app,
        match action {
            Some(action) => overrides_of(row, app).insert(button, action),
            None => overrides_of(row, app).remove(button),
        },
    )
}

/// The lighting of a device on a link: what the link overrides, and otherwise
/// what the device has.
pub open spec fn effective_lighting(row: DeviceConfigModel, route: Seq<char>) -> Option<Lighting> {
    if row.lighting_by_route.contains_key(route) {
        row.lighting_by_route[route]
    } else {
        row.lighting
    }
}

impl DeviceConfig {
    /// The lighting of this device on a link.
    pub fn effective_lighting(&self, route: &String) -> (r: Option<Lighting>)
        ensures
            r == effective_lighting(self.deep_view(), route@),
    {
        match self.lighting_by_route.get(route) {
            Some(lighting) => *lighting,
            None => self.lighting,
        }
    }
}

impl Config {
    /// The settings of a device.
    pub fn row(&self, key: &String) -> (r: DeviceConfig)
        ensures
            r.deep_view() == row_of(self.deep_view(), key@),
    {
        match self.devices.get(key) {
            Some(row) => row.duplicate(),
            None => DeviceConfig::default(),
        }
    }

    /// Replace the settings of a device.
    pub fn put_row(&mut self, key: &String, row: DeviceConfig)
        ensures
            final(self).deep_view() == with_row(old(self).deep_view(), key@, row.deep_view()),
    {
        self.devices.insert(key.clone(), row);
    }

    /// The bindings of a device in every application.
    pub fn bindings_for(&self, key: &String) -> (r: Table<ButtonId, Binding>)
        ensures
            r.deep_view() == row_of(self.deep_view(), key@).bindings,
    {
        self.row(key).bindings
    }

    /// Bind a control of a device in every application.
    pub fn set_binding(&mut self, key: &String, button: ButtonId, binding: Binding)
        ensures
            final(self).deep_view() == with_row(
                old(self).deep_view(),
                key@,
                DeviceConfigModel {
                    bindings: row_of(old(self).deep_view(), key@).bindings.insert(
                        button,
                        binding.deep_view(),
                    ),
                    ..row_of(old(self).deep_view(), key@)
                },
            ),
    {
        let mut row = self.row(key);
        row.bindings.insert(button, binding);
        self.put_row(key, row);
    }

    /// The overrides of an application, if it has a profile.
    pub fn per_app_overrides(&self, key: &String, app: &String) -> (r: Option<
        Table<ButtonId, Action>,
    >)
        ensures
            r.deep_view() == (if row_of(self.deep_view(), key@).per_app.contains_key(app@) {
                Some(row_of(self.deep_view(), key@).per_app[app@])
            } else {
                None
            }),
    {
        let row = self.row(key);
        match row.per_app.get(app) {
            Some(overrides) => Some(overrides.duplicate()),
            None => None,
        }
    }

    /// Whether an application has a profile.
    pub fn has_app_override(&self, key: &String, app: &String) -> (r: bool)
        ensures
            r == row_of(self.deep_view(), key@).per_app.contains_key(app@),
    {
        self.row(key).per_app.contains(app)
    }

    /// Set or drop what an application overrides. A profile that overrides
    /// nothing any more goes.
    pub fn set_per_app_binding(
        &mut self,
        key: &String,
        app: &String,
        button: ButtonId,
        action: Option<Action>,
    )
        ensures
            final(self).deep_view() == with_row(
                old(self).deep_view(),
                key@,
                with_override(
                    row_of(old(self).deep_view(), key@),
                    app@,
                    button,
                    action.deep_view(),
                ),
            ),
    {
        let mut row = self.row(key);
        let mut overrides = match row.per_app.remove(app) {
            Some(overrides) => overrides,
            None => Table::new(),
        };
        match action {
            Some(action) => overrides.insert(button, action),
            None => {
                overrides.remove(&button);
            },
        }
        let ghost kept = overrides.deep_view();
        let count = overrides.len();
        if count > 0 {
            proof {
                assert(kept.len() > 0);
                assert(kept != Map::<ButtonId, ActionModel>::empty()) by {
                    assert(Map::<ButtonId, ActionModel>::empty().len() == 0);
                }
                assert(row.per_app.deep_view().insert(app@, kept) =~= row_of(
                    old(self).deep_view(),
                    key@,
                ).per_app.insert(app@, kept));
            }
            row.per_app.insert(app.clone(), overrides);
        } else {
            proof {
                assert(kept.dom() =~= Set::empty());
                assert(kept =~= Map::<ButtonId, ActionModel>::empty());
            }
        }
        self.put_row(key, row);
    }

    /// Drop the profile of an application.
    pub fn remove_app_profile(&mut self, key: &String, app: &String)
        ensures
            final(self).deep_view() == with_row(
                old(self).deep_view(),
                key@,
                DeviceConfigModel {
                    per_app: row_of(old(self).deep_view(), key@).per_app.remove(app@),
                    ..row_of(old(self).deep_view(), key@)
                },
            ),
    {
        let mut row = self.row(key);
        row.per_app.remove(app);
        self.put_row(key, row);
    }

    /// The resolution of the wheel of a device, if it is set.
    pub fn scroll_resolution(&self, key: &String) -> (r: Option<ScrollResolution>)
        ensures
            r == row_of(self.deep_view(), key@).scroll_resolution,
    {
        self.row(key).scroll_resolution
    }

    /// The lighting of a device.
    pub fn lighting(&self, key: &String) -> (r: Option<Lighting>)
        ensures
            r == row_of(self.deep_view(), key@).lighting,
    {
        self.row(key).lighting
    }

    /// Set the lighting of a device.
    pub fn set_lighting(&mut self, key: &String, lighting: Lighting)
        ensures
            final(self).deep_view() == with_row(
                old(self).deep_view(),
                key@,
                DeviceConfigModel {
                    lighting: Some(lighting),
                    ..row_of(old(self).deep_view(), key@)
                },
            ),
    {
        let mut row = self.row(key);
        row.lighting = Some(lighting);
        self.put_row(key, row);
    }

    /// What is remembered of a device.
    pub fn device_identity(&self, key: &String) -> (r: Option<DeviceIdentity>)
        ensures
            r.deep_view() == row_of(self.deep_view(), key@).identity,
    {
        self.row(key).identity
    }

    /// Remember a device.
    pub fn set_device_identity(&mut self, key: &String, identity: DeviceIdentity)
        ensures
            final(self).deep_view() == with_row(
                old(self).deep_view(),
                key@,
                DeviceConfigModel {
                    identity: Some(identity.deep_view()),
                    ..row_of(old(self).deep_view(), key@)
                },
            ),
    {
        let mut row = self.row(key);
        row.identity = Some(identity);
        self.put_row(key, row);
    }

    /// The controls of a camera, if any are kept.
    pub fn camera_controls(&self, key: &String) -> (r: Option<Table<String, i32>>)
        ensures
            r.deep_view() == row_of(self.deep_view(), key@).camera_controls,
    {
        self.row(key).camera_controls
    }

    /// Keep the controls of a camera.
    pub fn set_camera_controls(&mut self, key: &String, controls: Table<String, i32>)
        ensures
            final(self).deep_view() == with_row(
                old(self).deep_view(),
                key@,
                DeviceConfigModel {
                    camera_controls: Some(controls.deep_view()),
                    ..row_of(old(self).deep_view(), key@)
                },
            ),
    {
        let mut row = self.row(key);
        row.camera_controls = Some(controls);
        self.put_row(key, row);
    }

    /// The speed of the thumb wheel of a device: its own, and otherwise that of
    /// the application.
    pub fn thumbwheel_sensitivity(&self, key: &String) -> (r: u32)
        ensures
            r == match row_of(self.deep_view(), key@).thumbwheel_sensitivity {
                Some(own) => own,
                None => self.app_settings.thumbwheel_sensitivity,
            },
    {
        match self.row(key).thumbwheel_sensitivity {
            Some(own) => own,
            None => self.app_settings.thumbwheel_sensitivity,
        }
    }

    /// A configuration with nothing in it.
    pub fn empty(app_settings: AppSettings) -> (r: Config)
        ensures
            r.deep_view() == (ConfigModel {
                schema_version: 0,
                selected_device: None,
                devices: Map::empty(),
                keyboard: Map::empty(),
                app_settings: app_settings.deep_view(),
            }),
    {
        Config {
            schema_version: 0,
            selected_device: None,
            devices: Table::new(),
            keyboard: Table::new(),
            app_settings,
        }
    }
}

/// Setting what an application overrides and dropping it again leaves what the
/// application inherited, and never an empty profile.
pub proof fn dropping_an_override_restores_the_inherited_binding(
    row: DeviceConfigModel,
    app: Seq<char>,
    button: ButtonId,
    action: ActionModel,
)
    requires
        !overrides_of(row, app).contains_key(button),
        row.per_app.contains_key(app) ==> row.per_app[app] != Map::<
            ButtonId,
            ActionModel,
        >::empty(),
    ensures
        with_override(with_override(row, app, button, Some(action)), app, button, None) == row,
{
    let once = with_override(row, app, button, Some(action));
    let overrides = overrides_of(row, app).insert(button, action);
    assert(overrides.contains_key(button));
    assert(overrides != Map::<ButtonId, ActionModel>::empty());
    assert(overrides_of(once, app) == overrides);
    assert(overrides.remove(button) =~= overrides_of(row, app));
    let twice = with_override(once, app, button, None);
    if row.per_app.contains_key(app) {
        assert(twice.per_app =~= row.per_app);
    } else {
        assert(twice.per_app =~= row.per_app);
    }
}

/// Settings that were put for a device are read back, and those of others stay. A
/// device without any has everything at its default, and is managed.
pub proof fn a_row_reads_back(
    config: ConfigModel,
    key: Seq<char>,
    row: DeviceConfigModel,
    other: Seq<char>,
)
    ensures
        row_of(with_row(config, key, row), key) == row,
        with_row(config, key, row).devices.contains_key(key),
        other != key ==> row_of(with_row(config, key, row), other) == row_of(config, other),
        other != key ==> (with_row(config, key, row).devices.contains_key(other)
            <==> config.devices.contains_key(other)),
        with_row(config, key, row).selected_device == config.selected_device,
        with_row(config, key, row).keyboard == config.keyboard,
        with_row(config, key, row).app_settings == config.app_settings,
        with_row(config, key, row).schema_version == config.schema_version,
        !config.devices.contains_key(other) ==> {
            let blank = row_of(config, other);
            &&& blank.enabled
            &&& blank.custom_name is None
            &&& blank.bindings.dom() == Set::<ButtonId>::empty()
            &&& blank.per_app.dom() == Set::<Seq<char>>::empty()
            &&& blank.dpi is None
            &&& blank.smartshift is None
            &&& blank.lighting is None
            &&& !blank.invert_scroll
            &&& blank.scroll_resolution is None
            &&& blank.thumbwheel_sensitivity is None
            &&& blank.identity is None
            &&& blank.action_ring is None
            &&& blank.camera_controls is None
        },
{
    assert(blank_row().bindings.dom() =~= Set::<ButtonId>::empty());
    assert(blank_row().per_app.dom() =~= Set::<Seq<char>>::empty());
}

/// An override that was set is there, and one that was dropped is not. The other
/// overrides of the application, those of the others, and everything else about the
/// device stay. A profile without overrides is none.
pub proof fn an_override_is_set_or_dropped_alone(
    row: DeviceConfigModel,
    app: Seq<char>,
    button: ButtonId,
    action: Option<ActionModel>,
    control: ButtonId,
    other: Seq<char>,
)
    ensures
        ({
            let after = with_override(row, app, button, action);
            let before = if row.per_app.contains_key(app) {
                row.per_app[app]
            } else {
                Map::empty()
            };
            &&& action matches Some(action) ==> after.per_app.contains_key(app)
                && after.per_app[app].contains_key(button) && after.per_app[app][button] == action
            &&& action is None && after.per_app.contains_key(app)
                ==> !after.per_app[app].contains_key(button)
            &&& control != button && before.contains_key(control) ==> after.per_app.contains_key(
                app,
            ) && after.per_app[app].contains_key(control) && after.per_app[app][control]
                == before[control]
            &&& control != button && !before.contains_key(control) && after.per_app.contains_key(
                app,
            ) ==> !after.per_app[app].contains_key(control)
            &&& after.per_app.contains_key(app) ==> after.per_app[app] != Map::<
                ButtonId,
                ActionModel,
            >::empty()
            &&& other != app ==> (after.per_app.contains_key(other) <==> row.per_app.contains_key(
                other,
            ))
            &&& other != app && row.per_app.contains_key(other) ==> after.per_app[other]
                == row.per_app[other]
            &&& after == (DeviceConfigModel { per_app: after.per_app, ..row })
        }),
{
    let before = if row.per_app.contains_key(app) {
        row.per_app[app]
    } else {
        Map::<ButtonId, ActionModel>::empty()
    };
    let next = match action {
        Some(action) => before.insert(button, action),
        None => before.remove(button),
    };
    assert(before == overrides_of(row, app));
    if action is Some {
        assert(next.contains_key(button));
        assert(next != Map::<ButtonId, ActionModel>::empty());
    }
    if control != button && before.contains_key(control) {
        assert(next.contains_key(control));
        assert(next != Map::<ButtonId, ActionModel>::empty());
    }
}

/// What a link has of its own goes before what the device has, be it nothing.
pub proof fn a_link_goes_before_the_device(row: DeviceConfigModel, route: Seq<char>)
    ensures
        row.lighting_by_route.contains_key(route) ==> effective_lighting(row, route)
            == row.lighting_by_route[route],
        !row.lighting_by_route.contains_key(route) ==> effective_lighting(row, route)
            == row.lighting,
{
}

/// What tells one unit from another is left out of an identity, and the rest stays.
pub proof fn an_identity_is_that_of_the_model(identity: DeviceIdentityModel)
    ensures
        ({
            let of = of_the_model(identity);
            &&& of.model_info is Some <==> identity.model_info is Some
            &&& of.model_info matches Some(model) ==> {
                &&& model.serial_number is None
                &&& model.unit_id == 0
                &&& model.model_key == identity.model_info->0.model_key
                &&& model.model_ids == identity.model_info->0.model_ids
                &&& model.transports == identity.model_info->0.transports
            }
            &&& of == (DeviceIdentityModel { model_info: of.model_info, ..identity })
        }),
{
}

} // verus!
