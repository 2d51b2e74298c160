//! The state that the views of the application share.
//!
//! An edit changes the configuration in memory first. It then has to reach the
//! disk: an edit that does not is taken back, so that nothing is shown as kept
//! that is not. What has to be sent to the agent is left in an outbox.

use vstd::prelude::*;

use crate::action::{Action, ActionModel, Binding, BindingModel};
use crate::config::{
    blank_row, overrides_of, row_of, ActionRingConfig, ActionRingConfigModel, Config, ConfigModel,
    DeviceConfig, DeviceConfigModel, Lighting, SmartShiftStatus,
};
use crate::controls::{ButtonId, GestureDirection};
use crate::data::Data;
use crate::device::{
    persistent_key, DeviceInventory, DeviceInventoryModel, DeviceKey, DeviceRecord,
    DeviceRecordModel, DeviceRoute, RouteModel,
};
use crate::keyed::{is_among, Key, Table};
use crate::load::{LazyDeviceData, LazyModel, LoadModel, SmartShiftWriteStatus};

verus! {

/// The resolution that a pointer is shown with before anything is known.
pub const DEFAULT_DPI: u32 = 1600;

/// The resolution of a pointer and what it can be.
#[derive(Clone, Copy, Debug, PartialEq, Eq, Structural)]
pub struct DpiInfo {
    pub current: u32,
    pub min: u32,
    pub max: u32,
    pub steps: u32,
}

impl DeepView for DpiInfo {
    type V = DpiInfo;

    open spec fn deep_view(&self) -> DpiInfo {
        *self
    }
}

impl Data for DpiInfo {
    fn duplicate(&self) -> (r: Self) {
        *self
    }

    fn same(&self, other: &Self) -> (r: bool) {
        *self == *other
    }
}

/// An application that was in front.
#[derive(Clone, Debug, PartialEq, Eq)]
pub struct ForegroundApp {
    pub id: String,
    pub display_name: String,
}

/// What a [`ForegroundApp`] holds.
pub ghost struct ForegroundAppModel {
    pub id: Seq<char>,
    pub display_name: Seq<char>,
}

impl DeepView for ForegroundApp {
    type V = ForegroundAppModel;

    open spec fn deep_view(&self) -> ForegroundAppModel {
        ForegroundAppModel {
            id: self.id.deep_view(),
            display_name: self.display_name.deep_view(),
        }
    }
}

impl Data for ForegroundApp {
    fn duplicate(&self) -> (r: Self) {
        ForegroundApp {
            id: self.id.duplicate(),
            display_name: self.display_name.duplicate(),
        }
    }

    fn same(&self, other: &Self) -> (r: bool) {
        self.id.same(&other.id)
            && self.display_name.same(&other.display_name)
    }
}

/// The applications that the agent saw in front.
#[derive(Clone, Debug, PartialEq, Eq)]
pub struct ForegroundApps {
    pub current: Option<ForegroundApp>,
    /// The newest first, without this application itself.
    pub recent: Vec<ForegroundApp>,
}

/// What a [`ForegroundApps`] holds.
pub ghost struct ForegroundAppsModel {
    pub current: Option<ForegroundAppModel>,
    pub recent: Seq<ForegroundAppModel>,
}

impl DeepView for ForegroundApps {
    type V = ForegroundAppsModel;

    open spec fn deep_view(&self) -> ForegroundAppsModel {
        ForegroundAppsModel {
            current: self.current.deep_view(),
            recent: self.recent.deep_view(),
        }
    }
}

impl Data for ForegroundApps {
    fn duplicate(&self) -> (r: Self) {
        ForegroundApps {
            current: self.current.duplicate(),
            recent: self.recent.duplicate(),
        }
    }

    fn same(&self, other: &Self) -> (r: bool) {
        self.current.same(&other.current)
            && self.recent.same(&other.recent)
    }
}

/// The profile that is open, and the device it was opened on.
#[derive(Clone, Debug, PartialEq, Eq)]
pub struct EditingScope {
    pub device_key: String,
    pub app: String,
}

/// What a [`EditingScope`] holds.
pub ghost struct EditingScopeModel {
    pub device_key: Seq<char>,
    pub app: Seq<char>,
}

impl DeepView for EditingScope {
    type V = EditingScopeModel;

    open spec fn deep_view(&self) -> EditingScopeModel {
        EditingScopeModel {
            device_key: self.device_key.deep_view(),
            app: self.app.deep_view(),
        }
    }
}

impl Data for EditingScope {
    fn duplicate(&self) -> (r: Self) {
        EditingScope {
            device_key: self.device_key.duplicate(),
            app: self.app.duplicate(),
        }
    }

    fn same(&self, other: &Self) -> (r: bool) {
        self.device_key.same(&other.device_key)
            && self.app.same(&other.app)
    }
}

/// What is kept of a device while the application runs.
#[derive(Clone, Debug, PartialEq, Eq)]
pub struct DeviceUiState {
    pub manual_light_override: Option<bool>,
    /// How many inventories in a row left the device out.
    pub inventory_misses: u8,
    /// The write that waits for a confirming read.
    pub smartshift_pending_confirm: Option<u64>,
    pub smartshift_write_status: Option<SmartShiftWriteStatus>,
}

/// What a [`DeviceUiState`] holds.
pub ghost struct DeviceUiStateModel {
    pub manual_light_override: Option<bool>,
    pub inventory_misses: u8,
    pub smartshift_pending_confirm: Option<u64>,
    pub smartshift_write_status: Option<SmartShiftWriteStatus>,
}

impl DeepView for DeviceUiState {
    type V = DeviceUiStateModel;

    open spec fn deep_view(&self) -> DeviceUiStateModel {
        DeviceUiStateModel {
            manual_light_override: self.manual_light_override.deep_view(),
            inventory_misses: self.inventory_misses.deep_view(),
            smartshift_pending_confirm: self.smartshift_pending_confirm.deep_view(),
            smartshift_write_status: self.smartshift_write_status.deep_view(),
        }
    }
}

impl Data for DeviceUiState {
    fn duplicate(&self) -> (r: Self) {
        DeviceUiState {
            manual_light_override: self.manual_light_override.duplicate(),
            inventory_misses: self.inventory_misses.duplicate(),
            smartshift_pending_confirm: self.smartshift_pending_confirm.duplicate(),
            smartshift_write_status: self.smartshift_write_status.duplicate(),
        }
    }

    fn same(&self, other: &Self) -> (r: bool) {
        self.manual_light_override.same(&other.manual_light_override)
            && self.inventory_misses.same(&other.inventory_misses)
            && self.smartshift_pending_confirm.same(&other.smartshift_pending_confirm)
            && self.smartshift_write_status.same(&other.smartshift_write_status)
    }
}

/// A row of which nothing is known.
pub open spec fn blank_ui() -> DeviceUiStateModel {
    DeviceUiStateModel {
        manual_light_override: None,
        inventory_misses: 0,
        smartshift_pending_confirm: None,
        smartshift_write_status: None,
    }
}

impl Default for DeviceUiState {
    fn default() -> (r: Self)
        ensures
            r.deep_view() == blank_ui(),
    {
        DeviceUiState {
            manual_light_override: None,
            inventory_misses: 0,
            smartshift_pending_confirm: None,
            smartshift_write_status: None,
        }
    }
}

/// The devices, which of them is selected, and what is kept of each.
#[derive(Debug)]
pub struct DeviceStore {
    pub selected: Option<usize>,
    pub records: Vec<DeviceRecord>,
    pub runtime: Table<DeviceKey, DeviceUiState>,
}

/// What a [`DeviceStore`] holds.
pub ghost struct StoreModel {
    pub selected: Option<usize>,
    pub records: Seq<DeviceRecordModel>,
    pub runtime: Map<Seq<char>, DeviceUiStateModel>,
}

impl DeepView for DeviceStore {
    type V = StoreModel;

    open spec fn deep_view(&self) -> StoreModel {
        StoreModel {
            selected: self.selected,
            records: self.records.deep_view(),
            runtime: self.runtime.deep_view(),
        }
    }
}

/// The selection nearest to `wanted` in a list of `len` devices.
pub open spec fn clamped(len: nat, wanted: usize) -> Option<usize> {
    if len == 0 {
        None
    } else if wanted < len {
        Some(wanted)
    } else {
        Some((len - 1) as usize)
    }
}

/// The selection nearest to `wanted` in a list of `len` devices.
fn clamp_selection(len: usize, wanted: usize) -> (r: Option<usize>)
    ensures
        r == clamped(len as nat, wanted),
{
    if len == 0 {
        None
    } else if wanted < len {
        Some(wanted)
    } else {
        Some((len - 1) as usize)
    }
}

/// Whether a selection is one of the devices, and there is one if there are
/// devices.
pub open spec fn selection_is_valid(store: StoreModel) -> bool {
    match store.selected {
        Some(index) => index < store.records.len(),
        None => store.records.len() == 0,
    }
}

/// The selected device.
pub open spec fn current_of(store: StoreModel) -> Option<DeviceRecordModel> {
    match store.selected {
        Some(index) => if index < store.records.len() {
            Some(store.records[index as int])
        } else {
            None
        },
        None => None,
    }
}

impl DeviceStore {
    /// The devices with one of them selected, the last if `selected` is beyond.
    pub fn new(records: Vec<DeviceRecord>, selected: usize) -> (r: DeviceStore)
        ensures
            r.deep_view() == (StoreModel {
                selected: clamped(records@.len(), selected),
                records: records.deep_view(),
                runtime: Map::empty(),
            }),
            selection_is_valid(r.deep_view()),
    {
        let selected = clamp_selection(records.len(), selected);
        DeviceStore { selected, records, runtime: Table::new() }
    }

    /// Which device is selected.
    pub fn selected_index(&self) -> (r: Option<usize>)
        ensures
            r == self.selected,
    {
        self.selected
    }

    /// The selected device.
    pub fn current(&self) -> (r: Option<&DeviceRecord>)
        ensures
            r.deep_view() == current_of(self.deep_view()),
            r matches Some(record) ==> self.selected is Some && self.selected->0
                < self.records@.len() && *record == self.records@[self.selected->0 as int],
    {
        match self.selected {
            Some(index) => if index < self.records.len() {
                Some(&self.records[index])
            } else {
                None
            },
            None => None,
        }
    }

    /// Select a device. Nothing changes for one that is not there or that is
    /// selected already.
    pub fn select(&mut self, index: usize) -> (r: bool)
        ensures
            r == (index < old(self).records@.len() && old(self).selected != Some(index)),
            final(self).deep_view() == (if r {
                StoreModel { selected: Some(index), ..old(self).deep_view() }
            } else {
                old(self).deep_view()
            }),
    {
        let already = match self.selected {
            Some(selected) => selected == index,
            None => false,
        };
        if index >= self.records.len() || already {
            return false;
        }
        self.selected = Some(index);
        true
    }

    /// Replace the devices, keeping what is kept of each.
    pub fn replace(&mut self, records: Vec<DeviceRecord>, selected: usize)
        ensures
            final(self).deep_view() == (StoreModel {
                selected: clamped(records@.len(), selected),
                records: records.deep_view(),
                ..old(self).deep_view()
            }),
            selection_is_valid(final(self).deep_view()),
    {
        self.selected = clamp_selection(records.len(), selected);
        self.records = records;
    }
}

/// What controls do where nothing is configured.
#[derive(Clone, Debug, PartialEq, Eq)]
pub struct Defaults {
    pub actions: Table<ButtonId, Action>,
    pub gestures: Table<GestureDirection, Action>,
    /// The controls that gesture unless they are bound otherwise.
    pub gesture_buttons: Vec<ButtonId>,
    /// The controls whose gestures start out from the defaults.
    pub seeded_buttons: Vec<ButtonId>,
    pub ring: ActionRingConfig,
    /// The lighting of a device that has none stored.
    pub lighting: Lighting,
}

/// What [`Defaults`] hold.
pub ghost struct DefaultsModel {
    pub actions: Map<ButtonId, ActionModel>,
    pub gestures: Map<GestureDirection, ActionModel>,
    pub gesture_buttons: Seq<ButtonId>,
    pub seeded_buttons: Seq<ButtonId>,
    pub ring: ActionRingConfigModel,
    pub lighting: Lighting,
}

impl DeepView for Defaults {
    type V = DefaultsModel;

    open spec fn deep_view(&self) -> DefaultsModel {
        DefaultsModel {
            actions: self.actions.deep_view(),
            gestures: self.gestures.deep_view(),
            gesture_buttons: self.gesture_buttons.deep_view(),
            seeded_buttons: self.seeded_buttons.deep_view(),
            ring: self.ring.deep_view(),
            lighting: self.lighting,
        }
    }
}

/// Where edits of the configuration go.
#[derive(Clone, Debug, PartialEq, Eq)]
pub enum ConfigPersistence {
    /// To a file. Whoever owns the file writes it and reports back.
    UserFile,
    /// Nowhere: the file could not be read, and is not to be overwritten.
    ReadOnly(String),
    /// Nowhere, and that is all right.
    MemoryOnly,
}

/// Why the configuration needs attention.
#[derive(Clone, Debug, PartialEq, Eq)]
pub enum ConfigIssue {
    /// It could not be read or written.
    Persistence(String),
    /// The agent did not take it.
    Reload(String),
}

/// What a [`ConfigIssue`] holds.
pub ghost enum IssueModel {
    Persistence(Seq<char>),
    Reload(Seq<char>),
}

impl DeepView for ConfigIssue {
    type V = IssueModel;

    open spec fn deep_view(&self) -> IssueModel {
        match self {
            ConfigIssue::Persistence(m) => IssueModel::Persistence(m@),
            ConfigIssue::Reload(m) => IssueModel::Reload(m@),
        }
    }
}

/// The text of an issue.
pub open spec fn issue_text(issue: IssueModel) -> Seq<char> {
    match issue {
        IssueModel::Persistence(m) => m,
        IssueModel::Reload(m) => m,
    }
}

impl ConfigIssue {
    /// The text of this issue.
    pub fn message(&self) -> (r: &str)
        ensures
            r@ == issue_text(self.deep_view()),
    {
        match self {
            ConfigIssue::Persistence(m) => m.as_str(),
            ConfigIssue::Reload(m) => m.as_str(),
        }
    }
}

/// Something for others to do.
#[derive(Clone, Debug, PartialEq, Eq)]
pub enum Command {
    /// The agent is to read the configuration anew.
    ReloadConfig,
    /// The agent is to set a wheel.
    SetSmartShift(DeviceRoute, SmartShiftStatus),
    /// The agent is to light a keyboard.
    SetLighting(DeviceRoute, Lighting),
    /// The application is to wear an icon.
    ApplyAppIcon(String),
}

/// What a [`Command`] holds.
pub ghost enum CommandModel {
    ReloadConfig,
    SetSmartShift(RouteModel, SmartShiftStatus),
    SetLighting(RouteModel, Lighting),
    ApplyAppIcon(Seq<char>),
}

impl DeepView for Command {
    type V = CommandModel;

    open spec fn deep_view(&self) -> CommandModel {
        match self {
            Command::ReloadConfig => CommandModel::ReloadConfig,
            Command::SetSmartShift(route, status) => CommandModel::SetSmartShift(
                route.deep_view(),
                *status,
            ),
            Command::SetLighting(route, lighting) => CommandModel::SetLighting(
                route.deep_view(),
                *lighting,
            ),
            Command::ApplyAppIcon(icon) => CommandModel::ApplyAppIcon(icon@),
        }
    }
}

/// What follows once an edit is on disk.
#[derive(Clone, Debug, PartialEq, Eq)]
pub enum Then {
    /// Nothing.
    Done,
    /// A command goes out.
    Send(Command),
    /// A wheel is set, and the write waits to be confirmed.
    SmartShift { key: DeviceKey, route: Option<DeviceRoute>, status: SmartShiftStatus },
}

/// What a [`Then`] holds.
pub ghost enum ThenModel {
    Done,
    Send(CommandModel),
    SmartShift(Seq<char>, Option<RouteModel>, SmartShiftStatus),
}

impl DeepView for Then {
    type V = ThenModel;

    open spec fn deep_view(&self) -> ThenModel {
        match self {
            Then::Done => ThenModel::Done,
            Then::Send(command) => ThenModel::Send(command.deep_view()),
            Then::SmartShift { key, route, status } => ThenModel::SmartShift(
                key.deep_view(),
                route.deep_view(),
                *status,
            ),
        }
    }
}

/// An edit that has to be written to the file before it counts.
#[derive(Clone, Debug, PartialEq, Eq)]
pub struct Save {
    /// Whether the agent has to read the configuration anew.
    pub reload: bool,
    /// What follows.
    pub then_do: Then,
}

/// What a [`Save`] holds.
pub ghost struct SaveModel {
    pub reload: bool,
    pub then_do: ThenModel,
}

impl DeepView for Save {
    type V = SaveModel;

    open spec fn deep_view(&self) -> SaveModel {
        SaveModel { reload: self.reload, then_do: self.then_do.deep_view() }
    }
}

/// The shared state.
#[derive(Debug)]
pub struct AppState {
    pub devices: DeviceStore,
    pub foreground: ForegroundApps,
    pub editing_scope: Option<EditingScope>,
    pub button_bindings: Table<ButtonId, Action>,
    pub gesture_bindings: Table<ButtonId, Table<GestureDirection, Action>>,
    pub keyboard_bindings: Table<String, Action>,
    pub dpi: u32,
    pub dpi_reads: LazyDeviceData<DpiInfo>,
    pub smartshift_reads: LazyDeviceData<SmartShiftStatus>,
    pub next_smartshift_write_id: u64,
    pub config: Config,
    /// The configuration that last reached the disk.
    pub persisted_config: Config,
    pub config_persistence: ConfigPersistence,
    pub config_issue: Option<ConfigIssue>,
    pub last_inventory: Vec<DeviceInventory>,
    pub defaults: Defaults,
    pub outbox: Vec<Command>,
}

/// What an [`AppState`] holds.
pub ghost struct StateModel {
    pub devices: StoreModel,
    pub foreground: ForegroundAppsModel,
    pub editing_scope: Option<EditingScopeModel>,
    pub button_bindings: Map<ButtonId, ActionModel>,
    pub gesture_bindings: Map<ButtonId, Map<GestureDirection, ActionModel>>,
    pub keyboard_bindings: Map<Seq<char>, ActionModel>,
    pub dpi: u32,
    pub dpi_reads: LazyModel<DpiInfo>,
    pub smartshift_reads: LazyModel<SmartShiftStatus>,
    pub next_smartshift_write_id: u64,
    pub config: ConfigModel,
    pub persisted_config: ConfigModel,
    pub config_persistence: ConfigPersistence,
    pub config_issue: Option<IssueModel>,
    pub last_inventory: Seq<DeviceInventoryModel>,
    pub defaults: DefaultsModel,
    pub outbox: Seq<CommandModel>,
}

impl DeepView for AppState {
    type V = StateModel;

    open spec fn deep_view(&self) -> StateModel {
        StateModel {
            devices: self.devices.deep_view(),
            foreground: self.foreground.deep_view(),
            editing_scope: self.editing_scope.deep_view(),
            button_bindings: self.button_bindings.deep_view(),
            gesture_bindings: self.gesture_bindings.deep_view(),
            keyboard_bindings: self.keyboard_bindings.deep_view(),
            dpi: self.dpi,
            dpi_reads: self.dpi_reads.deep_view(),
            smartshift_reads: self.smartshift_reads.deep_view(),
            next_smartshift_write_id: self.next_smartshift_write_id,
            config: self.config.deep_view(),
            persisted_config: self.persisted_config.deep_view(),
            config_persistence: self.config_persistence,
            config_issue: self.config_issue.deep_view(),
            last_inventory: self.last_inventory.deep_view(),
            defaults: self.defaults.deep_view(),
            outbox: self.outbox.deep_view(),
        }
    }
}

/// The key under which settings of the selected device are kept, if they are.
pub open spec fn current_key(m: StateModel) -> Option<Seq<char>> {
    match current_of(m.devices) {
        Some(record) => persistent_key(record),
        None => None,
    }
}

/// The application whose profile is open on the selected device.
pub open spec fn editing(m: StateModel) -> Option<Seq<char>> {
    match (current_key(m), m.editing_scope) {
        (Some(key), Some(scope)) => if scope.device_key == key {
            Some(scope.app)
        } else {
            None
        },
        _ => None,
    }
}

/// The single actions among bindings.
pub open spec fn singles(bindings: Map<ButtonId, BindingModel>) -> Map<ButtonId, ActionModel> {
    Map::new(
        |b: ButtonId| bindings.contains_key(b) && bindings[b] is Single,
        |b: ButtonId| bindings[b]->Single_0,
    )
}

/// What the controls of a device do: the defaults, under what the device binds,
/// under what the application overrides.
pub open spec fn projected(
    defaults: DefaultsModel,
    row: DeviceConfigModel,
    app: Option<Seq<char>>,
) -> Map<ButtonId, ActionModel> {
    let device = defaults.actions.union_prefer_right(singles(row.bindings));
    match app {
        Some(app) => device.union_prefer_right(overrides_of(row, app)),
        None => device,
    }
}

/// The row of the selected device.
pub open spec fn current_row(m: StateModel) -> DeviceConfigModel {
    match current_key(m) {
        Some(key) => row_of(m.config, key),
        None => blank_row(),
    }
}

/// What the controls of the selected device do in the profile that is open.
pub open spec fn shown_bindings(m: StateModel) -> Map<ButtonId, ActionModel> {
    projected(m.defaults, current_row(m), editing(m))
}

/// The directions of a control that gestures.
pub open spec fn seeded(
    defaults: DefaultsModel,
    button: ButtonId,
    map: Map<GestureDirection, ActionModel>,
) -> Map<GestureDirection, ActionModel> {
    if defaults.seeded_buttons.contains(button) {
        defaults.gestures.union_prefer_right(map)
    } else {
        map
    }
}

/// Whether a control gestures.
pub open spec fn gestures(defaults: DefaultsModel, row: DeviceConfigModel, button: ButtonId) -> bool {
    if row.bindings.contains_key(button) {
        row.bindings[button] is Gesture
    } else {
        defaults.gesture_buttons.contains(button)
    }
}

/// The directions that a control is bound in, before they are seeded.
pub open spec fn bound_directions(row: DeviceConfigModel, button: ButtonId) -> Map<
    GestureDirection,
    ActionModel,
> {
    if row.bindings.contains_key(button) && row.bindings[button] is Gesture {
        row.bindings[button]->Gesture_0
    } else {
        Map::empty()
    }
}

/// The directions of every control of a device that gestures.
pub open spec fn gesture_maps(defaults: DefaultsModel, row: DeviceConfigModel) -> Map<
    ButtonId,
    Map<GestureDirection, ActionModel>,
> {
    Map::new(
        |b: ButtonId| gestures(defaults, row, b),
        |b: ButtonId| seeded(defaults, b, bound_directions(row, b)),
    )
}

/// The gestures of the selected device, none where it keeps no settings.
pub open spec fn device_gestures(m: StateModel) -> Map<ButtonId, Map<GestureDirection, ActionModel>> {
    match current_key(m) {
        Some(key) => gesture_maps(m.defaults, row_of(m.config, key)),
        None => Map::empty(),
    }
}

/// The gestures that can be edited: those of the device, and none while the
/// profile of an application is open, which has no directions.
pub open spec fn shown_gestures(m: StateModel) -> Map<ButtonId, Map<GestureDirection, ActionModel>> {
    if editing(m) is Some {
        Map::empty()
    } else {
        device_gestures(m)
    }
}

/// The state with what the panels show derived anew.
pub open spec fn reprojected(m: StateModel) -> StateModel {
    StateModel { button_bindings: shown_bindings(m), gesture_bindings: shown_gestures(m), ..m }
}

/// The state with the last configuration that reached the disk.
pub open spec fn restored(m: StateModel) -> StateModel {
    let back = reprojected(StateModel { config: m.persisted_config, ..m });
    StateModel {
        keyboard_bindings: m.persisted_config.keyboard,
        dpi: match current_key(m) {
            Some(key) => match row_of(m.persisted_config, key).dpi {
                Some(dpi) => dpi,
                None => m.dpi,
            },
            None => m.dpi,
        },
        ..back
    }
}

/// What is kept of a device.
pub open spec fn ui_of(m: StateModel, key: Seq<char>) -> DeviceUiStateModel {
    if m.devices.runtime.contains_key(key) {
        m.devices.runtime[key]
    } else {
        blank_ui()
    }
}

/// The state with something else kept of a device.
pub open spec fn with_ui(m: StateModel, key: Seq<char>, ui: DeviceUiStateModel) -> StateModel {
    StateModel {
        devices: StoreModel { runtime: m.devices.runtime.insert(key, ui), ..m.devices },
        ..m
    }
}

/// The next identity after `id`; the last one stays.
pub open spec fn next_id(id: u64) -> u64 {
    if id < u64::MAX {
        (id + 1) as u64
    } else {
        u64::MAX
    }
}

/// The state once a wheel was set: the value is shown at once, and waits to be
/// confirmed where there is a route to read it back over.
pub open spec fn wheel_set(
    m: StateModel,
    key: Seq<char>,
    route: Option<RouteModel>,
    status: SmartShiftStatus,
) -> StateModel {
    let shown = StateModel {
        smartshift_reads: LazyModel {
            by_device: m.smartshift_reads.by_device.insert(key, LoadModel::Ready(status)),
            ..m.smartshift_reads
        },
        ..m
    };
    match route {
        Some(route) => with_ui(
            StateModel {
                outbox: m.outbox.push(CommandModel::SetSmartShift(route, status)),
                next_smartshift_write_id: next_id(m.next_smartshift_write_id),
                ..shown
            },
            key,
            DeviceUiStateModel {
                smartshift_pending_confirm: Some(m.next_smartshift_write_id),
                smartshift_write_status: Some(
                    SmartShiftWriteStatus::Applying {
                        expected: status,
                        write_id: m.next_smartshift_write_id,
                    },
                ),
                ..ui_of(m, key)
            },
        ),
        None => with_ui(
            shown,
            key,
            DeviceUiStateModel {
                smartshift_write_status: Some(SmartShiftWriteStatus::Failed),
                ..ui_of(m, key)
            },
        ),
    }
}

/// The state once what follows an edit is done.
pub open spec fn followed(m: StateModel, then_do: ThenModel) -> StateModel {
    match then_do {
        ThenModel::Done => m,
        ThenModel::Send(command) => StateModel { outbox: m.outbox.push(command), ..m },
        ThenModel::SmartShift(key, route, status) => wheel_set(m, key, route, status),
    }
}

/// The state once an edit is on disk.
pub open spec fn landed(m: StateModel, save: SaveModel) -> StateModel {
    followed(
        StateModel {
            persisted_config: m.config,
            config_issue: if m.config_issue matches Some(IssueModel::Persistence(_)) {
                None
            } else {
                m.config_issue
            },
            outbox: if save.reload {
                m.outbox.push(CommandModel::ReloadConfig)
            } else {
                m.outbox
            },
            ..m
        },
        save.then_do,
    )
}

/// The state once an edit could not be written.
pub open spec fn refused(m: StateModel, message: Seq<char>) -> StateModel {
    restored(StateModel { config_issue: Some(IssueModel::Persistence(message)), ..m })
}

/// The state once an edit was made: where it goes to a file, as it is, until
/// the file is written; where it may not be kept, taken back; and otherwise as
/// if it had been written.
pub open spec fn persisted(m: StateModel, save: SaveModel) -> StateModel {
    match m.config_persistence {
        ConfigPersistence::UserFile => m,
        ConfigPersistence::ReadOnly(_) => restored(m),
        ConfigPersistence::MemoryOnly => landed(m, save),
    }
}

/// What is left to be written once an edit was made.
pub open spec fn to_write(m: StateModel, save: SaveModel) -> Option<SaveModel> {
    match m.config_persistence {
        ConfigPersistence::UserFile => Some(save),
        _ => None,
    }
}

/// An edit that the agent has to hear of, with nothing to follow.
pub open spec fn reloading() -> SaveModel {
    SaveModel { reload: true, then_do: ThenModel::Done }
}

/// An edit that is no concern of the agent's.
pub open spec fn quiet() -> SaveModel {
    SaveModel { reload: false, then_do: ThenModel::Done }
}

/// The single actions of a device laid over `base`.
fn overlay_singles(base: Table<ButtonId, Action>, bindings: &Table<ButtonId, Binding>) -> (r: Table<
    ButtonId,
    Action,
>)
    ensures
        r.deep_view() == base.deep_view().union_prefer_right(singles(bindings.deep_view())),
{
    let mut r = base;
    let ghost under = r.deep_view();
    let ghost all = bindings.deep_view();
    let ghost keys = bindings.keys();
    let n: usize = bindings.len();
    let mut i: usize = 0;
    proof {
        assert(under.union_prefer_right(singles(all.restrict(keys.take(0).to_set()))) =~= under);
    }
    while i < n
        invariant
            i <= n,
            n == keys.len(),
            keys == bindings.keys(),
            all == bindings.deep_view(),
            keys.to_set() == all.dom(),
            r.deep_view() == under.union_prefer_right(
                singles(all.restrict(keys.take(i as int).to_set())),
            ),
        decreases n - i,
    {
        let button: ButtonId = *bindings.key_at(i);
        if let Binding::Single(action) = bindings.value_at(i) {
            r.insert(button, action.duplicate());
        }
        proof {
            assert(all.contains_key(button));
            lemma_next_key(keys, i as int);
            assert(r.deep_view() =~= under.union_prefer_right(
                singles(all.restrict(keys.take(i as int + 1).to_set())),
            ));
        }
        i = i + 1;
    }
    proof {
        assert(keys.take(n as int) =~= keys);
        assert(all.restrict(keys.to_set()) =~= all);
    }
    r
}

/// What the first keys are, one by one.
pub proof fn lemma_next_key<A>(keys: Seq<A>, i: int)
    requires
        0 <= i < keys.len(),
    ensures
        forall|x: A|
            #[trigger] keys.take(i + 1).to_set().contains(x) <==> (x == keys[i] || keys.take(
                i,
            ).to_set().contains(x)),
{
    assert forall|x: A|
        #[trigger] keys.take(i + 1).to_set().contains(x) <==> (x == keys[i] || keys.take(
            i,
        ).to_set().contains(x)) by {
        let longer = keys.take(i + 1);
        let shorter = keys.take(i);
        if x == keys[i] {
            assert(longer[i] == x);
        }
        if shorter.contains(x) {
            let j = choose|j: int| 0 <= j < shorter.len() && shorter[j] == x;
            assert(longer[j] == x);
        }
        if longer.contains(x) && x != keys[i] {
            let j = choose|j: int| 0 <= j < longer.len() && longer[j] == x;
            assert(shorter[j] == x);
        }
    }
}

/// One table laid over another.
pub fn overlay<K: Key, V: Data>(base: Table<K, V>, over: &Table<K, V>) -> (r: Table<K, V>)
    ensures
        r.deep_view() == base.deep_view().union_prefer_right(over.deep_view()),
{
    let mut r = base;
    let ghost under = r.deep_view();
    let ghost all = over.deep_view();
    let ghost keys = over.keys();
    let n: usize = over.len();
    let mut i: usize = 0;
    proof {
        assert(under.union_prefer_right(all.restrict(keys.take(0).to_set())) =~= under);
    }
    while i < n
        invariant
            i <= n,
            n == keys.len(),
            keys == over.keys(),
            all == over.deep_view(),
            keys.to_set() == all.dom(),
            r.deep_view() == under.union_prefer_right(all.restrict(keys.take(i as int).to_set())),
        decreases n - i,
    {
        r.insert(over.key_at(i).duplicate(), over.value_at(i).duplicate());
        proof {
            assert(all.contains_key(keys[i as int]));
            lemma_next_key(keys, i as int);
            assert(r.deep_view() =~= under.union_prefer_right(
                all.restrict(keys.take(i as int + 1).to_set()),
            ));
        }
        i = i + 1;
    }
    proof {
        assert(keys.take(n as int) =~= keys);
        assert(all.restrict(keys.to_set()) =~= all);
    }
    r
}

impl Defaults {
    /// A copy that holds the same data.
    pub fn duplicate(&self) -> (r: Defaults)
        ensures
            r.deep_view() == self.deep_view(),
    {
        Defaults {
            actions: self.actions.duplicate(),
            gestures: self.gestures.duplicate(),
            gesture_buttons: self.gesture_buttons.duplicate(),
            seeded_buttons: self.seeded_buttons.duplicate(),
            ring: self.ring.duplicate(),
            lighting: self.lighting,
        }
    }

    /// What the controls of a device do.
    pub fn project(&self, row: &DeviceConfig, app: Option<&String>) -> (r: Table<ButtonId, Action>)
        ensures
            r.deep_view() == projected(self.deep_view(), row.deep_view(), app.deep_view()),
    {
        let device = overlay_singles(self.actions.duplicate(), &row.bindings);
        match app {
            Some(app) => match row.per_app.get(app) {
                Some(overrides) => overlay(device, overrides),
                None => {
                    proof {
                        assert(device.deep_view().union_prefer_right(
                            Map::<ButtonId, ActionModel>::empty(),
                        ) =~= device.deep_view());
                    }
                    device
                },
            },
            None => device,
        }
    }

    /// The directions of a control that gestures.
    pub fn seed(&self, button: ButtonId, map: &Table<GestureDirection, Action>) -> (r: Table<
        GestureDirection,
        Action,
    >)
        ensures
            r.deep_view() == seeded(self.deep_view(), button, map.deep_view()),
    {
        if is_among(&button, &self.seeded_buttons) {
            overlay(self.gestures.duplicate(), map)
        } else {
            map.duplicate()
        }
    }

    /// Whether a control gestures.
    pub fn is_gesture_mode(&self, row: &DeviceConfig, button: ButtonId) -> (r: bool)
        ensures
            r == gestures(self.deep_view(), row.deep_view(), button),
    {
        match row.bindings.get(&button) {
            Some(binding) => matches!(binding, Binding::Gesture(_)),
            None => is_among(&button, &self.gesture_buttons),
        }
    }

    /// The directions of every control of a device that gestures.
    pub fn gesture_maps(&self, row: &DeviceConfig) -> (r: Table<
        ButtonId,
        Table<GestureDirection, Action>,
    >)
        ensures
            r.deep_view() == gesture_maps(self.deep_view(), row.deep_view()),
    {
        let ghost d = self.deep_view();
        let ghost m = row.deep_view();
        let ghost want = gesture_maps(d, m);
        let mut r: Table<ButtonId, Table<GestureDirection, Action>> = Table::new();
        let ghost keys = row.bindings.keys();
        let n: usize = row.bindings.len();
        let mut i: usize = 0;
        proof {
            assert(want.restrict(keys.take(0).to_set()) =~= Map::empty());
        }
        while i < n
            invariant
                i <= n,
                n == keys.len(),
                keys == row.bindings.keys(),
                d == self.deep_view(),
                m == row.deep_view(),
                want == gesture_maps(d, m),
                keys.to_set() == m.bindings.dom(),
                r.deep_view() == want.restrict(keys.take(i as int).to_set()),
            decreases n - i,
        {
            let button: ButtonId = *row.bindings.key_at(i);
            if let Binding::Gesture(map) = row.bindings.value_at(i) {
                r.insert(button, self.seed(button, map));
            }
            proof {
                assert(m.bindings.contains_key(button));
                lemma_next_key(keys, i as int);
                assert(r.deep_view() =~= want.restrict(keys.take(i as int + 1).to_set()));
            }
            i = i + 1;
        }
        proof {
            assert(keys.take(n as int) =~= keys);
        }
        let ghost bound = m.bindings.dom();
        let mut j: usize = 0;
        proof {
            assert(r.deep_view() =~= want.restrict(
                bound.union(d.gesture_buttons.take(0).to_set()),
            ));
        }
        while j < self.gesture_buttons.len()
            invariant
                j <= self.gesture_buttons@.len(),
                d == self.deep_view(),
                m == row.deep_view(),
                want == gesture_maps(d, m),
                bound == m.bindings.dom(),
                r.deep_view() == want.restrict(
                    bound.union(d.gesture_buttons.take(j as int).to_set()),
                ),
            decreases self.gesture_buttons@.len() - j,
        {
            let button: ButtonId = self.gesture_buttons[j];
            proof {
                assert(d.gesture_buttons[j as int] == button);
                lemma_next_key(d.gesture_buttons, j as int);
            }
            if !row.bindings.contains(&button) {
                let none: Table<GestureDirection, Action> = Table::new();
                r.insert(button, self.seed(button, &none));
                proof {
                    assert(gestures(d, m, button));
                }
            }
            proof {
                assert(r.deep_view() =~= want.restrict(
                    bound.union(d.gesture_buttons.take(j as int + 1).to_set()),
                ));
            }
            j = j + 1;
        }
        proof {
            assert(d.gesture_buttons.take(d.gesture_buttons.len() as int) =~= d.gesture_buttons);
            assert(r.deep_view() =~= want);
        }
        r
    }
}

impl AppState {
    /// The selected device.
    pub fn current_record(&self) -> (r: Option<&DeviceRecord>)
        ensures
            r.deep_view() == current_of(self.deep_view().devices),
    {
        self.devices.current()
    }

    /// The key under which settings of the selected device are kept.
    pub fn current_config_key(&self) -> (r: Option<String>)
        ensures
            r.deep_view() == current_key(self.deep_view()),
    {
        match self.devices.current() {
            Some(record) => match record.persistent_config_key() {
                Some(key) => Some(key.clone()),
                None => None,
            },
            None => None,
        }
    }

    /// Whether settings of the selected device are kept at all.
    pub fn current_device_is_persistent(&self) -> (r: bool)
        ensures
            r == (current_key(self.deep_view()) is Some),
    {
        match self.devices.current() {
            Some(record) => record.is_persistent(),
            None => false,
        }
    }

    /// The application whose profile is open, or `None` for that of every
    /// application. A profile that was opened on another device does not count.
    pub fn editing_app(&self) -> (r: Option<String>)
        ensures
            r.deep_view() == editing(self.deep_view()),
    {
        match (self.current_config_key(), &self.editing_scope) {
            (Some(key), Some(scope)) => if scope.device_key == key {
                Some(scope.app.clone())
            } else {
                None
            },
            _ => None,
        }
    }

    /// The settings of the selected device.
    pub fn current_config(&self) -> (r: DeviceConfig)
        ensures
            r.deep_view() == current_row(self.deep_view()),
    {
        match self.current_config_key() {
            Some(key) => self.config.row(&key),
            None => DeviceConfig::default(),
        }
    }

    /// What the controls of the selected device do in the open profile.
    pub fn bindings_for_current(&self) -> (r: Table<ButtonId, Action>)
        ensures
            r.deep_view() == shown_bindings(self.deep_view()),
    {
        let row = self.current_config();
        let app = self.editing_app();
        match &app {
            Some(app) => self.defaults.project(&row, Some(app)),
            None => self.defaults.project(&row, None),
        }
    }

    /// The gestures of the selected device, whatever profile is open.
    pub fn device_gesture_maps(&self) -> (r: Table<ButtonId, Table<GestureDirection, Action>>)
        ensures
            r.deep_view() == device_gestures(self.deep_view()),
    {
        match self.current_config_key() {
            Some(key) => self.defaults.gesture_maps(&self.config.row(&key)),
            None => Table::new(),
        }
    }

    /// The gestures that can be edited in the open profile.
    pub fn current_gesture_maps(&self) -> (r: Table<ButtonId, Table<GestureDirection, Action>>)
        ensures
            r.deep_view() == shown_gestures(self.deep_view()),
    {
        if self.editing_app().is_some() {
            Table::new()
        } else {
            self.device_gesture_maps()
        }
    }

    /// Derive what the panels show anew.
    pub fn refresh_binding_projections(&mut self)
        ensures
            final(self).deep_view() == reprojected(old(self).deep_view()),
    {
        self.button_bindings = self.bindings_for_current();
        self.gesture_bindings = self.current_gesture_maps();
    }

    /// Take back what did not reach the disk.
    fn restore_persisted_config(&mut self)
        ensures
            final(self).deep_view() == restored(old(self).deep_view()),
    {
        self.config = self.persisted_config.duplicate();
        self.refresh_binding_projections();
        self.keyboard_bindings = self.config.keyboard.duplicate();
        if let Some(key) = self.current_config_key() {
            if let Some(dpi) = self.config.row(&key).dpi {
                self.dpi = dpi;
            }
        }
    }

    /// Leave something for others to do.
    fn send(&mut self, command: Command)
        ensures
            final(self).deep_view() == (StateModel {
                outbox: old(self).deep_view().outbox.push(command.deep_view()),
                ..old(self).deep_view()
            }),
    {
        let ghost before = self.outbox.deep_view();
        let ghost added = command.deep_view();
        self.outbox.push(command);
        proof {
            assert(self.outbox.deep_view() =~= before.push(added));
        }
    }

    /// What is kept of a device.
    pub fn ui(&self, key: &DeviceKey) -> (r: DeviceUiState)
        ensures
            r.deep_view() == ui_of(self.deep_view(), key.deep_view()),
    {
        match self.devices.runtime.get(key) {
            Some(ui) => ui.duplicate(),
            None => DeviceUiState::default(),
        }
    }

    /// Do what follows an edit that is on disk.
    pub(crate) fn follow(&mut self, then_do: Then)
        ensures
            final(self).deep_view() == followed(old(self).deep_view(), then_do.deep_view()),
            then_do matches Then::SmartShift { route: Some(route), status, .. }
                ==> final(self).deep_view().outbox == old(self).deep_view().outbox.push(
                CommandModel::SetSmartShift(route.deep_view(), status),
            ),
            then_do matches Then::SmartShift { route: None, .. } ==> final(self).deep_view().outbox
                == old(self).deep_view().outbox,
            then_do matches Then::Send(command) ==> final(self).deep_view().outbox == old(
                self,
            ).deep_view().outbox.push(command.deep_view()),
    {
        match then_do {
            Then::Done => {},
            Then::Send(command) => self.send(command),
            Then::SmartShift { key, route, status } => {
                let mut ui = self.ui(&key);
                self.smartshift_reads.set_ready(key.duplicate(), status);
                match route {
                    Some(route) => {
                        self.send(Command::SetSmartShift(route, status));
                        let write_id: u64 = self.next_smartshift_write_id;
                        if write_id < u64::MAX {
                            self.next_smartshift_write_id = write_id + 1;
                        }
                        ui.smartshift_pending_confirm = Some(write_id);
                        ui.smartshift_write_status = Some(
                            SmartShiftWriteStatus::Applying { expected: status, write_id },
                        );
                    },
                    None => {
                        ui.smartshift_write_status = Some(SmartShiftWriteStatus::Failed);
                    },
                }
                self.devices.runtime.insert(key, ui);
            },
        }
    }

    /// Record how writing an edit to the file ended. An edit that was written
    /// counts, and what follows it is done; one that was not is taken back. The
    /// configuration is what was to be written: nothing is edited in between.
    pub fn finish_save(&mut self, save: Save, result: Result<(), String>)
        ensures
            final(self).deep_view() == match result {
                Ok(_) => landed(old(self).deep_view(), save.deep_view()),
                Err(message) => refused(old(self).deep_view(), message@),
            },
            result is Ok ==> final(self).deep_view().persisted_config == old(
                self,
            ).deep_view().config,
            result is Ok && (save.then_do matches Then::SmartShift { route: Some(_), .. })
                ==> final(self).deep_view().outbox.last() == CommandModel::SetSmartShift(
                save.then_do->SmartShift_route->0.deep_view(),
                save.then_do->SmartShift_status,
            ),
            result is Ok && save.reload && save.then_do is Done
                ==> final(self).deep_view().outbox.last() == CommandModel::ReloadConfig,
            result is Err ==> final(self).deep_view().config == old(
                self,
            ).deep_view().persisted_config && final(self).deep_view().outbox == old(
                self,
            ).deep_view().outbox,
    {
        match result {
            Err(message) => {
                self.config_issue = Some(ConfigIssue::Persistence(message));
                self.restore_persisted_config();
            },
            Ok(_) => {
                self.persisted_config = self.config.duplicate();
                let settled = match &self.config_issue {
                    Some(ConfigIssue::Persistence(_)) => true,
                    _ => false,
                };
                if settled {
                    self.config_issue = None;
                }
                if save.reload {
                    self.send(Command::ReloadConfig);
                }
                self.follow(save.then_do);
            },
        }
    }

    /// Have an edit kept. Where it goes to a file, what is returned says what
    /// to do once it is there.
    pub fn persist(&mut self, save: Save) -> (r: Option<Save>)
        ensures
            final(self).deep_view() == persisted(old(self).deep_view(), save.deep_view()),
            r.deep_view() == to_write(old(self).deep_view(), save.deep_view()),
    {
        let mode: u8 = match &self.config_persistence {
            ConfigPersistence::UserFile => 0,
            ConfigPersistence::ReadOnly(_) => 1,
            ConfigPersistence::MemoryOnly => 2,
        };
        if mode == 0 {
            Some(save)
        } else if mode == 1 {
            self.restore_persisted_config();
            None
        } else {
            self.finish_save(save, Ok(()));
            None
        }
    }

    /// Have an edit kept that the agent has to hear of.
    pub fn persist_and_reload(&mut self) -> (r: Option<Save>)
        ensures
            final(self).deep_view() == persisted(old(self).deep_view(), reloading()),
            r.deep_view() == to_write(old(self).deep_view(), reloading()),
    {
        self.persist(Save { reload: true, then_do: Then::Done })
    }

    /// Have an edit kept that is no concern of the agent's.
    pub fn persist_config(&mut self) -> (r: Option<Save>)
        ensures
            final(self).deep_view() == persisted(old(self).deep_view(), quiet()),
            r.deep_view() == to_write(old(self).deep_view(), quiet()),
    {
        self.persist(Save { reload: false, then_do: Then::Done })
    }
}

/// What a control of a device does in a profile: what the application overrides,
/// else the one action that the device binds it to, else the default. A control
/// that is in none of them does nothing.
pub proof fn an_override_goes_before_a_binding_and_a_binding_before_the_default(
    defaults: DefaultsModel,
    row: DeviceConfigModel,
    app: Option<Seq<char>>,
    button: ButtonId,
)
    ensures
        ({
            let shown = projected(defaults, row, app);
            let overrides = app is Some && row.per_app.contains_key(app->0)
                && row.per_app[app->0].contains_key(button);
            let bound = row.bindings.contains_key(button) && row.bindings[button] is Single;
            &&& overrides ==> shown.contains_key(button) && shown[button]
                == row.per_app[app->0][button]
            &&& !overrides && bound ==> shown.contains_key(button) && BindingModel::Single(
                shown[button],
            ) == row.bindings[button]
            &&& !overrides && !bound ==> (shown.contains_key(button)
                <==> defaults.actions.contains_key(button))
            &&& !overrides && !bound && defaults.actions.contains_key(button) ==> shown[button]
                == defaults.actions[button]
        }),
{
}

/// A control gestures where the device binds it to directions, or binds it to
/// nothing and it gestures by default. Each direction does what the device binds
/// it to; of a control whose gestures start out from the defaults, the others do
/// what those say, and of another control the others do nothing.
pub proof fn a_direction_does_what_it_is_bound_to(
    defaults: DefaultsModel,
    row: DeviceConfigModel,
    button: ButtonId,
    direction: GestureDirection,
)
    ensures
        ({
            let maps = gesture_maps(defaults, row);
            let bound = row.bindings.contains_key(button);
            let own = bound && (row.bindings[button] matches BindingModel::Gesture(map)
                && map.contains_key(direction));
            let seeds = defaults.seeded_buttons.contains(button) && defaults.gestures.contains_key(
                direction,
            );
            &&& maps.contains_key(button) <==> (bound && row.bindings[button] is Gesture) || (!bound
                && defaults.gesture_buttons.contains(button))
            &&& maps.contains_key(button) ==> {
                &&& maps[button].contains_key(direction) <==> own || seeds
                &&& own ==> maps[button][direction] == row.bindings[button]->Gesture_0[direction]
                &&& !own && seeds ==> maps[button][direction] == defaults.gestures[direction]
            }
        }),
{
}

/// The panels show what the selected device does in the open profile. Directions
/// belong to every application, so none are shown while the profile of one is
/// open; a device that keeps no settings has the defaults and no directions.
pub proof fn the_panels_show_the_selected_device(m: StateModel)
    ensures
        ({
            let after = reprojected(m);
            &&& after.button_bindings == match current_key(m) {
                Some(key) => projected(m.defaults, row_of(m.config, key), editing(m)),
                None => projected(m.defaults, blank_row(), None),
            }
            &&& editing(m) is Some ==> after.gesture_bindings.dom() == Set::<ButtonId>::empty()
            &&& editing(m) is None && current_key(m) is Some ==> after.gesture_bindings
                == gesture_maps(m.defaults, row_of(m.config, current_key(m)->0))
            &&& current_key(m) is None ==> after.gesture_bindings.dom() == Set::<ButtonId>::empty()
            &&& after == (StateModel {
                button_bindings: after.button_bindings,
                gesture_bindings: after.gesture_bindings,
                ..m
            })
            &&& reprojected(after) == after
        }),
{
    let none = Map::<ButtonId, Map<GestureDirection, ActionModel>>::empty();
    assert(none.dom() =~= Set::<ButtonId>::empty());
}

/// A profile is open exactly where one was opened on the device that is selected
/// and keeps settings.
pub proof fn a_profile_is_open_on_the_device_it_was_opened_on(m: StateModel, app: Seq<char>)
    ensures
        editing(m) == Some(app) <==> {
            &&& m.devices.selected is Some
            &&& m.devices.selected->0 < m.devices.records.len()
            &&& m.devices.records[m.devices.selected->0 as int].persistent
            &&& m.editing_scope == Some(
                EditingScopeModel {
                    device_key: m.devices.records[m.devices.selected->0 as int].config_key,
                    app,
                },
            )
        },
        current_key(m) is Some <==> m.devices.selected is Some && m.devices.selected->0
            < m.devices.records.len()
            && m.devices.records[m.devices.selected->0 as int].persistent,
        current_key(m) matches Some(key) ==> key
            == m.devices.records[m.devices.selected->0 as int].config_key,
{
}

/// A wheel that is set goes out: the agent is sent exactly that value, over the
/// route of the device, as the last command. It is shown at once and waits to be
/// confirmed under an identity that the next write does not have. Nothing else
/// changes.
pub proof fn a_wheel_that_is_set_goes_out(
    m: StateModel,
    key: Seq<char>,
    route: RouteModel,
    status: SmartShiftStatus,
)
    ensures
        ({
            let after = followed(m, ThenModel::SmartShift(key, Some(route), status));
            let ui = after.devices.runtime[key];
            &&& after.outbox.len() == m.outbox.len() + 1
            &&& after.outbox.last() == CommandModel::SetSmartShift(route, status)
            &&& after.outbox.drop_last() == m.outbox
            &&& after.smartshift_reads.by_device.contains_key(key)
            &&& after.smartshift_reads.by_device[key] == LoadModel::Ready(status)
            &&& after.devices.runtime.contains_key(key)
            &&& ui.smartshift_write_status matches Some(
                SmartShiftWriteStatus::Applying { expected, write_id },
            ) && expected == status && ui.smartshift_pending_confirm == Some(write_id) && (write_id
                < u64::MAX ==> after.next_smartshift_write_id > write_id)
            &&& forall|other: Seq<char>|
                other != key ==> {
                    &&& (#[trigger] after.devices.runtime.contains_key(other)
                        <==> m.devices.runtime.contains_key(other))
                    &&& m.devices.runtime.contains_key(other) ==> after.devices.runtime[other]
                        == m.devices.runtime[other]
                }
            &&& after.devices.selected == m.devices.selected
            &&& after.devices.records == m.devices.records
            &&& after == (StateModel {
                outbox: after.outbox,
                next_smartshift_write_id: after.next_smartshift_write_id,
                devices: after.devices,
                smartshift_reads: after.smartshift_reads,
                ..m
            })
        }),
{
    let after = followed(m, ThenModel::SmartShift(key, Some(route), status));
    assert(after.outbox.drop_last() =~= m.outbox);
}

/// A wheel that cannot be reached is not set: no command goes out, and the write
/// has failed.
pub proof fn a_wheel_out_of_reach_is_not_set(
    m: StateModel,
    key: Seq<char>,
    status: SmartShiftStatus,
)
    ensures
        ({
            let after = followed(m, ThenModel::SmartShift(key, None, status));
            &&& after.outbox == m.outbox
            &&& after.devices.runtime.contains_key(key)
            &&& after.devices.runtime[key].smartshift_write_status == Some(
                SmartShiftWriteStatus::Failed,
            )
            &&& after.next_smartshift_write_id == m.next_smartshift_write_id
            &&& m.devices.runtime.contains_key(key) ==> after.devices.runtime[key]
                == (DeviceUiStateModel {
                smartshift_write_status: Some(SmartShiftWriteStatus::Failed),
                ..m.devices.runtime[key]
            })
        }),
{
}

/// Two writes in a row never go by the same identity, as long as there are
/// identities left.
pub proof fn writes_are_told_apart(
    m: StateModel,
    key: Seq<char>,
    route: RouteModel,
    first: SmartShiftStatus,
    second: SmartShiftStatus,
)
    requires
        m.next_smartshift_write_id < u64::MAX,
    ensures
        ({
            let once = followed(m, ThenModel::SmartShift(key, Some(route), first));
            let twice = followed(once, ThenModel::SmartShift(key, Some(route), second));
            &&& once.devices.runtime[key].smartshift_pending_confirm
                != twice.devices.runtime[key].smartshift_pending_confirm
            &&& twice.devices.runtime[key].smartshift_pending_confirm is Some
        }),
{
}

/// Once an edit is on disk, the agent is told to read the configuration exactly if
/// the edit concerns it, before anything else goes out; then follows what was to
/// follow. Only an issue with the disk is settled by that.
pub proof fn what_follows_an_edit_goes_out_once_it_is_on_disk(
    m: StateModel,
    reload: bool,
    command: CommandModel,
)
    ensures
        ({
            let done = landed(m, SaveModel { reload, then_do: ThenModel::Done });
            let sent = landed(m, SaveModel { reload, then_do: ThenModel::Send(command) });
            &&& done.persisted_config == m.config
            &&& done.config == m.config
            &&& reload ==> done.outbox == m.outbox.push(CommandModel::ReloadConfig)
            &&& !reload ==> done.outbox == m.outbox
            &&& sent.outbox == done.outbox.push(command)
            &&& sent == (StateModel { outbox: sent.outbox, ..done })
            &&& m.config_issue matches Some(IssueModel::Persistence(_)) ==> done.config_issue
                is None
            &&& !(m.config_issue matches Some(IssueModel::Persistence(_))) ==> done.config_issue
                == m.config_issue
            &&& done == (StateModel {
                persisted_config: done.persisted_config,
                config_issue: done.config_issue,
                outbox: done.outbox,
                ..m
            })
        }),
{
}

/// A wheel setting that is on disk is sent after the agent was told to read it.
pub proof fn a_kept_wheel_setting_goes_out(
    m: StateModel,
    reload: bool,
    key: Seq<char>,
    route: Option<RouteModel>,
    status: SmartShiftStatus,
)
    ensures
        ({
            let after = landed(
                m,
                SaveModel { reload, then_do: ThenModel::SmartShift(key, route, status) },
            );
            let told = if reload {
                m.outbox.push(CommandModel::ReloadConfig)
            } else {
                m.outbox
            };
            &&& route matches Some(route) ==> after.outbox == told.push(
                CommandModel::SetSmartShift(route, status),
            )
            &&& route is None ==> after.outbox == told
            &&& after.persisted_config == m.config && after.config == m.config
        }),
{
}

/// An edit that did not reach the disk is taken back everywhere: what is shown is
/// what the configuration on disk says, nothing goes out, and the issue is told.
pub proof fn a_refused_edit_is_taken_back(m: StateModel, message: Seq<char>)
    ensures
        ({
            let after = refused(m, message);
            &&& after.config == m.persisted_config
            &&& after.persisted_config == m.persisted_config
            &&& after.outbox == m.outbox
            &&& after.config_issue == Some(IssueModel::Persistence(message))
            &&& after.keyboard_bindings == m.persisted_config.keyboard
            &&& after.button_bindings == shown_bindings(after)
            &&& after.gesture_bindings == shown_gestures(after)
            &&& current_key(m) matches Some(key) ==> m.persisted_config.devices.contains_key(key)
                && m.persisted_config.devices[key].dpi is Some ==> Some(after.dpi)
                == m.persisted_config.devices[key].dpi
            &&& current_key(m) is None ==> after.dpi == m.dpi
            &&& after.devices == m.devices
            &&& after.smartshift_reads == m.smartshift_reads
            &&& after.dpi_reads == m.dpi_reads
            &&& after.editing_scope == m.editing_scope
        }),
{
}

/// Where edits go decides what becomes of one: one that goes to a file waits to be
/// written and is handed out for that; one that goes nowhere counts at once; one
/// that may not be kept is taken back. Only the first is handed out.
pub proof fn where_edits_go_decides(m: StateModel, save: SaveModel)
    ensures
        m.config_persistence == ConfigPersistence::UserFile ==> persisted(m, save) == m && to_write(
            m,
            save,
        ) == Some(save),
        m.config_persistence == ConfigPersistence::MemoryOnly ==> persisted(m, save) == landed(
            m,
            save,
        ) && to_write(m, save) is None,
        m.config_persistence is ReadOnly ==> {
            &&& to_write(m, save) is None
            &&& persisted(m, save).config == m.persisted_config
            &&& persisted(m, save).keyboard_bindings == m.persisted_config.keyboard
            &&& persisted(m, save).outbox == m.outbox
            &&& persisted(m, save).config_issue == m.config_issue
            &&& persisted(m, save).button_bindings == shown_bindings(persisted(m, save))
        },
        reloading().reload && reloading().then_do is Done,
        !quiet().reload && quiet().then_do is Done,
{
}

/// The selection that is nearest to a wanted one is that one where it is there,
/// and else the last; there is one exactly if there are devices.
pub proof fn a_selection_is_clamped_to_the_list(len: nat, wanted: usize)
    requires
        len <= usize::MAX,
    ensures
        clamped(len, wanted) is Some <==> len > 0,
        wanted < len ==> clamped(len, wanted) == Some(wanted),
        len > 0 && wanted >= len ==> clamped(len, wanted) is Some && clamped(len, wanted)->0 as nat
            + 1 == len,
{
}

} // verus!
