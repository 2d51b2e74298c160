//! Building, refreshing and selecting among the devices that are shown.

use vstd::prelude::*;

use crate::config::{
    of_the_model, row_of, with_row, Config, ConfigModel, DeviceConfigModel, DeviceIdentity,
    DeviceIdentityModel,
};
use crate::data::Data;
use crate::device::{
    persistent_key, Capabilities, DeviceInventory, DeviceKey, DeviceModelInfo,
    DeviceModelInfoModel, DeviceRecord, DeviceRecordModel,
};
use crate::inventory::{merge_of, ordered};
use crate::keyed::{is_among, Table};
use crate::load::{forgotten, load_of, LazyDeviceData, LazyModel, Load, LoadModel};
use crate::smartshift::retried;
use crate::state::{
    clamped, current_key, current_of, editing, landed, persisted, refused, quiet, reloading,
    reprojected, selection_is_valid, shown_bindings, shown_gestures, to_write, ui_of, with_ui, AppState, Command, CommandModel,
    ConfigIssue, ConfigPersistence, Defaults, DefaultsModel, DeviceStore, DeviceUiStateModel,
    ForegroundApp, ForegroundApps, ForegroundAppsModel, IssueModel, Save, SaveModel, StateModel,
    StoreModel, Then, DEFAULT_DPI,
};

verus! {

/// What is remembered of a device, if there is enough to remember: it is there,
/// it keeps settings, and what it can do was read.
pub open spec fn identity_of(record: DeviceRecordModel) -> Option<DeviceIdentityModel> {
    if record.online && record.persistent && (record.capabilities is Some
        || record.light_capabilities is Some) {
        Some(
            of_the_model(
                DeviceIdentityModel {
                    display_name: record.model_name,
                    kind: record.kind,
                    capabilities: match record.capabilities {
                        Some(capabilities) => capabilities,
                        None => no_capabilities(),
                    },
                    light_capabilities: record.light_capabilities,
                    model_info: record.model_info,
                    codename: record.codename,
                    driver_id: record.driver_id,
                    registry_model_id: record.registry_model_id,
                },
            ),
        )
    } else {
        None
    }
}

/// A device that can do nothing.
pub open spec fn no_capabilities() -> Capabilities {
    Capabilities {
        buttons: false,
        pointer: false,
        lighting: false,
        thumbwheel: false,
        scroll_inversion: false,
        hires_wheel: false,
    }
}

/// The configuration with one device remembered.
pub open spec fn remembered(config: ConfigModel, record: DeviceRecordModel) -> ConfigModel {
    let row = row_of(config, record.config_key);
    match identity_of(record) {
        Some(identity) => if row.identity == Some(identity) {
            config
        } else {
            with_row(
                config,
                record.config_key,
                DeviceConfigModel { identity: Some(identity), ..row },
            )
        },
        None => config,
    }
}

/// The configuration with the devices of a list remembered.
pub open spec fn all_remembered(config: ConfigModel, list: Seq<DeviceRecordModel>) -> ConfigModel
    decreases list.len(),
{
    if list.len() == 0 {
        config
    } else {
        remembered(all_remembered(config, list.drop_last()), list.last())
    }
}

/// Whether remembering one device changes the configuration.
pub open spec fn is_news(config: ConfigModel, record: DeviceRecordModel) -> bool {
    identity_of(record) is Some && row_of(config, record.config_key).identity != identity_of(record)
}

/// Whether remembering the devices of a list changes the configuration.
pub open spec fn any_news(config: ConfigModel, list: Seq<DeviceRecordModel>) -> bool
    decreases list.len(),
{
    if list.len() == 0 {
        false
    } else {
        any_news(config, list.drop_last()) || is_news(
            all_remembered(config, list.drop_last()),
            list.last(),
        )
    }
}

/// Remember the devices of a list, saying whether that changed anything.
pub fn persist_identities(config: &mut Config, list: &Vec<DeviceRecord>) -> (r: bool)
    ensures
        final(config).deep_view() == all_remembered(old(config).deep_view(), list.deep_view()),
        r == any_news(old(config).deep_view(), list.deep_view()),
{
    let ghost start = config.deep_view();
    let ghost all = list.deep_view();
    let mut changed = false;
    let mut i: usize = 0;
    proof {
        assert(all.take(0) =~= Seq::empty());
    }
    while i < list.len()
        invariant
            i <= list@.len(),
            all == list.deep_view(),
            config.deep_view() == all_remembered(start, all.take(i as int)),
            changed == any_news(start, all.take(i as int)),
        decreases list@.len() - i,
    {
        let record = &list[i];
        proof {
            assert(all.take(i as int + 1).drop_last() =~= all.take(i as int));
            assert(all.take(i as int + 1).last() == record.deep_view());
        }
        if record.online && record.is_persistent() && (record.capabilities.is_some()
            || record.light_capabilities.is_some()) {
            let capabilities = match record.capabilities {
                Some(capabilities) => capabilities,
                None => Capabilities {
                    buttons: false,
                    pointer: false,
                    lighting: false,
                    thumbwheel: false,
                    scroll_inversion: false,
                    hires_wheel: false,
                },
            };
            let identity = DeviceIdentity {
                display_name: record.model_name.clone(),
                kind: record.kind,
                capabilities,
                light_capabilities: record.light_capabilities,
                model_info: record.model_info.duplicate(),
                codename: record.codename.duplicate(),
                driver_id: record.driver_id.duplicate(),
                registry_model_id: record.registry_model_id.duplicate(),
            };
            let identity = identity.without_unit_identifiers();
            let kept = match config.device_identity(&record.config_key) {
                Some(kept) => kept.same(&identity),
                None => false,
            };
            if !kept {
                config.set_device_identity(&record.config_key, identity);
                changed = true;
            }
        }
        i = i + 1;
    }
    proof {
        assert(all.take(all.len() as int) =~= all);
    }
    changed
}

/// The artwork that a device needs.
#[derive(Clone, Debug, PartialEq, Eq)]
pub enum AssetTarget {
    /// That of a model in the registry.
    Standalone { registry_model_id: String },
    /// That of a model as the device names it.
    Hidpp { model: DeviceModelInfo, codename: Option<String> },
}

/// What an [`AssetTarget`] holds.
pub ghost enum AssetTargetModel {
    Standalone(Seq<char>),
    Hidpp(DeviceModelInfoModel, Option<Seq<char>>),
}

impl DeepView for AssetTarget {
    type V = AssetTargetModel;

    open spec fn deep_view(&self) -> AssetTargetModel {
        match self {
            AssetTarget::Standalone { registry_model_id } => AssetTargetModel::Standalone(
                registry_model_id@,
            ),
            AssetTarget::Hidpp { model, codename } => AssetTargetModel::Hidpp(
                model.deep_view(),
                codename.deep_view(),
            ),
        }
    }
}

/// The artwork that a device needs, if its model is known.
pub open spec fn target_of(record: DeviceRecordModel) -> Option<AssetTargetModel> {
    match record.registry_model_id {
        Some(id) => Some(AssetTargetModel::Standalone(id)),
        None => match record.model_info {
            Some(model) => Some(AssetTargetModel::Hidpp(model, record.codename)),
            None => None,
        },
    }
}

/// What names the model of artwork.
pub open spec fn target_key(target: AssetTargetModel) -> Seq<char> {
    match target {
        AssetTargetModel::Standalone(id) => id,
        AssetTargetModel::Hidpp(model, codename) => model.model_key,
    }
}

/// What names the model of artwork.
pub fn model_key(target: &AssetTarget) -> (r: String)
    ensures
        r@ == target_key(target.deep_view()),
{
    match target {
        AssetTarget::Standalone { registry_model_id } => registry_model_id.clone(),
        AssetTarget::Hidpp { model, .. } => model.model_key.clone(),
    }
}

/// What names the models of artwork.
pub open spec fn target_keys(targets: Seq<AssetTargetModel>) -> Seq<Seq<char>> {
    Seq::new(targets.len(), |i: int| target_key(targets[i]))
}

/// The artwork that devices need, each model once.
pub open spec fn targets_of(records: Seq<DeviceRecordModel>) -> Seq<AssetTargetModel>
    decreases records.len(),
{
    if records.len() == 0 {
        Seq::empty()
    } else {
        let rest = targets_of(records.drop_last());
        match target_of(records.last()) {
            Some(target) => if target_keys(rest).contains(target_key(target)) {
                rest
            } else {
                rest.push(target)
            },
            None => rest,
        }
    }
}

/// The position of the first device of a key among a list.
pub open spec fn position_of(list: Seq<DeviceRecordModel>, key: Seq<char>) -> Option<int>
    decreases list.len(),
{
    if list.len() == 0 {
        None
    } else {
        match position_of(list.drop_last(), key) {
            Some(i) => Some(i),
            None => if list.last().inventory_key == key {
                Some(list.len() - 1)
            } else {
                None
            },
        }
    }
}

fn find_position(list: &Vec<DeviceRecord>, key: &String) -> (r: Option<usize>)
    ensures
        match r {
            Some(i) => position_of(list.deep_view(), key@) == Some(i as int),
            None => position_of(list.deep_view(), key@) is None,
        },
{
    let ghost all = list.deep_view();
    let mut i: usize = 0;
    let mut r: Option<usize> = None;
    proof {
        assert(all.take(0) =~= Seq::empty());
    }
    while i < list.len()
        invariant
            i <= list@.len(),
            all == list.deep_view(),
            match r {
                Some(k) => position_of(all.take(i as int), key@) == Some(k as int),
                None => position_of(all.take(i as int), key@) is None,
            },
        decreases list@.len() - i,
    {
        proof {
            assert(all.take(i as int + 1).drop_last() =~= all.take(i as int));
            assert(all.take(i as int + 1).last() == list@[i as int].deep_view());
        }
        if r.is_none() && list[i].inventory_key == *key {
            r = Some(i);
        }
        i = i + 1;
    }
    proof {
        assert(all.take(all.len() as int) =~= all);
    }
    r
}

/// Whether a device of a list is on another route than before.
pub open spec fn moved(before: Seq<DeviceRecordModel>, record: DeviceRecordModel) -> bool {
    exists|i: int|
        0 <= i < before.len() && (#[trigger] before[i]).config_key == record.config_key
            && before[i].route != record.route
}

fn has_moved(before: &Vec<DeviceRecord>, record: &DeviceRecord) -> (r: bool)
    ensures
        r == moved(before.deep_view(), record.deep_view()),
{
    let mut i: usize = 0;
    while i < before.len()
        invariant
            i <= before@.len(),
            forall|k: int|
                0 <= k < i ==> !((#[trigger] before@[k]).config_key@ == record.config_key@
                    && before@[k].route.deep_view() != record.route.deep_view()),
        decreases before@.len() - i,
    {
        if before[i].config_key == record.config_key && !before[i].route.same(&record.route) {
            proof {
                assert(before.deep_view()[i as int].config_key == record.config_key@);
            }
            return true;
        }
        i = i + 1;
    }
    proof {
        assert forall|k: int| 0 <= k < before.deep_view().len() implies !((
        #[trigger] before.deep_view()[k]).config_key == record.config_key@
            && before.deep_view()[k].route != record.deep_view().route) by {
            assert(before@[k].deep_view() == before.deep_view()[k]);
        }
    }
    false
}

/// The state with what was read over a route that a device has left dropped.
pub open spec fn left_route(m: StateModel, key: Seq<char>) -> StateModel {
    let read = StateModel {
        dpi_reads: forgotten(m.dpi_reads, key),
        smartshift_reads: forgotten(m.smartshift_reads, key),
        ..m
    };
    if m.devices.runtime.contains_key(key) {
        with_ui(
            read,
            key,
            DeviceUiStateModel {
                smartshift_pending_confirm: None,
                smartshift_write_status: None,
                ..ui_of(m, key)
            },
        )
    } else {
        read
    }
}

/// The state with that done for every device of a list that has moved.
pub open spec fn all_left(
    m: StateModel,
    before: Seq<DeviceRecordModel>,
    list: Seq<DeviceRecordModel>,
) -> StateModel
    decreases list.len(),
{
    if list.len() == 0 {
        m
    } else {
        let rest = all_left(m, before, list.drop_last());
        if moved(before, list.last()) {
            left_route(rest, list.last().config_key)
        } else {
            rest
        }
    }
}

/// The configuration keys of a list.
pub open spec fn config_keys(list: Seq<DeviceRecordModel>) -> Seq<Seq<char>> {
    Seq::new(list.len(), |i: int| list[i].config_key)
}

/// The state with what was read of devices that are gone dropped.
pub open spec fn only_present(m: StateModel) -> StateModel {
    let present = config_keys(m.devices.records).to_set();
    StateModel {
        dpi_reads: LazyModel {
            by_device: m.dpi_reads.by_device.restrict(present),
            attempts: m.dpi_reads.attempts.restrict(present),
        },
        smartshift_reads: LazyModel {
            by_device: m.smartshift_reads.by_device.restrict(present),
            attempts: m.smartshift_reads.attempts.restrict(present),
        },
        ..m
    }
}

/// The resolution to show for the selected device: what is configured, else
/// what was read, else the default.
pub open spec fn dpi_shown(m: StateModel) -> u32 {
    match current_of(m.devices) {
        None => DEFAULT_DPI,
        Some(record) => {
            let configured = match persistent_key(record) {
                Some(key) => row_of(m.config, key).dpi,
                None => None,
            };
            match configured {
                Some(dpi) => dpi,
                None => match load_of(m.dpi_reads, record.config_key) {
                    LoadModel::Ready(info) => info.current,
                    _ => DEFAULT_DPI,
                },
            }
        },
    }
}

/// The state with what follows the selection derived anew.
pub open spec fn reselected(m: StateModel) -> StateModel {
    reprojected(StateModel { dpi: dpi_shown(m), ..m })
}

/// The state with another list of devices, the selected one staying selected if
/// it is there.
pub open spec fn relisted(m: StateModel, list: Seq<DeviceRecordModel>) -> StateModel {
    let at = match current_of(m.devices) {
        Some(record) => match position_of(list, record.inventory_key) {
            Some(i) => i as usize,
            None => 0,
        },
        None => 0,
    };
    let replaced = StateModel {
        devices: StoreModel { selected: clamped(list.len(), at), records: list, ..m.devices },
        ..m
    };
    reselected(only_present(all_left(replaced, m.devices.records, list)))
}

/// The state once an inventory was merged and its devices were remembered.
pub open spec fn merged_in(m: StateModel, list: Seq<DeviceRecordModel>) -> StateModel {
    let merge = merge_of(m.devices, list);
    let shown = ordered(merge.merged);
    StateModel {
        devices: StoreModel { runtime: merge.runtime, ..m.devices },
        config: all_remembered(m.config, shown),
        ..m
    }
}

/// The state with what was merged in kept, if there is anything to keep.
pub open spec fn kept_if(m: StateModel, news: bool) -> StateModel {
    if news {
        persisted(m, quiet())
    } else {
        m
    }
}

/// The state with a failed reading of the selected device forgotten, so that it
/// is read anew.
pub open spec fn second_chance(m: StateModel, key: Seq<char>) -> StateModel {
    let once = if load_of(m.dpi_reads, key) is Failed {
        StateModel { dpi_reads: forgotten(m.dpi_reads, key), ..m }
    } else {
        m
    };
    if load_of(m.smartshift_reads, key) is Failed {
        retried(once, key)
    } else {
        once
    }
}

/// The state with a device selected, before that is kept.
pub open spec fn chosen(m: StateModel, index: usize) -> StateModel {
    let selected = StateModel {
        devices: StoreModel { selected: Some(index), ..m.devices },
        ..m
    };
    reselected(second_chance(selected, m.devices.records[index as int].config_key))
}

/// The state with the selection configured.
pub open spec fn choice_kept(m: StateModel) -> StateModel {
    StateModel { config: ConfigModel { selected_device: current_key(m), ..m.config }, ..m }
}

/// The device to begin with: the one that was selected last, or the first.
pub open spec fn initial_index(list: Seq<DeviceRecordModel>, selected: Option<Seq<char>>) -> int {
    match selected {
        Some(key) => match config_position(list, key) {
            Some(i) => i,
            None => 0,
        },
        None => 0,
    }
}

/// The position of the first device of a configuration key.
pub open spec fn config_position(list: Seq<DeviceRecordModel>, key: Seq<char>) -> Option<int>
    decreases list.len(),
{
    if list.len() == 0 {
        None
    } else {
        match config_position(list.drop_last(), key) {
            Some(i) => Some(i),
            None => if list.last().config_key == key {
                Some(list.len() - 1)
            } else {
                None
            },
        }
    }
}

/// The device to begin with.
pub fn pick_initial_device(list: &Vec<DeviceRecord>, selected: &Option<String>) -> (r: usize)
    ensures
        r == initial_index(list.deep_view(), selected.deep_view()),
{
    let key = match selected {
        None => {
            return 0;
        },
        Some(key) => key,
    };
    let ghost all = list.deep_view();
    let mut i: usize = 0;
    let mut r: Option<usize> = None;
    proof {
        assert(all.take(0) =~= Seq::empty());
    }
    while i < list.len()
        invariant
            i <= list@.len(),
            all == list.deep_view(),
            match r {
                Some(k) => config_position(all.take(i as int), key@) == Some(k as int),
                None => config_position(all.take(i as int), key@) is None,
            },
        decreases list@.len() - i,
    {
        proof {
            assert(all.take(i as int + 1).drop_last() =~= all.take(i as int));
            assert(all.take(i as int + 1).last() == list@[i as int].deep_view());
        }
        if r.is_none() && list[i].config_key == *key {
            r = Some(i);
        }
        i = i + 1;
    }
    proof {
        assert(all.take(all.len() as int) =~= all);
    }
    match r {
        Some(i) => i,
        None => 0,
    }
}

/// The state to begin with, before anything is kept.
pub open spec fn started(
    config: ConfigModel,
    records: Seq<DeviceRecordModel>,
    persistence: ConfigPersistence,
    defaults: DefaultsModel,
) -> StateModel {
    let known = all_remembered(config, records);
    StateModel {
        devices: StoreModel {
            selected: clamped(
                records.len(),
                initial_index(records, known.selected_device) as usize,
            ),
            records,
            runtime: Map::empty(),
        },
        foreground: ForegroundAppsModel { current: None, recent: Seq::empty() },
        editing_scope: None,
        button_bindings: Map::empty(),
        gesture_bindings: Map::empty(),
        keyboard_bindings: Map::empty(),
        dpi: DEFAULT_DPI,
        dpi_reads: LazyModel { by_device: Map::empty(), attempts: Map::empty() },
        smartshift_reads: LazyModel { by_device: Map::empty(), attempts: Map::empty() },
        next_smartshift_write_id: 0,
        config: known,
        persisted_config: config,
        config_persistence: persistence,
        config_issue: match persistence {
            ConfigPersistence::ReadOnly(message) => Some(IssueModel::Persistence(message@)),
            _ => None,
        },
        last_inventory: Seq::empty(),
        defaults,
        outbox: Seq::empty(),
    }
}

/// The state with the panels filled.
pub open spec fn filled(m: StateModel) -> StateModel {
    StateModel { keyboard_bindings: m.config.keyboard, ..reprojected(m) }
}

impl AppState {
    /// The state to begin with. Devices that are there are remembered; where
    /// that goes to a file, what is returned says what to do once it is there.
    /// The agent is told to read a configuration that is in a file.
    pub fn with_runtime(
        config: Config,
        records: Vec<DeviceRecord>,
        config_persistence: ConfigPersistence,
        defaults: Defaults,
    ) -> (r: (AppState, Option<Save>))
        ensures
            ({
                let m = started(
                    config.deep_view(),
                    records.deep_view(),
                    config_persistence,
                    defaults.deep_view(),
                );
                let news = any_news(config.deep_view(), records.deep_view());
                match config_persistence {
                    ConfigPersistence::UserFile => if news {
                        &&& r.0.deep_view() == filled(m)
                        &&& r.1.deep_view() == Some(reloading())
                    } else {
                        &&& r.0.deep_view() == (StateModel {
                            outbox: seq![CommandModel::ReloadConfig],
                            ..filled(m)
                        })
                        &&& r.1 is None
                    },
                    _ => r.0.deep_view() == filled(kept_if(m, news)) && r.1 is None,
                }
            }),
    {
        let persisted_config = config.duplicate();
        let config_issue = match &config_persistence {
            ConfigPersistence::ReadOnly(message) => Some(
                ConfigIssue::Persistence(message.clone()),
            ),
            _ => None,
        };
        let in_file = match &config_persistence {
            ConfigPersistence::UserFile => true,
            _ => false,
        };
        let mut config = config;
        let news = persist_identities(&mut config, &records);
        let selected = pick_initial_device(&records, &config.selected_device);
        let recent: Vec<ForegroundApp> = Vec::new();
        let last_inventory: Vec<DeviceInventory> = Vec::new();
        let outbox: Vec<Command> = Vec::new();
        proof {
            assert(recent.deep_view() =~= Seq::empty());
            assert(last_inventory.deep_view() =~= Seq::empty());
            assert(outbox.deep_view() =~= Seq::empty());
        }
        let mut state = AppState {
            devices: DeviceStore::new(records, selected),
            foreground: ForegroundApps { current: None, recent },
            editing_scope: None,
            button_bindings: Table::new(),
            gesture_bindings: Table::new(),
            keyboard_bindings: Table::new(),
            dpi: DEFAULT_DPI,
            dpi_reads: LazyDeviceData::new(),
            smartshift_reads: LazyDeviceData::new(),
            next_smartshift_write_id: 0,
            config,
            persisted_config,
            config_persistence,
            config_issue,
            last_inventory,
            defaults,
            outbox,
        };
        let mut save: Option<Save> = None;
        if news {
            if in_file {
                save = Some(Save { reload: true, then_do: Then::Done });
            } else {
                state.persist_config();
            }
        }
        state.refresh_binding_projections();
        state.keyboard_bindings = state.config.keyboard.duplicate();
        if in_file && !news {
            state.outbox.push(Command::ReloadConfig);
            proof {
                assert(state.outbox.deep_view() =~= seq![CommandModel::ReloadConfig]);
            }
        }
        (state, save)
    }

    /// The artwork that the devices need, each model once.
    pub fn asset_models(&self) -> (r: Vec<AssetTarget>)
        ensures
            r.deep_view() == targets_of(self.deep_view().devices.records),
    {
        let mut r: Vec<AssetTarget> = Vec::new();
        let mut seen: Vec<String> = Vec::new();
        let ghost all = self.deep_view().devices.records;
        let mut i: usize = 0;
        proof {
            assert(all.take(0) =~= Seq::empty());
            assert(r.deep_view() =~= Seq::empty());
            assert(seen.deep_view() =~= target_keys(Seq::empty()));
        }
        while i < self.devices.records.len()
            invariant
                i <= self.devices.records@.len(),
                all == self.devices.records.deep_view(),
                r.deep_view() == targets_of(all.take(i as int)),
                seen.deep_view() == target_keys(targets_of(all.take(i as int))),
            decreases self.devices.records@.len() - i,
        {
            let record = &self.devices.records[i];
            proof {
                assert(all.take(i as int + 1).drop_last() =~= all.take(i as int));
                assert(all.take(i as int + 1).last() == record.deep_view());
            }
            let target = match &record.registry_model_id {
                Some(id) => Some(AssetTarget::Standalone { registry_model_id: id.clone() }),
                None => match &record.model_info {
                    Some(model) => Some(
                        AssetTarget::Hidpp {
                            model: model.duplicate(),
                            codename: record.codename.duplicate(),
                        },
                    ),
                    None => None,
                },
            };
            if let Some(target) = target {
                let key = model_key(&target);
                if !is_among(&key, &seen) {
                    let ghost targets = r.deep_view();
                    let ghost keys = seen.deep_view();
                    let ghost added = target.deep_view();
                    r.push(target);
                    seen.push(key);
                    proof {
                        assert(r.deep_view() =~= targets.push(added));
                        assert(seen.deep_view() =~= keys.push(key@));
                        assert(target_keys(targets.push(added)) =~= keys.push(key@));
                    }
                }
            }
            i = i + 1;
        }
        proof {
            assert(all.take(all.len() as int) =~= all);
        }
        r
    }

    /// The resolution to show for the selected device.
    pub fn dpi_for_current(&self) -> (r: u32)
        ensures
            r == dpi_shown(self.deep_view()),
    {
        match self.current_record() {
            None => DEFAULT_DPI,
            Some(record) => {
                let configured: Option<u32> = match record.persistent_config_key() {
                    Some(key) => self.config.row(key).dpi,
                    None => None,
                };
                match configured {
                    Some(dpi) => dpi,
                    None => match self.dpi_reads.get(&record.device_key()) {
                        Some(Load::Ready(info)) => info.current,
                        _ => DEFAULT_DPI,
                    },
                }
            },
        }
    }

    /// Derive what follows the selection anew.
    fn reselect(&mut self)
        ensures
            final(self).deep_view() == reselected(old(self).deep_view()),
    {
        self.dpi = self.dpi_for_current();
        self.refresh_binding_projections();
    }

    /// Drop what was read over a route that a device has left.
    fn leave_route(&mut self, key: &DeviceKey)
        ensures
            final(self).deep_view() == left_route(old(self).deep_view(), key.deep_view()),
    {
        self.dpi_reads.remove(key);
        self.smartshift_reads.remove(key);
        if self.devices.runtime.contains(key) {
            let mut ui = self.ui(key);
            ui.smartshift_pending_confirm = None;
            ui.smartshift_write_status = None;
            self.devices.runtime.insert(key.duplicate(), ui);
        }
    }

    /// Show another list of devices. The selected one stays selected if it is
    /// there, and otherwise the first is selected.
    fn relist(&mut self, list: Vec<DeviceRecord>)
        ensures
            final(self).deep_view() == relisted(old(self).deep_view(), list.deep_view()),
    {
        let ghost before = self.deep_view();
        let ghost all = list.deep_view();
        let at: usize = match self.current_record() {
            Some(record) => match find_position(&list, &record.inventory_key) {
                Some(i) => i,
                None => 0,
            },
            None => 0,
        };
        let mut left: Vec<DeviceKey> = Vec::new();
        let mut present: Vec<DeviceKey> = Vec::new();
        let mut i: usize = 0;
        proof {
            assert(all.take(0) =~= Seq::empty());
            assert(left.deep_view() =~= moved_keys(before.devices.records, Seq::empty()));
        }
        while i < list.len()
            invariant
                i <= list@.len(),
                all == list.deep_view(),
                self.deep_view() == before,
                left.deep_view() == moved_keys(before.devices.records, all.take(i as int)),
                present@.len() == i,
                forall|k: int|
                    0 <= k < i ==> (#[trigger] present@[k]).deep_view() == all[k].config_key,
            decreases list@.len() - i,
        {
            let ghost keys = left.deep_view();
            let record = &list[i];
            proof {
                assert(all.take(i as int + 1).drop_last() =~= all.take(i as int));
                assert(all.take(i as int + 1).last() == record.deep_view());
                assert(all[i as int] == record.deep_view());
            }
            if has_moved(&self.devices.records, record) {
                left.push(record.device_key());
                proof {
                    assert(left.deep_view() =~= keys.push(record.config_key@));
                }
            }
            present.push(record.device_key());
            i = i + 1;
        }
        proof {
            assert(all.take(all.len() as int) =~= all);
            assert(present.deep_view() =~= config_keys(all));
        }
        self.devices.replace(list, at);
        let ghost replaced = self.deep_view();
        let ghost keys = left.deep_view();
        let mut j: usize = 0;
        proof {
            assert(keys.take(0) =~= Seq::empty());
        }
        while j < left.len()
            invariant
                j <= left@.len(),
                keys == left.deep_view(),
                self.deep_view() == each_left(replaced, keys.take(j as int)),
            decreases left@.len() - j,
        {
            proof {
                assert(keys.take(j as int + 1).drop_last() =~= keys.take(j as int));
                assert(keys.take(j as int + 1).last() == left@[j as int].deep_view());
            }
            self.leave_route(&left[j]);
            j = j + 1;
        }
        proof {
            assert(keys.take(keys.len() as int) =~= keys);
            lemma_each_left(replaced, before.devices.records, all);
            lemma_left_keeps(replaced, before.devices.records, all);
        }
        self.dpi_reads.retain_present(&present);
        self.smartshift_reads.retain_present(&present);
        self.reselect();
    }

    /// Show what an inventory came to. Returns whether anything that is shown
    /// has changed; an inventory that changes nothing costs nothing.
    pub fn refresh_inventories(&mut self, list: &Vec<DeviceRecord>) -> (r: (bool, Option<Save>))
        ensures
            ({
                let m = old(self).deep_view();
                let shown = ordered(merge_of(m.devices, list.deep_view()).merged);
                let news = any_news(m.config, shown);
                let known = kept_if(merged_in(m, list.deep_view()), news);
                &&& r.0 == (shown != m.devices.records)
                &&& final(self).deep_view() == (if r.0 {
                    relisted(known, shown)
                } else {
                    known
                })
                &&& r.1.deep_view() == (if news {
                    to_write(m, quiet())
                } else {
                    None
                })
            }),
    {
        let shown = self.devices.merge_inventory_snapshot(list);
        let news = persist_identities(&mut self.config, &shown);
        let save = if news {
            self.persist_config()
        } else {
            None
        };
        if shown.same(&self.devices.records) {
            return (false, save);
        }
        self.relist(shown);
        (true, save)
    }

    /// Select a device, keeping which one where it keeps settings. A reading
    /// that failed on it is tried once more. Nothing changes for a device that
    /// is not there or that is selected already.
    pub fn set_current_device(&mut self, index: usize) -> (r: (Option<DeviceKey>, Option<Save>))
        ensures
            ({
                let m = old(self).deep_view();
                if index < m.devices.records.len() && m.devices.selected != Some(index) {
                    let record = m.devices.records[index as int];
                    &&& r.0.deep_view() == Some(record.config_key)
                    &&& if record.persistent {
                        &&& final(self).deep_view() == persisted(
                            choice_kept(chosen(m, index)),
                            reloading(),
                        )
                        &&& r.1.deep_view() == to_write(m, reloading())
                    } else {
                        final(self).deep_view() == chosen(m, index) && r.1 is None
                    }
                } else {
                    final(self).deep_view() == m && r.0 is None && r.1 is None
                }
            }),
            r.0 is Some ==> final(self).devices.selected == Some(index),
            (r.0 is Some && old(self).deep_view().devices.records[index as int].persistent && !(old(
                self,
            ).config_persistence is ReadOnly)) ==> final(self).deep_view().config.selected_device
                == Some(old(self).deep_view().devices.records[index as int].config_key),
    {
        if !self.devices.select(index) {
            return (None, None);
        }
        let ghost m = self.deep_view();
        let (key, persistent): (DeviceKey, bool) = match self.current_record() {
            Some(record) => (record.device_key(), record.is_persistent()),
            None => {
                return (None, None);
            },
        };
        let dpi_failed = match self.dpi_reads.get(&key) {
            Some(load) => matches!(load, Load::Failed(_)),
            None => false,
        };
        let wheel_failed = match self.smartshift_reads.get(&key) {
            Some(load) => matches!(load, Load::Failed(_)),
            None => false,
        };
        if dpi_failed {
            self.dpi_reads.retry(&key);
        }
        if wheel_failed {
            self.retry_smartshift(&key);
        }
        self.reselect();
        if !persistent {
            return (Some(key), None);
        }
        self.config.selected_device = self.current_config_key();
        let save = self.persist_and_reload();
        (Some(key), save)
    }
}

/// The keys of the devices of a list that have moved.
spec fn moved_keys(before: Seq<DeviceRecordModel>, list: Seq<DeviceRecordModel>) -> Seq<Seq<char>>
    decreases list.len(),
{
    if list.len() == 0 {
        Seq::empty()
    } else {
        let rest = moved_keys(before, list.drop_last());
        if moved(before, list.last()) {
            rest.push(list.last().config_key)
        } else {
            rest
        }
    }
}

spec fn each_left(m: StateModel, keys: Seq<Seq<char>>) -> StateModel
    decreases keys.len(),
{
    if keys.len() == 0 {
        m
    } else {
        left_route(each_left(m, keys.drop_last()), keys.last())
    }
}

proof fn lemma_each_left(
    m: StateModel,
    before: Seq<DeviceRecordModel>,
    list: Seq<DeviceRecordModel>,
)
    ensures
        each_left(m, moved_keys(before, list)) == all_left(m, before, list),
    decreases list.len(),
{
    if list.len() > 0 {
        lemma_each_left(m, before, list.drop_last());
        let rest = moved_keys(before, list.drop_last());
        if moved(before, list.last()) {
            assert(rest.push(list.last().config_key).drop_last() =~= rest);
        }
    }
}

proof fn lemma_left_keeps(
    m: StateModel,
    before: Seq<DeviceRecordModel>,
    list: Seq<DeviceRecordModel>,
)
    ensures
        all_left(m, before, list).devices.records == m.devices.records,
        all_left(m, before, list).devices.selected == m.devices.selected,
    decreases list.len(),
{
    if list.len() > 0 {
        lemma_left_keeps(m, before, list.drop_last());
    }
}

/// However the devices are listed, the selection is one of them.
pub proof fn the_selection_stays_valid(m: StateModel, list: Seq<DeviceRecordModel>)
    requires
        list.len() <= usize::MAX,
    ensures
        selection_is_valid(relisted(m, list).devices),
        relisted(m, list).devices.records == list,
{
    let at = match current_of(m.devices) {
        Some(record) => match position_of(list, record.inventory_key) {
            Some(i) => i as usize,
            None => 0,
        },
        None => 0,
    };
    let replaced = StateModel {
        devices: StoreModel { selected: clamped(list.len(), at), records: list, ..m.devices },
        ..m
    };
    lemma_left_keeps(replaced, m.devices.records, list);
}

proof fn lemma_position(list: Seq<DeviceRecordModel>, key: Seq<char>)
    ensures
        position_of(list, key) matches Some(i) ==> 0 <= i < list.len()
            && list[i].inventory_key == key,
        position_of(list, key) is None ==> forall|i: int|
            0 <= i < list.len() ==> (#[trigger] list[i]).inventory_key != key,
    decreases list.len(),
{
    if list.len() > 0 {
        lemma_position(list.drop_last(), key);
        if position_of(list, key) is None {
            assert forall|i: int| 0 <= i < list.len() implies (#[trigger] list[i]).inventory_key
                != key by {
                if i < list.len() - 1 {
                    assert(list.drop_last()[i] == list[i]);
                }
            }
        }
    }
}

/// A device that is selected stays selected as long as it is listed.
pub proof fn the_selected_device_stays_selected(m: StateModel, list: Seq<DeviceRecordModel>)
    requires
        list.len() <= usize::MAX,
        current_of(m.devices) is Some,
        exists|i: int|
            0 <= i < list.len() && (#[trigger] list[i]).inventory_key == current_of(
                m.devices,
            )->0.inventory_key,
    ensures
        current_of(relisted(m, list).devices) is Some,
        current_of(relisted(m, list).devices)->0.inventory_key == current_of(
            m.devices,
        )->0.inventory_key,
{
    let key = current_of(m.devices)->0.inventory_key;
    lemma_position(list, key);
    let at = position_of(list, key)->0 as usize;
    let replaced = StateModel {
        devices: StoreModel { selected: clamped(list.len(), at), records: list, ..m.devices },
        ..m
    };
    lemma_left_keeps(replaced, m.devices.records, list);
}

/// What is kept counts as kept, and what is not is taken back: either way the
/// configuration that is shown is the one that is on disk.
pub proof fn nothing_unsaved_is_shown(m: StateModel, save: SaveModel, message: Seq<char>)
    ensures
        landed(m, save).config == m.config,
        landed(m, save).persisted_config == m.config,
        refused(m, message).config == m.persisted_config,
        refused(m, message).persisted_config == m.persisted_config,
        refused(m, message).outbox == m.outbox,
        refused(m, message).config_issue == Some(IssueModel::Persistence(message)),
{
}

/// Where the configuration may not be written, an edit is taken back, the agent
/// hears nothing, and the issue stays.
pub proof fn a_read_only_configuration_stays(m: StateModel, save: SaveModel, message: String)
    requires
        m.config_persistence == ConfigPersistence::ReadOnly(message),
    ensures
        persisted(m, save).config == m.persisted_config,
        persisted(m, save).outbox == m.outbox,
        persisted(m, save).config_issue == m.config_issue,
        to_write(m, save) is None,
{
}

/// A profile belongs to the device it was opened on: on another device it does
/// not count, and back on the first it is open again.
pub proof fn a_profile_belongs_to_its_device(m: StateModel, other: usize, back: usize)
    requires
        other < m.devices.records.len(),
        back < m.devices.records.len(),
        m.devices.selected == Some(back),
        m.devices.records[other as int].config_key != m.devices.records[back as int].config_key,
        editing(m) is Some,
    ensures
        editing(chosen(m, other)) is None,
        editing(chosen(chosen(m, other), back)) == editing(m),
{
}

proof fn lemma_remembered_keeps_the_choice(config: ConfigModel, list: Seq<DeviceRecordModel>)
    ensures
        all_remembered(config, list) == (ConfigModel {
            devices: all_remembered(config, list).devices,
            ..config
        }),
    decreases list.len(),
{
    if list.len() > 0 {
        lemma_remembered_keeps_the_choice(config, list.drop_last());
    }
}

/// A device that is selected is the selected one, and where it keeps settings the
/// configuration names it: once that is kept, the one on disk does too, and the
/// agent is told to read it.
pub proof fn the_selected_device_is_named_in_the_configuration(m: StateModel, index: usize)
    requires
        index < m.devices.records.len(),
        m.devices.records[index as int].persistent,
        !(m.config_persistence is ReadOnly),
    ensures
        ({
            let record = m.devices.records[index as int];
            let after = persisted(choice_kept(chosen(m, index)), reloading());
            let written = landed(after, reloading());
            &&& after.config.selected_device == Some(record.config_key)
            &&& after.devices.selected == Some(index)
            &&& after.devices.records == m.devices.records
            &&& after.config == (ConfigModel {
                selected_device: after.config.selected_device,
                ..m.config
            })
            &&& written.persisted_config.selected_device == Some(record.config_key)
            &&& m.config_persistence is MemoryOnly ==> after.persisted_config.selected_device
                == Some(record.config_key) && after.outbox == m.outbox.push(
                CommandModel::ReloadConfig,
            )
            &&& written.outbox.last() == CommandModel::ReloadConfig
        }),
{
}

/// Where the configuration may not be written, selecting a device does not name it
/// there, and the device is selected all the same.
pub proof fn a_selection_that_is_not_kept_stands(m: StateModel, index: usize)
    requires
        index < m.devices.records.len(),
        m.config_persistence is ReadOnly,
    ensures
        ({
            let after = persisted(choice_kept(chosen(m, index)), reloading());
            &&& after.config == m.persisted_config
            &&& after.devices.selected == Some(index)
        }),
{
}

proof fn lemma_config_position(list: Seq<DeviceRecordModel>, key: Seq<char>)
    ensures
        config_position(list, key) matches Some(i) ==> 0 <= i < list.len() && list[i].config_key
            == key && forall|j: int| 0 <= j < i ==> (#[trigger] list[j]).config_key != key,
        config_position(list, key) is None ==> forall|j: int|
            0 <= j < list.len() ==> (#[trigger] list[j]).config_key != key,
    decreases list.len(),
{
    if list.len() > 0 {
        let rest = list.drop_last();
        lemma_config_position(rest, key);
        assert forall|j: int| 0 <= j < rest.len() implies #[trigger] rest[j] == list[j] by {}
        if let Some(i) = config_position(rest, key) {
            assert forall|j: int| 0 <= j < i implies (#[trigger] list[j]).config_key != key by {
                assert(rest[j] == list[j]);
            }
        } else {
            assert forall|j: int| 0 <= j < list.len() - 1 implies (#[trigger] list[j]).config_key
                != key by {
                assert(rest[j] == list[j]);
            }
        }
    }
}

/// The device that was selected last is selected again at the next start, the first
/// of its key; without one, or when it is gone, the first device is.
pub proof fn the_last_selection_is_taken_up(
    config: ConfigModel,
    records: Seq<DeviceRecordModel>,
    persistence: ConfigPersistence,
    defaults: DefaultsModel,
    i: int,
)
    requires
        records.len() <= usize::MAX,
        0 <= i < records.len(),
    ensures
        ({
            let selected = started(config, records, persistence, defaults).devices.selected;
            &&& config.selected_device == Some(records[i].config_key) ==> {
                &&& selected is Some && selected->0 <= i
                &&& records[selected->0 as int].config_key == records[i].config_key
            }
            &&& config.selected_device is None ==> selected == Some(0usize)
            &&& (config.selected_device matches Some(key) && forall|j: int|
                0 <= j < records.len() ==> (#[trigger] records[j]).config_key != key) ==> selected
                == Some(0usize)
        }),
{
    lemma_remembered_keeps_the_choice(config, records);
    if let Some(key) = config.selected_device {
        lemma_config_position(records, key);
    }
}

/// The state begins with the devices that are there, the panels of the selected one
/// filled, and nothing under way; a configuration that may not be written is told.
pub proof fn a_start_shows_the_selected_device(
    config: ConfigModel,
    records: Seq<DeviceRecordModel>,
    persistence: ConfigPersistence,
    defaults: DefaultsModel,
)
    ensures
        ({
            let m = filled(started(config, records, persistence, defaults));
            &&& m.devices.records == records
            &&& m.devices.runtime.dom() == Set::<Seq<char>>::empty()
            &&& m.button_bindings == shown_bindings(m)
            &&& m.gesture_bindings == shown_gestures(m)
            &&& m.keyboard_bindings == config.keyboard
            &&& m.persisted_config == config
            &&& m.config == (ConfigModel { devices: m.config.devices, ..config })
            &&& m.config_persistence == persistence
            &&& m.defaults == defaults
            &&& m.outbox.len() == 0
            &&& m.config_issue is Some <==> persistence is ReadOnly
            &&& persistence matches ConfigPersistence::ReadOnly(message) ==> m.config_issue == Some(
                IssueModel::Persistence(message@),
            )
            &&& m.editing_scope is None
        }),
{
    lemma_remembered_keeps_the_choice(config, records);
    let m = filled(started(config, records, persistence, defaults));
    assert(m.devices.runtime.dom() =~= Set::<Seq<char>>::empty());
}

/// Selecting a device shows what it does and how it is set, and reads anew what
/// could not be read of it. What is known of every other device stays, and so do
/// readings of this one that did not fail.
pub proof fn selecting_shows_the_device(m: StateModel, index: usize, other: Seq<char>)
    requires
        index < m.devices.records.len(),
    ensures
        ({
            let record = m.devices.records[index as int];
            let key = record.config_key;
            let after = chosen(m, index);
            &&& current_of(after.devices) == Some(record)
            &&& after.devices.records == m.devices.records
            &&& after.button_bindings == shown_bindings(after)
            &&& after.gesture_bindings == shown_gestures(after)
            &&& after.dpi == dpi_shown(after)
            &&& after.config == m.config
            &&& after.outbox == m.outbox
            &&& load_of(m.dpi_reads, key) is Failed ==> !after.dpi_reads.by_device.contains_key(key)
            &&& !(load_of(m.dpi_reads, key) is Failed) ==> after.dpi_reads == m.dpi_reads
            &&& load_of(m.smartshift_reads, key) is Failed
                ==> !after.smartshift_reads.by_device.contains_key(key)
            &&& !(load_of(m.smartshift_reads, key) is Failed) ==> after.smartshift_reads
                == m.smartshift_reads
            &&& other != key ==> {
                &&& after.dpi_reads.by_device.contains_key(other)
                    <==> m.dpi_reads.by_device.contains_key(other)
                &&& m.dpi_reads.by_device.contains_key(other)
                    ==> after.dpi_reads.by_device[other] == m.dpi_reads.by_device[other]
                &&& after.smartshift_reads.by_device.contains_key(other)
                    <==> m.smartshift_reads.by_device.contains_key(other)
                &&& m.smartshift_reads.by_device.contains_key(other)
                    ==> after.smartshift_reads.by_device[other]
                    == m.smartshift_reads.by_device[other]
                &&& ui_of(after, other) == ui_of(m, other)
            }
        }),
{
}

/// The resolution that is shown is the one that is kept for the device; where none
/// is, the one that was read of it; and where neither is known, the default.
pub proof fn a_kept_resolution_goes_before_a_reading(m: StateModel, record: DeviceRecordModel)
    requires
        current_of(m.devices) == Some(record),
    ensures
        ({
            let key = record.config_key;
            let kept = record.persistent && m.config.devices.contains_key(key)
                && m.config.devices[key].dpi is Some;
            &&& kept ==> Some(dpi_shown(m)) == m.config.devices[key].dpi
            &&& !kept && m.dpi_reads.by_device.contains_key(key) ==> match
                m.dpi_reads.by_device[key] {
                LoadModel::Ready(info) => dpi_shown(m) == info.current,
                _ => dpi_shown(m) == 1600,
            }
            &&& !kept && !m.dpi_reads.by_device.contains_key(key) ==> dpi_shown(m) == 1600
        }),
{
}

/// A device that is remembered is remembered as what it is, without what tells one
/// unit from another. It is remembered only when it is there, keeps settings, and
/// what it can do was read.
pub proof fn a_device_is_remembered_as_its_model(config: ConfigModel, record: DeviceRecordModel)
    ensures
        ({
            let tells = record.online && record.persistent && (record.capabilities is Some
                || record.light_capabilities is Some);
            let after = remembered(config, record);
            let identity = after.devices[record.config_key].identity->0;
            &&& !tells ==> after == config
            &&& tells ==> {
                &&& after.devices.contains_key(record.config_key)
                &&& after.devices[record.config_key].identity is Some
                &&& identity.display_name == record.model_name
                &&& identity.kind == record.kind
                &&& record.capabilities is Some ==> Some(identity.capabilities)
                    == record.capabilities
                &&& identity.light_capabilities == record.light_capabilities
                &&& identity.codename == record.codename
                &&& identity.driver_id == record.driver_id
                &&& identity.registry_model_id == record.registry_model_id
                &&& identity.model_info is Some <==> record.model_info is Some
                &&& identity.model_info matches Some(model) ==> model.serial_number is None
                    && model.unit_id == 0 && model.model_key == record.model_info->0.model_key
                &&& after.devices.remove(record.config_key) == config.devices.remove(
                    record.config_key,
                )
                &&& after == (ConfigModel { devices: after.devices, ..config })
            }
            &&& is_news(config, record) <==> remembered(config, record).devices
                != config.devices || (tells && !config.devices.contains_key(record.config_key))
        }),
{
    let after = remembered(config, record);
    let key = record.config_key;
    if identity_of(record) is Some {
        assert(after.devices.remove(key) =~= config.devices.remove(key));
        if is_news(config, record) && config.devices.contains_key(key) {
            assert(after.devices[key].identity != config.devices[key].identity);
        }
    }
}

/// Remembering the same devices again is no news.
pub proof fn a_device_is_remembered_once(config: ConfigModel, record: DeviceRecordModel)
    ensures
        !is_news(remembered(config, record), record),
        remembered(remembered(config, record), record) == remembered(config, record),
{
}

/// A device without a name for its model needs no artwork; one that is in the
/// registry goes by its entry there, and any other by the model that it tells.
pub proof fn artwork_goes_by_the_model(record: DeviceRecordModel)
    ensures
        target_of(record) is None <==> record.registry_model_id is None && record.model_info is None,
        record.registry_model_id matches Some(id) ==> target_of(record) is Some && target_key(
            target_of(record)->0,
        ) == id,
        record.registry_model_id is None ==> (record.model_info matches Some(model) ==> target_of(
            record,
        ) is Some && target_key(target_of(record)->0) == model.model_key),
{
}

/// The artwork of every device is asked for, and that of no model twice.
pub proof fn each_model_is_asked_for_once(records: Seq<DeviceRecordModel>)
    ensures
        forall|i: int|
            0 <= i < records.len() && target_of(#[trigger] records[i]) is Some ==> target_keys(
                targets_of(records),
            ).contains(target_key(target_of(records[i])->0)),
        forall|i: int, j: int|
            0 <= i < j < targets_of(records).len() ==> target_key(
                #[trigger] targets_of(records)[i],
            ) != target_key(#[trigger] targets_of(records)[j]),
        forall|i: int|
            0 <= i < targets_of(records).len() ==> exists|k: int|
                0 <= k < records.len() && target_of(#[trigger] records[k]) == Some(
                    #[trigger] targets_of(records)[i],
                ),
    decreases records.len(),
{
    if records.len() > 0 {
        let rest = records.drop_last();
        each_model_is_asked_for_once(rest);
        let before = targets_of(rest);
        let now = targets_of(records);
        let last = records.len() - 1;
        assert forall|i: int| 0 <= i < rest.len() implies #[trigger] rest[i] == records[i] by {}
        assert forall|key: Seq<char>| target_keys(before).contains(key) implies #[trigger]
            target_keys(now).contains(key) by {
            let k = choose|k: int| 0 <= k < target_keys(before).len() && target_keys(before)[k]
                == key;
            assert(target_keys(now)[k] == key);
        }
        assert forall|i: int|
            0 <= i < records.len() && target_of(#[trigger] records[i]) is Some implies target_keys(
            now,
        ).contains(target_key(target_of(records[i])->0)) by {
            if i < last {
                assert(rest[i] == records[i]);
                assert(target_keys(before).contains(target_key(target_of(rest[i])->0)));
            } else if now.len() > before.len() {
                assert(target_keys(now)[before.len() as int] == target_key(
                    target_of(records[i])->0,
                ));
            }
        }
        assert forall|i: int, j: int| 0 <= i < j < now.len() implies target_key(
            #[trigger] now[i],
        ) != target_key(#[trigger] now[j]) by {
            assert(now[i] == before[i]);
            if j < before.len() {
                assert(now[j] == before[j]);
            } else {
                assert(target_keys(before)[i] == target_key(before[i]));
            }
        }
        assert forall|i: int| 0 <= i < now.len() implies exists|k: int|
            0 <= k < records.len() && target_of(#[trigger] records[k]) == Some(
                #[trigger] now[i],
            ) by {
            if i < before.len() {
                assert(now[i] == before[i]);
                let k = choose|k: int|
                    0 <= k < rest.len() && target_of(#[trigger] rest[k]) == Some(before[i]);
                assert(target_of(records[k]) == Some(now[i]));
            } else {
                assert(target_of(records[last]) == Some(now[i]));
            }
        }
    }
}

proof fn lemma_all_left(
    m: StateModel,
    before: Seq<DeviceRecordModel>,
    list: Seq<DeviceRecordModel>,
    key: Seq<char>,
)
    ensures
        ({
            let after = all_left(m, before, list);
            let left = exists|i: int|
                0 <= i < list.len() && moved(before, #[trigger] list[i]) && list[i].config_key
                    == key;
            &&& after == (StateModel {
                devices: after.devices,
                dpi_reads: after.dpi_reads,
                smartshift_reads: after.smartshift_reads,
                ..m
            })
            &&& after.devices.records == m.devices.records
            &&& after.devices.selected == m.devices.selected
            &&& left ==> {
                &&& !after.dpi_reads.by_device.contains_key(key)
                &&& !after.smartshift_reads.by_device.contains_key(key)
                &&& ui_of(after, key).smartshift_pending_confirm is None
                &&& ui_of(after, key).smartshift_write_status is None
            }
            &&& !left ==> {
                &&& after.dpi_reads.by_device.contains_key(key)
                    <==> m.dpi_reads.by_device.contains_key(key)
                &&& m.dpi_reads.by_device.contains_key(key) ==> after.dpi_reads.by_device[key]
                    == m.dpi_reads.by_device[key]
                &&& after.smartshift_reads.by_device.contains_key(key)
                    <==> m.smartshift_reads.by_device.contains_key(key)
                &&& m.smartshift_reads.by_device.contains_key(key)
                    ==> after.smartshift_reads.by_device[key] == m.smartshift_reads.by_device[key]
                &&& ui_of(after, key) == ui_of(m, key)
            }
            &&& ui_of(after, key).inventory_misses == ui_of(m, key).inventory_misses
            &&& ui_of(after, key).manual_light_override == ui_of(m, key).manual_light_override
        }),
    decreases list.len(),
{
    if list.len() > 0 {
        let rest = list.drop_last();
        lemma_all_left(m, before, rest, key);
        let last = list.len() - 1;
        assert forall|i: int| 0 <= i < rest.len() implies #[trigger] rest[i] == list[i] by {}
        assert(list[last] == list.last());
        if exists|i: int|
            0 <= i < rest.len() && moved(before, #[trigger] rest[i]) && rest[i].config_key == key {
            let i = choose|i: int|
                0 <= i < rest.len() && moved(before, #[trigger] rest[i]) && rest[i].config_key
                    == key;
            assert(moved(before, list[i]));
        }
        if exists|i: int|
            0 <= i < list.len() && moved(before, #[trigger] list[i]) && list[i].config_key == key {
            let i = choose|i: int|
                0 <= i < list.len() && moved(before, #[trigger] list[i]) && list[i].config_key
                    == key;
            if i < last {
                assert(moved(before, rest[i]));
            }
        }
    }
}

/// What was read of a device that has come over another route is dropped, and so is
/// what was read of a device that is gone. What is known of the others stays. The
/// panels then show the device that is selected.
pub proof fn readings_belong_to_a_route(
    m: StateModel,
    list: Seq<DeviceRecordModel>,
    key: Seq<char>,
)
    ensures
        ({
            let after = relisted(m, list);
            let present = exists|i: int|
                0 <= i < list.len() && (#[trigger] list[i]).config_key == key;
            let left = exists|i: int, j: int|
                0 <= i < list.len() && 0 <= j < m.devices.records.len() && (
                #[trigger] list[i]).config_key == key && (
                #[trigger] m.devices.records[j]).config_key == key && m.devices.records[j].route
                    != list[i].route;
            &&& after.devices.records == list
            &&& !present || left ==> !after.dpi_reads.by_device.contains_key(key)
                && !after.smartshift_reads.by_device.contains_key(key)
            &&& present && !left ==> {
                &&& after.dpi_reads.by_device.contains_key(key)
                    <==> m.dpi_reads.by_device.contains_key(key)
                &&& m.dpi_reads.by_device.contains_key(key) ==> after.dpi_reads.by_device[key]
                    == m.dpi_reads.by_device[key]
                &&& after.smartshift_reads.by_device.contains_key(key)
                    <==> m.smartshift_reads.by_device.contains_key(key)
                &&& m.smartshift_reads.by_device.contains_key(key)
                    ==> after.smartshift_reads.by_device[key] == m.smartshift_reads.by_device[key]
            }
            &&& left ==> ui_of(after, key).smartshift_pending_confirm is None && ui_of(
                after,
                key,
            ).smartshift_write_status is None
            &&& !left ==> ui_of(after, key) == ui_of(m, key)
            &&& after.button_bindings == shown_bindings(after)
            &&& after.gesture_bindings == shown_gestures(after)
            &&& after.dpi == dpi_shown(after)
            &&& after.config == m.config
            &&& after.outbox == m.outbox
        }),
{
    let at = match current_of(m.devices) {
        Some(record) => match position_of(list, record.inventory_key) {
            Some(i) => i as usize,
            None => 0,
        },
        None => 0,
    };
    let replaced = StateModel {
        devices: StoreModel { selected: clamped(list.len(), at), records: list, ..m.devices },
        ..m
    };
    let before = m.devices.records;
    let gone = all_left(replaced, before, list);
    lemma_all_left(replaced, before, list, key);
    let keys = config_keys(list);
    assert(keys.to_set().contains(key) <==> exists|i: int|
        0 <= i < list.len() && (#[trigger] list[i]).config_key == key) by {
        if keys.contains(key) {
            let i = choose|i: int| 0 <= i < keys.len() && keys[i] == key;
            assert(list[i].config_key == key);
        }
        if exists|i: int| 0 <= i < list.len() && (#[trigger] list[i]).config_key == key {
            let i = choose|i: int| 0 <= i < list.len() && (#[trigger] list[i]).config_key == key;
            assert(keys[i] == key);
        }
    }
    if exists|i: int, j: int|
        0 <= i < list.len() && 0 <= j < before.len() && (#[trigger] list[i]).config_key == key && (
        #[trigger] before[j]).config_key == key && before[j].route != list[i].route {
        let (i, j) = choose|i: int, j: int|
            0 <= i < list.len() && 0 <= j < before.len() && (#[trigger] list[i]).config_key == key
                && (#[trigger] before[j]).config_key == key && before[j].route != list[i].route;
        assert(before[j].config_key == list[i].config_key);
        assert(moved(before, list[i]));
    }
    if exists|i: int|
        0 <= i < list.len() && moved(before, #[trigger] list[i]) && list[i].config_key == key {
        let i = choose|i: int|
            0 <= i < list.len() && moved(before, #[trigger] list[i]) && list[i].config_key == key;
        let j = choose|j: int|
            0 <= j < before.len() && (#[trigger] before[j]).config_key == list[i].config_key
                && before[j].route != list[i].route;
        assert(before[j].config_key == key);
    }
    let after = relisted(m, list);
    assert(gone.devices.records == list);
    assert(after.dpi_reads.by_device == gone.dpi_reads.by_device.restrict(keys.to_set()));
}

/// Devices that are no news leave the configuration as it is.
pub proof fn no_news_changes_nothing(config: ConfigModel, list: Seq<DeviceRecordModel>)
    ensures
        !any_news(config, list) ==> all_remembered(config, list) == config,
        list.len() == 1 && is_news(config, list[0]) ==> any_news(config, list),
    decreases list.len(),
{
    if list.len() > 0 {
        no_news_changes_nothing(config, list.drop_last());
        if list.len() == 1 {
            assert(list.drop_last() =~= Seq::empty());
        }
    }
}

/// Every device of a list that tells enough is remembered, as the last of its key in
/// the list; the settings that it has stay.
pub proof fn every_device_of_a_list_is_remembered(
    config: ConfigModel,
    list: Seq<DeviceRecordModel>,
    i: int,
)
    requires
        0 <= i < list.len(),
        identity_of(list[i]) is Some,
        forall|j: int| i < j < list.len() ==> (#[trigger] list[j]).config_key != list[i].config_key,
    ensures
        ({
            let row = row_of(all_remembered(config, list), list[i].config_key);
            &&& row.identity == identity_of(list[i])
            &&& row.identity->0.display_name == list[i].model_name
            &&& row.identity->0.kind == list[i].kind
            &&& row == (DeviceConfigModel {
                identity: row.identity,
                ..row_of(config, list[i].config_key)
            })
        }),
    decreases list.len(),
{
    let rest = list.drop_last();
    let key = list[i].config_key;
    lemma_rows_keep(config, rest, key);
    if i < list.len() - 1 {
        assert(rest[i] == list[i]);
        assert forall|j: int| i < j < rest.len() implies (#[trigger] rest[j]).config_key
            != rest[i].config_key by {
            assert(rest[j] == list[j]);
        }
        every_device_of_a_list_is_remembered(config, rest, i);
        assert(list[list.len() - 1].config_key != key);
    }
}

proof fn lemma_rows_keep(config: ConfigModel, list: Seq<DeviceRecordModel>, key: Seq<char>)
    ensures
        ({
            let row = row_of(all_remembered(config, list), key);
            row == (DeviceConfigModel { identity: row.identity, ..row_of(config, key) })
        }),
    decreases list.len(),
{
    if list.len() > 0 {
        lemma_rows_keep(config, list.drop_last(), key);
    }
}

/// What an inventory tells of its devices is kept, where it is news, and not otherwise;
/// the agent has no part in that.
pub proof fn what_is_learnt_is_kept(m: StateModel, list: Seq<DeviceRecordModel>, news: bool)
    requires
        !(m.config_persistence is ReadOnly),
    ensures
        ({
            let merged = merged_in(m, list);
            let shown = ordered(merge_of(m.devices, list).merged);
            let after = kept_if(merged, news);
            &&& merged.config == all_remembered(m.config, shown)
            &&& merged.devices.runtime == merge_of(m.devices, list).runtime
            &&& merged.devices.records == m.devices.records
            &&& after.config == merged.config
            &&& !news ==> after == merged
            &&& news && m.config_persistence == ConfigPersistence::MemoryOnly
                ==> after.persisted_config == merged.config
            &&& after.outbox == m.outbox
        }),
{
}

} // verus!
