//! What the application does when something happens around it.

use vstd::prelude::*;

use crate::catalog::{
    any_news, kept_if, merged_in, relisted, target_key, targets_of, AssetTarget, AssetTargetModel,
};
use crate::config::AssetSourcePreference;
use crate::data::Data;
use crate::device::{
    DeviceInventory, DeviceModelInfo, DeviceModelInfoModel, DeviceRecord, DeviceRecordModel,
    DeviceTransports,
};
use crate::foreground::{issue_after_reload, reload_result};
use crate::inventory::{merge_of, ordered};
use crate::probe::{hex4, push_hex4};
use crate::state::{quiet, to_write, AppState, Save, SaveModel, StateModel};
use crate::text::concat;

verus! {

/// How often cameras are looked for, in seconds. Nothing tells when one is
/// plugged in.
pub const CAMERA_SCAN_PERIOD_SECS: u64 = 2;

/// How many scans in a row may find nothing before cameras go.
pub const CAMERA_MISS_GRACE: u8 = 2;

/// A camera of the host.
#[derive(Clone, Debug, PartialEq, Eq)]
pub struct Camera {
    pub name: String,
    /// Names the port it is on.
    pub unique_id: String,
    pub serial_number: Option<String>,
    pub vendor_id: u16,
    pub product_id: u16,
    pub max_width: Option<u32>,
    pub max_height: Option<u32>,
    pub max_fps: Option<u32>,
}

/// What a [`Camera`] holds.
pub ghost struct CameraModel {
    pub name: Seq<char>,
    pub unique_id: Seq<char>,
    pub serial_number: Option<Seq<char>>,
    pub vendor_id: u16,
    pub product_id: u16,
    pub max_width: Option<u32>,
    pub max_height: Option<u32>,
    pub max_fps: Option<u32>,
}

impl DeepView for Camera {
    type V = CameraModel;

    open spec fn deep_view(&self) -> CameraModel {
        CameraModel {
            name: self.name.deep_view(),
            unique_id: self.unique_id.deep_view(),
            serial_number: self.serial_number.deep_view(),
            vendor_id: self.vendor_id.deep_view(),
            product_id: self.product_id.deep_view(),
            max_width: self.max_width.deep_view(),
            max_height: self.max_height.deep_view(),
            max_fps: self.max_fps.deep_view(),
        }
    }
}

impl Data for Camera {
    fn duplicate(&self) -> (r: Self) {
        Camera {
            name: self.name.duplicate(),
            unique_id: self.unique_id.duplicate(),
            serial_number: self.serial_number.duplicate(),
            vendor_id: self.vendor_id.duplicate(),
            product_id: self.product_id.duplicate(),
            max_width: self.max_width.duplicate(),
            max_height: self.max_height.duplicate(),
            max_fps: self.max_fps.duplicate(),
        }
    }

    fn same(&self, other: &Self) -> (r: bool) {
        self.name.same(&other.name)
            && self.unique_id.same(&other.unique_id)
            && self.serial_number.same(&other.serial_number)
            && self.vendor_id.same(&other.vendor_id)
            && self.product_id.same(&other.product_id)
            && self.max_width.same(&other.max_width)
            && self.max_height.same(&other.max_height)
            && self.max_fps.same(&other.max_fps)
    }
}

/// The cameras that are shown, and how many scans in a row found none.
#[derive(Debug)]
pub struct CameraWatch {
    pub cams: Vec<Camera>,
    pub misses: u8,
}

/// What a [`CameraWatch`] holds.
pub ghost struct WatchModel {
    pub cams: Seq<CameraModel>,
    pub misses: u8,
}

impl DeepView for CameraWatch {
    type V = WatchModel;

    open spec fn deep_view(&self) -> WatchModel {
        WatchModel { cams: self.cams.deep_view(), misses: self.misses }
    }
}

/// Whether a scan that found nothing is not believed yet. A camera that another
/// process takes hold of is missing for a moment.
pub open spec fn is_blink(m: WatchModel, scanned: Seq<CameraModel>) -> bool {
    scanned.len() == 0 && m.cams.len() > 0 && m.misses < CAMERA_MISS_GRACE
}

/// The cameras once a scan is done.
pub open spec fn scanned_into(m: WatchModel, scanned: Seq<CameraModel>) -> WatchModel {
    if is_blink(m, scanned) {
        WatchModel { misses: (m.misses + 1) as u8, ..m }
    } else {
        WatchModel { cams: scanned, misses: 0 }
    }
}

impl CameraWatch {
    /// Take over what a scan found, saying whether what is shown has changed.
    pub fn rescan_cameras(&mut self, scanned: Vec<Camera>) -> (r: bool)
        ensures
            final(self).deep_view() == scanned_into(old(self).deep_view(), scanned.deep_view()),
            r == (final(self).deep_view().cams != old(self).deep_view().cams),
    {
        proof {
            assert(scanned.deep_view().len() == scanned@.len());
            assert(self.cams.deep_view().len() == self.cams@.len());
        }
        if scanned.len() == 0 && self.cams.len() > 0 && self.misses < CAMERA_MISS_GRACE {
            self.misses = self.misses + 1;
            return false;
        }
        self.misses = 0;
        if scanned.same(&self.cams) {
            return false;
        }
        self.cams = scanned;
        true
    }
}

/// Two scans in a row that find nothing take no camera away, and a third does.
pub proof fn cameras_survive_two_empty_scans(m: WatchModel)
    requires
        m.cams.len() > 0,
        m.misses == 0,
    ensures
        ({
            let none = Seq::<CameraModel>::empty();
            let once = scanned_into(m, none);
            let twice = scanned_into(once, none);
            let thrice = scanned_into(twice, none);
            &&& once.cams == m.cams
            &&& twice.cams == m.cams
            &&& thrice.cams == none
        }),
{
}

/// What a subscription to artwork covers.
#[derive(Clone, Debug, PartialEq, Eq)]
pub enum AssetWatch {
    /// The registry that every fetch reads.
    Index,
    /// The artwork of one model.
    Model(AssetTarget),
}

/// What an [`AssetWatch`] holds.
pub ghost enum AssetWatchModel {
    Index,
    Model(AssetTargetModel),
}

impl DeepView for AssetWatch {
    type V = AssetWatchModel;

    open spec fn deep_view(&self) -> AssetWatchModel {
        match self {
            AssetWatch::Index => AssetWatchModel::Index,
            AssetWatch::Model(target) => AssetWatchModel::Model(target.deep_view()),
        }
    }
}

/// What names a source of artwork.
pub open spec fn segment_of(source: AssetSourcePreference) -> Seq<char> {
    match source {
        AssetSourcePreference::Automatic => "automatic"@,
        AssetSourcePreference::OpenLogi => "openlogi"@,
        AssetSourcePreference::Cloudflare => "cloudflare"@,
    }
}

/// What names a source of artwork.
pub fn source_segment(source: AssetSourcePreference) -> (r: &'static str)
    ensures
        r@ == segment_of(source),
{
    match source {
        AssetSourcePreference::Automatic => "automatic",
        AssetSourcePreference::OpenLogi => "openlogi",
        AssetSourcePreference::Cloudflare => "cloudflare",
    }
}

/// What names a subscription. The source is part of it: what is fetched comes
/// from the source that the subscription was opened with, so another source
/// means another subscription.
pub open spec fn key_of_watch(source: AssetSourcePreference, watch: AssetWatchModel) -> Seq<char> {
    match watch {
        AssetWatchModel::Index => segment_of(source) + "/index"@,
        AssetWatchModel::Model(target) => segment_of(source) + ("/model/"@ + target_key(target)),
    }
}

/// What names a subscription.
pub fn watch_key(source: AssetSourcePreference, watch: &AssetWatch) -> (r: String)
    ensures
        r@ == key_of_watch(source, watch.deep_view()),
{
    let segment = source_segment(source);
    match watch {
        AssetWatch::Index => concat(segment, "/index"),
        AssetWatch::Model(target) => {
            let key = crate::catalog::model_key(target);
            let path = concat("/model/", key.as_str());
            concat(segment, path.as_str())
        },
    }
}

/// The subscriptions that artwork takes, by name: the registry, and one for each
/// model.
pub open spec fn watch_models(source: AssetSourcePreference, targets: Seq<AssetTargetModel>) -> Seq<
    (Seq<char>, AssetWatchModel),
> {
    Seq::new(
        targets.len() + 1,
        |i: int|
            {
                let watch = if i == 0 {
                    AssetWatchModel::Index
                } else {
                    AssetWatchModel::Model(targets[i - 1])
                };
                (key_of_watch(source, watch), watch)
            },
    )
}

/// The subscriptions that artwork takes, by name.
pub fn asset_watches(source: AssetSourcePreference, targets: Vec<AssetTarget>) -> (r: Vec<
    (String, AssetWatch),
>)
    ensures
        r.deep_view() == watch_models(source, targets.deep_view()),
{
    let ghost all = targets@;
    let mut targets = targets;
    let mut r: Vec<(String, AssetWatch)> = Vec::new();
    r.push((watch_key(source, &AssetWatch::Index), AssetWatch::Index));
    while targets.len() > 0
        invariant
            r@.len() + targets@.len() == all.len() + 1,
            1 <= r@.len(),
            targets@ == all.skip(r@.len() - 1),
            r@[0].deep_view() == (
                key_of_watch(source, AssetWatchModel::Index),
                AssetWatchModel::Index,
            ),
            forall|k: int|
                1 <= k < r@.len() ==> (#[trigger] r@[k]).deep_view() == (
                    key_of_watch(source, AssetWatchModel::Model(all[k - 1].deep_view())),
                    AssetWatchModel::Model(all[k - 1].deep_view()),
                ),
        decreases targets@.len(),
    {
        let target = targets.remove(0);
        let watch = AssetWatch::Model(target);
        r.push((watch_key(source, &watch), watch));
    }
    proof {
        let models = Seq::new(all.len(), |i: int| all[i].deep_view());
        assert(r.deep_view() =~= watch_models(source, models));
    }
    r
}

/// Another source gives every subscription another name.
pub proof fn a_source_change_renames_every_subscription(
    a: AssetSourcePreference,
    b: AssetSourcePreference,
    watch: AssetWatchModel,
)
    requires
        a != b,
    ensures
        key_of_watch(a, watch) != key_of_watch(b, watch),
{
    reveal_strlit("automatic");
    reveal_strlit("openlogi");
    reveal_strlit("cloudflare");
    let x = key_of_watch(a, watch);
    let y = key_of_watch(b, watch);
    assert(x[0] == segment_of(a)[0]);
    assert(y[0] == segment_of(b)[0]);
}

/// What names the model of a camera: its vendor and product, and nothing of the
/// port.
pub open spec fn camera_model_key(camera: CameraModel) -> Seq<char> {
    "camera:"@ + hex4(camera.vendor_id) + ":"@ + hex4(camera.product_id)
}

/// The model of a camera.
pub open spec fn camera_model(camera: CameraModel) -> DeviceModelInfoModel {
    DeviceModelInfoModel {
        model_key: camera_model_key(camera),
        entity_count: 0,
        serial_number: None,
        unit_id: 0,
        transports: DeviceTransports { usb: true, equad: false, bluetooth: false, btle: false },
        model_ids: seq![camera.product_id],
        extended_model_id: 0,
    }
}

/// The model of a camera.
pub fn camera_model_info(camera: &Camera) -> (r: DeviceModelInfo)
    ensures
        r.deep_view() == camera_model(camera.deep_view()),
{
    let mut model_key = "camera:".to_owned();
    push_hex4(&mut model_key, camera.vendor_id);
    model_key.push(':');
    push_hex4(&mut model_key, camera.product_id);
    let mut model_ids: Vec<u16> = Vec::new();
    model_ids.push(camera.product_id);
    proof {
        reveal_strlit(":");
        assert(model_key@ =~= camera_model_key(camera.deep_view()));
        assert(model_ids.deep_view() =~= seq![camera.product_id]);
    }
    DeviceModelInfo {
        model_key,
        entity_count: 0,
        serial_number: None,
        unit_id: 0,
        transports: DeviceTransports { usb: true, equad: false, bluetooth: false, btle: false },
        model_ids,
        extended_model_id: 0,
    }
}

/// The artwork that cameras need.
pub open spec fn camera_target_models(cams: Seq<CameraModel>) -> Seq<AssetTargetModel> {
    Seq::new(cams.len(), |i: int| AssetTargetModel::Hidpp(camera_model(cams[i]), Some(cams[i].name)))
}

/// The artwork that cameras need.
pub fn camera_targets(cams: &Vec<Camera>) -> (r: Vec<AssetTarget>)
    ensures
        r.deep_view() == camera_target_models(cams.deep_view()),
{
    let mut r: Vec<AssetTarget> = Vec::new();
    let mut i: usize = 0;
    while i < cams.len()
        invariant
            i <= cams@.len(),
            r@.len() == i,
            forall|k: int|
                0 <= k < i ==> (#[trigger] r@[k]).deep_view() == AssetTargetModel::Hidpp(
                    camera_model(cams@[k].deep_view()),
                    Some(cams@[k].name@),
                ),
        decreases cams@.len() - i,
    {
        let model = camera_model_info(&cams[i]);
        r.push(AssetTarget::Hidpp { model, codename: Some(cams[i].name.clone()) });
        i = i + 1;
    }
    proof {
        assert(r.deep_view() =~= camera_target_models(cams.deep_view()));
    }
    r
}

/// A camera keeps its one subscription when it moves to another port.
pub proof fn a_camera_keeps_its_subscription(a: CameraModel, b: CameraModel)
    requires
        a.vendor_id == b.vendor_id,
        a.product_id == b.product_id,
    ensures
        target_key(AssetTargetModel::Hidpp(camera_model(a), Some(a.name))) == target_key(
            AssetTargetModel::Hidpp(camera_model(b), Some(b.name)),
        ),
{
}

/// How far the agent has come with looking for devices.
#[derive(Clone, Copy, Debug, PartialEq, Eq, Structural)]
pub enum InventoryHealth {
    Scanning,
    Ready,
    Unavailable,
}

impl DeepView for InventoryHealth {
    type V = InventoryHealth;

    open spec fn deep_view(&self) -> InventoryHealth {
        *self
    }
}

impl Data for InventoryHealth {
    fn duplicate(&self) -> (r: Self) {
        *self
    }

    fn same(&self, other: &Self) -> (r: bool) {
        *self == *other
    }
}

/// What the agent says of itself.
#[derive(Clone, Debug, PartialEq, Eq)]
pub struct AgentStatus {
    pub agent_version: String,
    pub protocol_version: u32,
    pub inventory: InventoryHealth,
    pub accessibility_granted: bool,
    pub hook_installed: bool,
    pub launch_at_login: bool,
}

/// What a [`AgentStatus`] holds.
pub ghost struct AgentStatusModel {
    pub agent_version: Seq<char>,
    pub protocol_version: u32,
    pub inventory: InventoryHealth,
    pub accessibility_granted: bool,
    pub hook_installed: bool,
    pub launch_at_login: bool,
}

impl DeepView for AgentStatus {
    type V = AgentStatusModel;

    open spec fn deep_view(&self) -> AgentStatusModel {
        AgentStatusModel {
            agent_version: self.agent_version.deep_view(),
            protocol_version: self.protocol_version.deep_view(),
            inventory: self.inventory.deep_view(),
            accessibility_granted: self.accessibility_granted.deep_view(),
            hook_installed: self.hook_installed.deep_view(),
            launch_at_login: self.launch_at_login.deep_view(),
        }
    }
}

impl Data for AgentStatus {
    fn duplicate(&self) -> (r: Self) {
        AgentStatus {
            agent_version: self.agent_version.duplicate(),
            protocol_version: self.protocol_version.duplicate(),
            inventory: self.inventory.duplicate(),
            accessibility_granted: self.accessibility_granted.duplicate(),
            hook_installed: self.hook_installed.duplicate(),
            launch_at_login: self.launch_at_login.duplicate(),
        }
    }

    fn same(&self, other: &Self) -> (r: bool) {
        self.agent_version.same(&other.agent_version)
            && self.protocol_version.same(&other.protocol_version)
            && self.inventory.same(&other.inventory)
            && self.accessibility_granted.same(&other.accessibility_granted)
            && self.hook_installed.same(&other.hook_installed)
            && self.launch_at_login.same(&other.launch_at_login)
    }
}

/// What is known of the agent: what it last said, or why it said nothing.
#[derive(Clone, Debug, PartialEq, Eq)]
pub enum AgentLink {
    /// It said nothing yet, and may be starting.
    Connecting,
    /// It said nothing for too long.
    Unreachable,
    /// It is newer than this application.
    OutdatedGui,
    /// What it last said.
    Ready(AgentStatus),
}

/// What an [`AgentLink`] holds.
pub ghost enum LinkModel {
    Connecting,
    Unreachable,
    OutdatedGui,
    Ready(AgentStatusModel),
}

impl DeepView for AgentLink {
    type V = LinkModel;

    open spec fn deep_view(&self) -> LinkModel {
        match self {
            AgentLink::Connecting => LinkModel::Connecting,
            AgentLink::Unreachable => LinkModel::Unreachable,
            AgentLink::OutdatedGui => LinkModel::OutdatedGui,
            AgentLink::Ready(status) => LinkModel::Ready(status.deep_view()),
        }
    }
}

impl Data for AgentLink {
    fn duplicate(&self) -> (r: Self) {
        match self {
            AgentLink::Connecting => AgentLink::Connecting,
            AgentLink::Unreachable => AgentLink::Unreachable,
            AgentLink::OutdatedGui => AgentLink::OutdatedGui,
            AgentLink::Ready(status) => AgentLink::Ready(status.duplicate()),
        }
    }

    fn same(&self, other: &Self) -> (r: bool) {
        match (self, other) {
            (AgentLink::Connecting, AgentLink::Connecting) => true,
            (AgentLink::Unreachable, AgentLink::Unreachable) => true,
            (AgentLink::OutdatedGui, AgentLink::OutdatedGui) => true,
            (AgentLink::Ready(a), AgentLink::Ready(b)) => a.same(b),
            _ => false,
        }
    }
}

/// What comes from the agent besides its state.
#[derive(Debug)]
pub enum AgentUpdate {
    /// It said nothing for too long.
    Unreachable,
    /// It is newer than this application.
    OutdatedGui,
    /// Whether it took the configuration.
    ConfigReloadResult(Result<(), String>),
    /// How a change of a light ended, and whether that shows.
    LightCommandResult { changed: bool },
    /// A pairing does not happen.
    PairingUndeliverable,
}

/// What is carried from one event to the next.
#[derive(Debug)]
pub struct Runtime {
    pub cameras: CameraWatch,
    pub agent_link: AgentLink,
    /// The devices of the last inventory that was complete.
    pub listed: Vec<DeviceRecord>,
    /// Whether artwork is fetched without being asked for in this build.
    pub auto_sync: bool,
}

/// What a [`Runtime`] holds.
pub ghost struct RuntimeModel {
    pub cameras: WatchModel,
    pub agent_link: LinkModel,
    pub listed: Seq<DeviceRecordModel>,
    pub auto_sync: bool,
}

impl DeepView for Runtime {
    type V = RuntimeModel;

    open spec fn deep_view(&self) -> RuntimeModel {
        RuntimeModel {
            cameras: self.cameras.deep_view(),
            agent_link: self.agent_link.deep_view(),
            listed: self.listed.deep_view(),
            auto_sync: self.auto_sync,
        }
    }
}

/// What is to be done after an event.
#[derive(Debug)]
pub struct Aftermath {
    /// Whether what is shown has changed.
    pub repaint: bool,
    /// Whether the menus are to be built anew.
    pub rebuild_menu: bool,
    /// The artwork to subscribe to, if any subscriptions are to be made.
    pub fetch: Option<Vec<AssetTarget>>,
    /// What has to be written to the file.
    pub save: Option<Save>,
}

/// Whether an inventory changes the devices that are shown.
pub open spec fn changes_devices(m: StateModel, listed: Seq<DeviceRecordModel>) -> bool {
    ordered(merge_of(m.devices, listed).merged) != m.devices.records
}

/// The state once an inventory was shown.
pub open spec fn refreshed(m: StateModel, listed: Seq<DeviceRecordModel>) -> StateModel {
    let shown = ordered(merge_of(m.devices, listed).merged);
    let known = kept_if(merged_in(m, listed), any_news(m.config, shown));
    if changes_devices(m, listed) {
        relisted(known, shown)
    } else {
        known
    }
}

/// What has to be written once an inventory was shown.
pub open spec fn refresh_save(m: StateModel, listed: Seq<DeviceRecordModel>) -> Option<SaveModel> {
    if any_news(m.config, ordered(merge_of(m.devices, listed).merged)) {
        to_write(m, quiet())
    } else {
        None
    }
}

/// The artwork that the devices and cameras need.
pub open spec fn wanted_assets(m: StateModel, cams: Seq<CameraModel>) -> Seq<AssetTargetModel> {
    targets_of(m.devices.records) + camera_target_models(cams)
}

impl Runtime {
    /// Take over what is known of the agent, saying whether that changed
    /// anything.
    pub fn set_agent_link(&mut self, link: AgentLink) -> (r: bool)
        ensures
            final(self).deep_view() == (RuntimeModel {
                agent_link: link.deep_view(),
                ..old(self).deep_view()
            }),
            r == (link.deep_view() != old(self).deep_view().agent_link),
    {
        let changed = !self.agent_link.same(&link);
        self.agent_link = link;
        changed
    }

    /// The artwork that the devices and cameras need.
    fn assets(&self, state: &AppState) -> (r: Vec<AssetTarget>)
        ensures
            r.deep_view() == wanted_assets(state.deep_view(), self.deep_view().cameras.cams),
    {
        let mut targets = state.asset_models();
        let ghost first = targets.deep_view();
        let mut more = camera_targets(&self.cameras.cams);
        let ghost second = more.deep_view();
        targets.append(&mut more);
        proof {
            assert(targets.deep_view() =~= first + second);
        }
        targets
    }

    /// Show what the agent said. Only an inventory that is complete is merged:
    /// an agent that is still looking has found nothing yet, which is no miss.
    /// Whether pairing or the use of cameras changed is told.
    pub fn apply_snapshot(
        &mut self,
        state: &mut AppState,
        status: AgentStatus,
        listed: Vec<DeviceRecord>,
        inventory: &Vec<DeviceInventory>,
        others_changed: bool,
    ) -> (r: Aftermath)
        ensures
            ({
                let m = old(state).deep_view();
                let ready = status.inventory == InventoryHealth::Ready;
                let merged = ready && changes_devices(m, listed.deep_view());
                let link = LinkModel::Ready(status.deep_view());
                let after = if ready {
                    StateModel {
                        last_inventory: inventory.deep_view(),
                        ..refreshed(m, listed.deep_view())
                    }
                } else {
                    m
                };
                &&& final(state).deep_view() == after
                &&& final(self).deep_view() == (RuntimeModel {
                    agent_link: link,
                    listed: if ready {
                        listed.deep_view()
                    } else {
                        old(self).deep_view().listed
                    },
                    ..old(self).deep_view()
                })
                &&& r.repaint == (merged || link != old(self).deep_view().agent_link
                    || others_changed)
                &&& r.rebuild_menu == merged
                &&& r.fetch.deep_view() == (if after.config.app_settings.auto_download_assets
                    && old(self).auto_sync {
                    Some(wanted_assets(after, old(self).deep_view().cameras.cams))
                } else {
                    None
                })
                &&& r.save.deep_view() == (if ready {
                    refresh_save(m, listed.deep_view())
                } else {
                    None
                })
            }),
    {
        let ready = status.inventory == InventoryHealth::Ready;
        let mut merged = false;
        let mut save: Option<Save> = None;
        if ready {
            let (changed, to_save) = state.refresh_inventories(&listed);
            merged = changed;
            save = to_save;
            state.store_inventory_snapshot(inventory);
            self.listed = listed;
        }
        let linked = self.set_agent_link(AgentLink::Ready(status));
        let fetch = if state.config.app_settings.auto_download_assets && self.auto_sync {
            Some(self.assets(state))
        } else {
            None
        };
        Aftermath { repaint: merged || linked || others_changed, rebuild_menu: merged, fetch, save }
    }

    /// Show the devices of the last complete inventory anew, since their artwork
    /// may have changed.
    pub fn refresh_devices(&mut self, state: &mut AppState, listed: Vec<DeviceRecord>) -> (r:
        Aftermath)
        ensures
            final(state).deep_view() == refreshed(old(state).deep_view(), listed.deep_view()),
            final(self).deep_view() == (RuntimeModel {
                listed: listed.deep_view(),
                ..old(self).deep_view()
            }),
            r.repaint == changes_devices(old(state).deep_view(), listed.deep_view()),
            !r.rebuild_menu,
            r.fetch is None,
            r.save.deep_view() == refresh_save(old(state).deep_view(), listed.deep_view()),
    {
        let (changed, save) = state.refresh_inventories(&listed);
        self.listed = listed;
        Aftermath { repaint: changed, rebuild_menu: false, fetch: None, save }
    }

    /// Take note of what comes from the agent besides its state, saying whether
    /// what is shown has changed.
    pub fn on_agent_update(&mut self, state: &mut AppState, update: AgentUpdate) -> (r: bool)
        ensures
            match update {
                AgentUpdate::Unreachable => {
                    &&& *final(state) == *old(state)
                    &&& final(self).deep_view() == (RuntimeModel {
                        agent_link: LinkModel::Unreachable,
                        ..old(self).deep_view()
                    })
                    &&& r == (old(self).deep_view().agent_link != LinkModel::Unreachable)
                },
                AgentUpdate::OutdatedGui => {
                    &&& *final(state) == *old(state)
                    &&& final(self).deep_view() == (RuntimeModel {
                        agent_link: LinkModel::OutdatedGui,
                        ..old(self).deep_view()
                    })
                    &&& r == (old(self).deep_view().agent_link != LinkModel::OutdatedGui)
                },
                AgentUpdate::ConfigReloadResult(result) => {
                    let issue = issue_after_reload(
                        old(state).deep_view().config_issue,
                        reload_result(result),
                    );
                    &&& *final(self) == *old(self)
                    &&& final(state).deep_view() == (StateModel {
                        config_issue: issue,
                        ..old(state).deep_view()
                    })
                    &&& r == (issue != old(state).deep_view().config_issue)
                },
                AgentUpdate::LightCommandResult { changed } => {
                    &&& *final(self) == *old(self)
                    &&& *final(state) == *old(state)
                    &&& r == changed
                },
                AgentUpdate::PairingUndeliverable => {
                    &&& *final(self) == *old(self)
                    &&& *final(state) == *old(state)
                    &&& r
                },
            },
    {
        match update {
            AgentUpdate::Unreachable => self.set_agent_link(AgentLink::Unreachable),
            AgentUpdate::OutdatedGui => self.set_agent_link(AgentLink::OutdatedGui),
            AgentUpdate::ConfigReloadResult(result) => state.apply_config_reload_result(result),
            AgentUpdate::LightCommandResult { changed } => changed,
            AgentUpdate::PairingUndeliverable => true,
        }
    }

    /// Artwork was fetched, or was not: show the devices anew if it was.
    pub fn on_sync_finished(
        &mut self,
        state: &mut AppState,
        fetched: bool,
        listed: Vec<DeviceRecord>,
    ) -> (r: Option<Aftermath>)
        ensures
            r is Some <==> fetched,
            !fetched ==> *final(state) == *old(state) && *final(self) == *old(self),
            r matches Some(after) ==> {
                &&& final(state).deep_view() == refreshed(
                    old(state).deep_view(),
                    listed.deep_view(),
                )
                &&& final(self).deep_view() == (RuntimeModel {
                    listed: listed.deep_view(),
                    ..old(self).deep_view()
                })
                &&& after.repaint == changes_devices(old(state).deep_view(), listed.deep_view())
                &&& !after.rebuild_menu
                &&& after.fetch is None
                &&& after.save.deep_view() == refresh_save(
                    old(state).deep_view(),
                    listed.deep_view(),
                )
            },
    {
        if fetched {
            Some(self.refresh_devices(state, listed))
        } else {
            None
        }
    }

    /// The artwork to subscribe to when that is asked for by hand, whatever the
    /// settings say.
    pub fn on_asset_command(&self, state: &AppState) -> (r: Vec<AssetTarget>)
        ensures
            r.deep_view() == wanted_assets(state.deep_view(), self.deep_view().cameras.cams),
    {
        self.assets(state)
    }
}

/// How long artwork counts as fresh and how long it is kept, in seconds.
#[derive(Clone, Copy, Debug, PartialEq, Eq, Structural)]
pub struct CachePolicy {
    pub stale_secs: u64,
    pub keep_secs: u64,
    /// How often it is looked at anew, if it is.
    pub refresh_secs: Option<u64>,
}

/// The policy for artwork: it does not change while the application runs, and
/// outlives a device that is unplugged for a while.
pub fn default_options() -> (r: CachePolicy)
    ensures
        r.stale_secs == 30 * 60,
        r.keep_secs == 60 * 60,
        r.refresh_secs is None,
{
    CachePolicy { stale_secs: 1800, keep_secs: 3600, refresh_secs: None }
}

/// What a change of a fetch reports: nothing while it is under way, and
/// otherwise whether it succeeded.
pub fn settled_outcome(is_validating: bool, failed: bool) -> (r: Option<bool>)
    ensures
        r == (if is_validating {
            None
        } else {
            Some(!failed)
        }),
{
    if is_validating {
        None
    } else {
        Some(!failed)
    }
}

/// A scan that finds cameras is what is shown; one that finds none is overlooked twice
/// in a row while there are some.
pub proof fn a_scan_is_shown_unless_it_may_be_a_blink(
    m: WatchModel,
    scanned: Seq<CameraModel>,
)
    ensures
        ({
            let after = scanned_into(m, scanned);
            &&& scanned.len() > 0 ==> after.cams == scanned && after.misses == 0
            &&& scanned.len() == 0 && m.cams.len() > 0 && m.misses < 2 ==> after.cams == m.cams
                && after.misses == m.misses + 1
            &&& scanned.len() == 0 && (m.cams.len() == 0 || m.misses >= 2) ==> after.cams.len() == 0
                && after.misses == 0
        }),
{
}

/// What is watched is the index and every model, each under its own key, in order.
pub proof fn every_model_is_watched(source: AssetSourcePreference, targets: Seq<AssetTargetModel>)
    ensures
        ({
            let watches = watch_models(source, targets);
            &&& watches.len() == targets.len() + 1
            &&& watches[0].1 is Index
            &&& forall|i: int|
                0 <= i < targets.len() ==> (#[trigger] watches[i + 1]).1 == AssetWatchModel::Model(
                    targets[i],
                )
            &&& forall|i: int|
                0 <= i < watches.len() ==> (#[trigger] watches[i]).0 == key_of_watch(
                    source,
                    watches[i].1,
                )
        }),
{
}

/// Watches of one source are told apart by their keys: models that go by different
/// keys have different ones, and none has that of the index.
pub proof fn watches_are_told_apart(
    source: AssetSourcePreference,
    a: AssetTargetModel,
    b: AssetTargetModel,
)
    ensures
        target_key(a) != target_key(b) ==> key_of_watch(source, AssetWatchModel::Model(a))
            != key_of_watch(source, AssetWatchModel::Model(b)),
        target_key(a) == target_key(b) ==> key_of_watch(source, AssetWatchModel::Model(a))
            == key_of_watch(source, AssetWatchModel::Model(b)),
        key_of_watch(source, AssetWatchModel::Model(a)) != key_of_watch(
            source,
            AssetWatchModel::Index,
        ),
{
    reveal_strlit("/index");
    reveal_strlit("/model/");
    let segment = segment_of(source);
    let x = key_of_watch(source, AssetWatchModel::Model(a));
    let y = key_of_watch(source, AssetWatchModel::Model(b));
    let index = key_of_watch(source, AssetWatchModel::Index);
    let n = segment.len() as int;
    assert(x.skip(n + 7) =~= target_key(a));
    assert(y.skip(n + 7) =~= target_key(b));
    assert(x[n + 1] == 'm');
    assert(index[n + 1] == 'i');
}

/// Every camera needs the artwork of its model, under its own name, and models of
/// cameras are told apart by vendor and product alone.
pub proof fn a_camera_goes_by_its_model(cams: Seq<CameraModel>, i: int)
    requires
        0 <= i < cams.len(),
    ensures
        camera_target_models(cams).len() == cams.len(),
        camera_target_models(cams)[i] matches AssetTargetModel::Hidpp(model, name) && name == Some(
            cams[i].name,
        ) && model.model_ids == seq![cams[i].product_id] && model.serial_number is None
            && model.unit_id == 0,
        target_key(camera_target_models(cams)[i]) == "camera:"@ + hex4(cams[i].vendor_id) + ":"@
            + hex4(cams[i].product_id),
{
}

/// The artwork that is wanted is that of the devices and that of the cameras.
pub proof fn artwork_is_wanted_for_devices_and_cameras(m: StateModel, cams: Seq<CameraModel>)
    ensures
        wanted_assets(m, cams).len() == targets_of(m.devices.records).len() + cams.len(),
        forall|i: int|
            0 <= i < targets_of(m.devices.records).len() ==> #[trigger] wanted_assets(m, cams)[i]
                == targets_of(m.devices.records)[i],
        forall|i: int|
            0 <= i < cams.len() ==> #[trigger] wanted_assets(m, cams)[targets_of(
                m.devices.records,
            ).len() + i] == camera_target_models(cams)[i],
{
}

/// A refresh shows what the merge came to, in its order. Where that is what is shown
/// already, the list and the selection stay.
pub proof fn a_refresh_shows_the_merge(m: StateModel, listed: Seq<DeviceRecordModel>)
    requires
        ordered(merge_of(m.devices, listed).merged).len() <= usize::MAX,
    ensures
        refreshed(m, listed).devices.records == ordered(merge_of(m.devices, listed).merged),
        !changes_devices(m, listed) ==> refreshed(m, listed).devices.selected
            == m.devices.selected,
        changes_devices(m, listed) <==> ordered(merge_of(m.devices, listed).merged)
            != m.devices.records,
{
    let shown = ordered(merge_of(m.devices, listed).merged);
    let known = kept_if(merged_in(m, listed), any_news(m.config, shown));
    crate::catalog::the_selection_stays_valid(known, shown);
}

/// A refresh is to be written exactly where it is news and edits go to a file, and is no
/// concern of the agent's.
pub proof fn a_refresh_is_written_where_it_is_news(m: StateModel, listed: Seq<DeviceRecordModel>)
    ensures
        refresh_save(m, listed) is Some <==> any_news(
            m.config,
            ordered(merge_of(m.devices, listed).merged),
        ) && m.config_persistence == crate::state::ConfigPersistence::UserFile,
        refresh_save(m, listed) matches Some(save) ==> !save.reload && save.then_do is Done,
{
}

} // verus!
