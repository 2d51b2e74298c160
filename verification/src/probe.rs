//! Making an inventory of what a probe of a node read.
//!
//! Whoever talks to the hardware reads the registers and feature tables; the
//! rules by which the readings become devices are here.

use vstd::prelude::*;
use vstd::utf8::{
    decode_utf8, encode_utf8, encode_utf8_decode_utf8, encode_utf8_valid_utf8, valid_utf8,
};

use crate::controls::{hex_char, hex_digit};
use crate::data::Data;
use crate::device::{
    BatteryInfo, Capabilities, DeviceInventory, DeviceInventoryModel, DeviceKind, DeviceModelInfo,
    DeviceModelInfoModel, PairedDevice, PairedDeviceModel, ReceiverInfo, ReceiverInfoModel,
};
use crate::text::{chars_of, from_utf8, is_white, is_whitespace};

verus! {

/// The index that addresses a device that is its own node.
pub const DIRECT_DEVICE_INDEX: u8 = 0xff;

/// Names a device in the cache of probes.
#[derive(Clone, Debug, PartialEq, Eq)]
pub enum CacheKey {
    /// By the unit id in a Bolt pairing register.
    Bolt { unit_id: u32 },
    /// By receiver and slot.
    UnifyingSlot { receiver_uid: String, slot: u8 },
    /// By node.
    Direct { node: String },
}

/// What a [`CacheKey`] holds.
pub ghost enum CacheKeyModel {
    Bolt(u32),
    UnifyingSlot(Seq<char>, u8),
    Direct(Seq<char>),
}

impl DeepView for CacheKey {
    type V = CacheKeyModel;

    open spec fn deep_view(&self) -> CacheKeyModel {
        match self {
            CacheKey::Bolt { unit_id } => CacheKeyModel::Bolt(*unit_id),
            CacheKey::UnifyingSlot { receiver_uid, slot } => CacheKeyModel::UnifyingSlot(
                receiver_uid@,
                *slot,
            ),
            CacheKey::Direct { node } => CacheKeyModel::Direct(node@),
        }
    }
}

impl Data for CacheKey {
    fn duplicate(&self) -> (r: Self) {
        match self {
            CacheKey::Bolt { unit_id } => CacheKey::Bolt { unit_id: *unit_id },
            CacheKey::UnifyingSlot { receiver_uid, slot } => CacheKey::UnifyingSlot {
                receiver_uid: receiver_uid.clone(),
                slot: *slot,
            },
            CacheKey::Direct { node } => CacheKey::Direct { node: node.clone() },
        }
    }

    fn same(&self, other: &Self) -> (r: bool) {
        match (self, other) {
            (CacheKey::Bolt { unit_id: a }, CacheKey::Bolt { unit_id: b }) => *a == *b,
            (
                CacheKey::UnifyingSlot { receiver_uid: a, slot: s },
                CacheKey::UnifyingSlot { receiver_uid: b, slot: t },
            ) => *a == *b && *s == *t,
            (CacheKey::Direct { node: a }, CacheKey::Direct { node: b }) => *a == *b,
            _ => false,
        }
    }
}

/// What a probe contributes to the cache.
#[derive(Clone, Debug, PartialEq, Eq)]
pub enum CacheOutcome {
    /// The feature table was read.
    Fresh(CacheKey),
    /// A reading of a cached device was refreshed.
    Update(CacheKey),
    /// The device was there; its entry stands.
    Seen(CacheKey),
    /// Nothing to keep.
    Unkeyed,
}

/// What a [`CacheOutcome`] holds.
pub ghost enum CacheOutcomeModel {
    Fresh(CacheKeyModel),
    Update(CacheKeyModel),
    Seen(CacheKeyModel),
    Unkeyed,
}

impl DeepView for CacheOutcome {
    type V = CacheOutcomeModel;

    open spec fn deep_view(&self) -> CacheOutcomeModel {
        match self {
            CacheOutcome::Fresh(key) => CacheOutcomeModel::Fresh(key.deep_view()),
            CacheOutcome::Update(key) => CacheOutcomeModel::Update(key.deep_view()),
            CacheOutcome::Seen(key) => CacheOutcomeModel::Seen(key.deep_view()),
            CacheOutcome::Unkeyed => CacheOutcomeModel::Unkeyed,
        }
    }
}

/// The outcome of a device that was there without a new reading.
pub open spec fn seen_model(id: Option<CacheKeyModel>) -> CacheOutcomeModel {
    match id {
        Some(key) => CacheOutcomeModel::Seen(key),
        None => CacheOutcomeModel::Unkeyed,
    }
}

/// The outcome of a device that was there without a new reading.
pub fn seen(id: Option<CacheKey>) -> (r: CacheOutcome)
    ensures
        r.deep_view() == seen_model(id.deep_view()),
{
    match id {
        Some(key) => CacheOutcome::Seen(key),
        None => CacheOutcome::Unkeyed,
    }
}

/// What a walk of a feature table read.
#[derive(Clone, Debug, PartialEq, Eq)]
pub struct ProbedFeatures {
    pub kind: Option<DeviceKind>,
    pub battery: Option<BatteryInfo>,
    pub model_info: Option<DeviceModelInfo>,
    pub capabilities: Option<Capabilities>,
    pub marketing_name: Option<String>,
}

/// What a [`ProbedFeatures`] holds.
pub ghost struct ProbedFeaturesModel {
    pub kind: Option<DeviceKind>,
    pub battery: Option<BatteryInfo>,
    pub model_info: Option<DeviceModelInfoModel>,
    pub capabilities: Option<Capabilities>,
    pub marketing_name: Option<Seq<char>>,
}

impl DeepView for ProbedFeatures {
    type V = ProbedFeaturesModel;

    open spec fn deep_view(&self) -> ProbedFeaturesModel {
        ProbedFeaturesModel {
            kind: self.kind.deep_view(),
            battery: self.battery.deep_view(),
            model_info: self.model_info.deep_view(),
            capabilities: self.capabilities.deep_view(),
            marketing_name: self.marketing_name.deep_view(),
        }
    }
}

impl Data for ProbedFeatures {
    fn duplicate(&self) -> (r: Self) {
        ProbedFeatures {
            kind: self.kind.duplicate(),
            battery: self.battery.duplicate(),
            model_info: self.model_info.duplicate(),
            capabilities: self.capabilities.duplicate(),
            marketing_name: self.marketing_name.duplicate(),
        }
    }

    fn same(&self, other: &Self) -> (r: bool) {
        self.kind.same(&other.kind)
            && self.battery.same(&other.battery)
            && self.model_info.same(&other.model_info)
            && self.capabilities.same(&other.capabilities)
            && self.marketing_name.same(&other.marketing_name)
    }
}

/// Features of which nothing was read.
pub open spec fn no_features() -> ProbedFeaturesModel {
    ProbedFeaturesModel {
        kind: None,
        battery: None,
        model_info: None,
        capabilities: None,
        marketing_name: None,
    }
}

impl Default for ProbedFeatures {
    fn default() -> (r: Self)
        ensures
            r.deep_view() == no_features(),
    {
        ProbedFeatures {
            kind: None,
            battery: None,
            model_info: None,
            capabilities: None,
            marketing_name: None,
        }
    }
}

/// What one probe of a node comes to.
#[derive(Debug)]
pub struct NodeProbe {
    /// What is on the node.
    pub inventory: Option<DeviceInventory>,
    /// Whether the node answered; the last inventory is replayed if not.
    pub healthy: bool,
    /// Whether nothing more is to be expected from another probe.
    pub complete: bool,
    /// What each device contributes to the cache.
    pub outcomes: Vec<CacheOutcome>,
}

/// What a [`NodeProbe`] holds.
pub ghost struct NodeProbeModel {
    pub inventory: Option<DeviceInventoryModel>,
    pub healthy: bool,
    pub complete: bool,
    pub outcomes: Seq<CacheOutcomeModel>,
}

impl DeepView for NodeProbe {
    type V = NodeProbeModel;

    open spec fn deep_view(&self) -> NodeProbeModel {
        NodeProbeModel {
            inventory: self.inventory.deep_view(),
            healthy: self.healthy,
            complete: self.complete,
            outcomes: self.outcomes.deep_view(),
        }
    }
}

/// A probe that got no answer.
pub open spec fn failed_probe() -> NodeProbeModel {
    NodeProbeModel { inventory: None, healthy: false, complete: false, outcomes: Seq::empty() }
}

impl NodeProbe {
    /// A probe that got no answer.
    pub fn failed() -> (r: NodeProbe)
        ensures
            r.deep_view() == failed_probe(),
    {
        let r = NodeProbe {
            inventory: None,
            healthy: false,
            complete: false,
            outcomes: Vec::new(),
        };
        proof {
            assert(r.outcomes.deep_view() =~= Seq::empty());
        }
        r
    }
}

/// The devices of a list of results.
pub open spec fn devices_of(results: Seq<(PairedDevice, CacheOutcome)>) -> Seq<PairedDeviceModel> {
    Seq::new(results.len(), |i: int| results[i].0.deep_view())
}

/// The contributions of a list of results.
pub open spec fn outcomes_of(results: Seq<(PairedDevice, CacheOutcome)>) -> Seq<CacheOutcomeModel> {
    Seq::new(results.len(), |i: int| results[i].1.deep_view())
}

/// Part the devices from their contributions.
fn unzip(results: Vec<(PairedDevice, CacheOutcome)>) -> (r: (Vec<PairedDevice>, Vec<CacheOutcome>))
    ensures
        r.0.deep_view() == devices_of(results@),
        r.1.deep_view() == outcomes_of(results@),
        r.0@.len() == results@.len(),
{
    let ghost all = results@;
    let mut results = results;
    let mut devices: Vec<PairedDevice> = Vec::new();
    let mut outcomes: Vec<CacheOutcome> = Vec::new();
    while results.len() > 0
        invariant
            results@.len() + devices@.len() == all.len(),
            devices@.len() == outcomes@.len(),
            results@ == all.skip(devices@.len() as int),
            forall|k: int| 0 <= k < devices@.len() ==> (#[trigger] devices@[k]) == all[k].0,
            forall|k: int| 0 <= k < devices@.len() ==> (#[trigger] outcomes@[k]) == all[k].1,
        decreases results@.len(),
    {
        let (device, outcome) = results.remove(0);
        devices.push(device);
        outcomes.push(outcome);
    }
    proof {
        assert(devices.deep_view() =~= devices_of(all));
        assert(outcomes.deep_view() =~= outcomes_of(all));
    }
    (devices, outcomes)
}

/// Whether a pairing count was read and is met.
pub open spec fn count_met(pairing_count: Option<u8>, found: nat) -> bool {
    pairing_count matches Some(count) && found == count
}

/// What a probe of a Bolt receiver comes to.
pub open spec fn bolt_probe(
    receiver: ReceiverInfoModel,
    pairing_count: Option<u8>,
    paired: Seq<PairedDeviceModel>,
    outcomes: Seq<CacheOutcomeModel>,
) -> NodeProbeModel {
    NodeProbeModel {
        inventory: Some(DeviceInventoryModel { receiver, paired }),
        healthy: count_met(pairing_count, paired.len()),
        complete: count_met(pairing_count, paired.len()),
        outcomes,
    }
}

/// Fold the occupied slots of a Bolt receiver, in slot order, into a probe.
///
/// Only a count that was read and is met by the slots that were says that the
/// receiver was checked in full. A shortfall is no answer: the last inventory
/// is replayed rather than the partial one shown.
pub fn assemble_bolt_probe(
    receiver: ReceiverInfo,
    pairing_count: Option<u8>,
    slot_results: Vec<(PairedDevice, CacheOutcome)>,
) -> (r: NodeProbe)
    ensures
        r.deep_view() == bolt_probe(
            receiver.deep_view(),
            pairing_count,
            devices_of(slot_results@),
            outcomes_of(slot_results@),
        ),
{
    let (paired, outcomes) = unzip(slot_results);
    let complete = match pairing_count {
        Some(count) => paired.len() == count as usize,
        None => false,
    };
    NodeProbe {
        inventory: Some(DeviceInventory { receiver, paired }),
        healthy: complete,
        complete,
        outcomes,
    }
}

/// Fold the online slots of a Unifying receiver, in slot order, into a probe.
///
/// Devices that are offline cannot be listed here, so a shortfall is to be
/// expected: that the count was read at all is what says that the receiver
/// answered. Where the arrivals could not even be asked for, the probe failed.
pub fn assemble_unifying_probe(
    receiver: ReceiverInfo,
    pairing_count: Option<u8>,
    slot_results: Option<Vec<(PairedDevice, CacheOutcome)>>,
) -> (r: NodeProbe)
    ensures
        r.deep_view() == match slot_results {
            None => failed_probe(),
            Some(results) => NodeProbeModel {
                inventory: Some(
                    DeviceInventoryModel {
                        receiver: receiver.deep_view(),
                        paired: devices_of(results@),
                    },
                ),
                healthy: pairing_count is Some,
                complete: count_met(pairing_count, results@.len()),
                outcomes: outcomes_of(results@),
            },
        },
{
    match slot_results {
        None => NodeProbe::failed(),
        Some(slot_results) => {
            let (paired, outcomes) = unzip(slot_results);
            let complete = match pairing_count {
                Some(count) => paired.len() == count as usize,
                None => false,
            };
            NodeProbe {
                inventory: Some(DeviceInventory { receiver, paired }),
                healthy: pairing_count.is_some(),
                complete,
                outcomes,
            }
        },
    }
}

/// An arrival that a receiver reports for a slot.
#[derive(Clone, Copy, Debug, PartialEq, Eq, Structural)]
pub struct DeviceConnection {
    /// The slot.
    pub index: u8,
    pub kind: DeviceKind,
    pub wpid: u16,
    pub online: bool,
}

impl DeepView for DeviceConnection {
    type V = DeviceConnection;

    open spec fn deep_view(&self) -> DeviceConnection {
        *self
    }
}

impl Data for DeviceConnection {
    fn duplicate(&self) -> (r: Self) {
        *self
    }

    fn same(&self, other: &Self) -> (r: bool) {
        *self == *other
    }
}

/// What the pairing register of a Bolt slot says.
#[derive(Clone, Copy, Debug, PartialEq, Eq, Structural)]
pub struct PairingInformation {
    pub unit_id: u32,
    pub kind: DeviceKind,
    pub online: bool,
}

impl DeepView for PairingInformation {
    type V = PairingInformation;

    open spec fn deep_view(&self) -> PairingInformation {
        *self
    }
}

impl Data for PairingInformation {
    fn duplicate(&self) -> (r: Self) {
        *self
    }

    fn same(&self, other: &Self) -> (r: bool) {
        *self == *other
    }
}

/// The last arrival reported for a slot.
pub open spec fn last_for(connections: Seq<DeviceConnection>, slot: u8) -> Option<DeviceConnection>
    decreases connections.len(),
{
    if connections.len() == 0 {
        None
    } else if connections.last().index == slot {
        Some(connections.last())
    } else {
        last_for(connections.drop_last(), slot)
    }
}

/// The last arrival reported for a slot.
pub fn last_connection(connections: &Vec<DeviceConnection>, slot: u8) -> (r: Option<
    DeviceConnection,
>)
    ensures
        r == last_for(connections@, slot),
{
    let mut r: Option<DeviceConnection> = None;
    let mut i: usize = 0;
    while i < connections.len()
        invariant
            i <= connections@.len(),
            r == last_for(connections@.take(i as int), slot),
        decreases connections@.len() - i,
    {
        proof {
            assert(connections@.take(i as int + 1).drop_last() =~= connections@.take(i as int));
        }
        if connections[i].index == slot {
            r = Some(connections[i]);
        }
        i = i + 1;
    }
    proof {
        assert(connections@.take(connections@.len() as int) =~= connections@);
    }
    r
}

proof fn lemma_last_for(connections: Seq<DeviceConnection>, slot: u8)
    ensures
        last_for(connections, slot) matches Some(c) ==> c.index == slot && connections.contains(c),
        last_for(connections, slot) is None ==> forall|i: int|
            0 <= i < connections.len() ==> (#[trigger] connections[i]).index != slot,
    decreases connections.len(),
{
    if connections.len() > 0 {
        lemma_last_for(connections.drop_last(), slot);
        if connections.last().index == slot {
            assert(connections[connections.len() - 1] == connections.last());
        } else {
            if let Some(c) = last_for(connections.drop_last(), slot) {
                let i = choose|i: int|
                    0 <= i < connections.drop_last().len() && connections.drop_last()[i] == c;
                assert(connections[i] == c);
            } else {
                assert forall|i: int| 0 <= i < connections.len() implies (
                #[trigger] connections[i]).index != slot by {
                    if i < connections.len() - 1 {
                        assert(connections.drop_last()[i] == connections[i]);
                    }
                }
            }
        }
    }
}

/// One arrival for each slot that has any, by slot; a later report replaces an
/// earlier one.
pub fn connections_by_slot(connections: &Vec<DeviceConnection>) -> (r: Vec<DeviceConnection>)
    ensures
        forall|i: int, j: int|
            0 <= i < j < r@.len() ==> (#[trigger] r@[i]).index < (#[trigger] r@[j]).index,
        forall|i: int|
            0 <= i < r@.len() ==> last_for(connections@, (#[trigger] r@[i]).index) == Some(r@[i]),
        forall|slot: u8|
            (#[trigger] last_for(connections@, slot)) is Some ==> r@.contains(
                last_for(connections@, slot)->0,
            ),
{
    let mut r: Vec<DeviceConnection> = Vec::new();
    let mut slot: u16 = 0;
    while slot < 256
        invariant
            slot <= 256,
            forall|i: int, j: int|
                0 <= i < j < r@.len() ==> (#[trigger] r@[i]).index < (#[trigger] r@[j]).index,
            forall|i: int|
                0 <= i < r@.len() ==> (#[trigger] r@[i]).index < slot && last_for(
                    connections@,
                    r@[i].index,
                ) == Some(r@[i]),
            forall|s: u8|
                s < slot && (#[trigger] last_for(connections@, s)) is Some ==> r@.contains(
                    last_for(connections@, s)->0,
                ),
        decreases 256 - slot,
    {
        let ghost before = r@;
        let found = last_connection(connections, slot as u8);
        proof {
            lemma_last_for(connections@, slot as u8);
        }
        if let Some(connection) = found {
            r.push(connection);
            proof {
                assert(r@[before.len() as int] == connection);
            }
        }
        proof {
            assert forall|s: u8|
                s < slot + 1 && (#[trigger] last_for(connections@, s)) is Some implies r@.contains(
                last_for(connections@, s)->0,
            ) by {
                if s < slot {
                    let c = last_for(connections@, s)->0;
                    let i = choose|i: int| 0 <= i < before.len() && before[i] == c;
                    assert(r@[i] == c);
                } else {
                    assert(s == slot as u8);
                }
            }
        }
        slot = slot + 1;
    }
    r
}

/// What the kind of a device is: what its own feature table says, unless that
/// tells nothing, and then what the receiver says.
pub open spec fn resolved_kind(probed: Option<DeviceKind>, register: DeviceKind) -> DeviceKind {
    match probed {
        Some(kind) => if kind == DeviceKind::Unknown {
            register
        } else {
            kind
        },
        None => register,
    }
}

/// What the kind of a device is.
pub fn resolve_device_kind(probed: Option<DeviceKind>, register: DeviceKind) -> (r: DeviceKind)
    ensures
        r == resolved_kind(probed, register),
{
    match probed {
        Some(kind) => if kind == DeviceKind::Unknown {
            register
        } else {
            kind
        },
        None => register,
    }
}

/// Who is in an occupied Bolt slot.
#[derive(Clone, Debug, PartialEq, Eq)]
pub struct BoltSlotIdentity {
    pub slot: u8,
    pub codename: Option<String>,
    /// `None` for a unit id of zero, which tells nothing apart.
    pub id: Option<CacheKey>,
    pub online: bool,
    pub register_kind: DeviceKind,
    pub wpid: Option<u16>,
}

/// What a [`BoltSlotIdentity`] holds.
pub ghost struct BoltSlotIdentityModel {
    pub slot: u8,
    pub codename: Option<Seq<char>>,
    pub id: Option<CacheKeyModel>,
    pub online: bool,
    pub register_kind: DeviceKind,
    pub wpid: Option<u16>,
}

impl DeepView for BoltSlotIdentity {
    type V = BoltSlotIdentityModel;

    open spec fn deep_view(&self) -> BoltSlotIdentityModel {
        BoltSlotIdentityModel {
            slot: self.slot.deep_view(),
            codename: self.codename.deep_view(),
            id: self.id.deep_view(),
            online: self.online.deep_view(),
            register_kind: self.register_kind.deep_view(),
            wpid: self.wpid.deep_view(),
        }
    }
}

impl Data for BoltSlotIdentity {
    fn duplicate(&self) -> (r: Self) {
        BoltSlotIdentity {
            slot: self.slot.duplicate(),
            codename: self.codename.duplicate(),
            id: self.id.duplicate(),
            online: self.online.duplicate(),
            register_kind: self.register_kind.duplicate(),
            wpid: self.wpid.duplicate(),
        }
    }

    fn same(&self, other: &Self) -> (r: bool) {
        self.slot.same(&other.slot)
            && self.codename.same(&other.codename)
            && self.id.same(&other.id)
            && self.online.same(&other.online)
            && self.register_kind.same(&other.register_kind)
            && self.wpid.same(&other.wpid)
    }
}

/// Who is in a Bolt slot. What an arrival says is live and goes before what the
/// pairing register says.
pub open spec fn identity_of(
    slot: u8,
    pairing: PairingInformation,
    event: Option<DeviceConnection>,
    codename: Option<Seq<char>>,
) -> BoltSlotIdentityModel {
    BoltSlotIdentityModel {
        slot,
        codename,
        id: if pairing.unit_id != 0 {
            Some(CacheKeyModel::Bolt(pairing.unit_id))
        } else {
            None
        },
        online: match event {
            Some(c) => c.online,
            None => pairing.online,
        },
        register_kind: match event {
            Some(c) => c.kind,
            None => pairing.kind,
        },
        wpid: match event {
            Some(c) => Some(c.wpid),
            None => None,
        },
    }
}

/// Who is in a Bolt slot, or `None` when its pairing register was not read.
pub fn read_bolt_slot_identity(
    slot: u8,
    pairing: Option<PairingInformation>,
    event: Option<DeviceConnection>,
    codename: Option<String>,
) -> (r: Option<BoltSlotIdentity>)
    ensures
        r.deep_view() == match pairing {
            Some(pairing) => Some(identity_of(slot, pairing, event, codename.deep_view())),
            None => None,
        },
{
    let pairing = match pairing {
        Some(pairing) => pairing,
        None => {
            return None;
        },
    };
    let id = if pairing.unit_id != 0 {
        Some(CacheKey::Bolt { unit_id: pairing.unit_id })
    } else {
        None
    };
    let (online, register_kind, wpid): (bool, DeviceKind, Option<u16>) = match event {
        Some(c) => (c.online, c.kind, Some(c.wpid)),
        None => (pairing.online, pairing.kind, None),
    };
    Some(BoltSlotIdentity { slot, codename, id, online, register_kind, wpid })
}

/// A device as its identity and features make it.
pub open spec fn bolt_device(
    identity: BoltSlotIdentityModel,
    probe: ProbedFeaturesModel,
) -> PairedDeviceModel {
    PairedDeviceModel {
        slot: identity.slot,
        codename: identity.codename,
        wpid: identity.wpid,
        kind: resolved_kind(probe.kind, identity.register_kind),
        online: identity.online,
        battery: probe.battery,
        model_info: probe.model_info,
        capabilities: probe.capabilities,
    }
}

/// The features that stand in for a walk that ran out of time.
pub open spec fn cached_or_nothing(cached: Option<ProbedFeaturesModel>) -> ProbedFeaturesModel {
    match cached {
        Some(probe) => probe,
        None => no_features(),
    }
}

/// The device in an identified Bolt slot. A walk that ran out of time leaves
/// the cached features, and the device is listed all the same.
pub fn walk_bolt_slot(
    identity: &BoltSlotIdentity,
    walk: Option<(ProbedFeatures, CacheOutcome)>,
    cached: &Option<ProbedFeatures>,
) -> (r: (PairedDevice, CacheOutcome))
    ensures
        match walk {
            Some((probe, outcome)) => r.0.deep_view() == bolt_device(
                identity.deep_view(),
                probe.deep_view(),
            ) && r.1 == outcome,
            None => r.0.deep_view() == bolt_device(
                identity.deep_view(),
                cached_or_nothing(cached.deep_view()),
            ) && r.1.deep_view() == seen_model(identity.deep_view().id),
        },
        r.0.online == identity.online,
        r.0.slot == identity.slot,
{
    let (probe, outcome) = match walk {
        Some(read) => read,
        None => {
            let probe = match cached {
                Some(probe) => probe.duplicate(),
                None => ProbedFeatures::default(),
            };
            (probe, seen(identity.id.duplicate()))
        },
    };
    let device = PairedDevice {
        slot: identity.slot,
        codename: identity.codename.duplicate(),
        wpid: identity.wpid,
        kind: resolve_device_kind(probe.kind, identity.register_kind),
        online: identity.online,
        battery: probe.battery,
        model_info: probe.model_info,
        capabilities: probe.capabilities,
    };
    (device, outcome)
}

/// Whether a reading by itself shows that a Unifying device is reachable. If
/// not, the device is asked with a ping.
pub open spec fn shows_reachable(outcome: CacheOutcomeModel) -> bool {
    outcome is Fresh || outcome is Update
}

/// Whether a device has to be asked whether it is reachable.
pub fn needs_ping(outcome: &CacheOutcome) -> (r: bool)
    ensures
        r == !shows_reachable(outcome.deep_view()),
{
    match outcome {
        CacheOutcome::Fresh(_) => false,
        CacheOutcome::Update(_) => false,
        CacheOutcome::Seen(_) => true,
        CacheOutcome::Unkeyed => true,
    }
}

/// What was read from a Unifying slot: the features, and whether a ping was
/// answered.
#[derive(Debug)]
pub struct UnifyingReading {
    pub probe: ProbedFeatures,
    pub outcome: CacheOutcome,
    /// Asked for only where the reading does not show it.
    pub answered_ping: bool,
}

/// A device on a Unifying receiver as its arrival and features make it.
pub open spec fn unifying_device(
    slot: u8,
    codename: Option<Seq<char>>,
    wpid: u16,
    register_kind: DeviceKind,
    probe: ProbedFeaturesModel,
    online: bool,
) -> PairedDeviceModel {
    PairedDeviceModel {
        slot,
        codename,
        wpid: Some(wpid),
        kind: resolved_kind(probe.kind, register_kind),
        online,
        battery: probe.battery,
        model_info: probe.model_info,
        capabilities: probe.capabilities,
    }
}

/// A device on a Unifying receiver.
pub fn assemble_unifying_device(
    slot: u8,
    codename: Option<String>,
    wpid: u16,
    register_kind: DeviceKind,
    probe: ProbedFeatures,
    online: bool,
) -> (r: PairedDevice)
    ensures
        r.deep_view() == unifying_device(
            slot,
            codename.deep_view(),
            wpid,
            register_kind,
            probe.deep_view(),
            online,
        ),
{
    PairedDevice {
        slot,
        codename,
        wpid: Some(wpid),
        kind: resolve_device_kind(probe.kind, register_kind),
        online,
        battery: probe.battery,
        model_info: probe.model_info,
        capabilities: probe.capabilities,
    }
}

/// The device in a Unifying slot that reported its arrival.
///
/// An arrival does not tell whether the device is reachable. A reading that is
/// new does, and otherwise an answered ping does; a walk that ran out of time
/// leaves the cached features of a device that is offline.
pub fn probe_unifying_slot(
    event: DeviceConnection,
    codename: Option<String>,
    receiver_uid: &str,
    reading: Option<UnifyingReading>,
    cached: &Option<ProbedFeatures>,
) -> (r: (PairedDevice, CacheOutcome))
    ensures
        match reading {
            Some(reading) => r.0.deep_view() == unifying_device(
                event.index,
                codename.deep_view(),
                event.wpid,
                event.kind,
                reading.probe.deep_view(),
                shows_reachable(reading.outcome.deep_view()) || reading.answered_ping,
            ) && r.1 == reading.outcome,
            None => r.0.deep_view() == unifying_device(
                event.index,
                codename.deep_view(),
                event.wpid,
                event.kind,
                cached_or_nothing(cached.deep_view()),
                false,
            ) && r.1.deep_view() == CacheOutcomeModel::Seen(
                CacheKeyModel::UnifyingSlot(receiver_uid@, event.index),
            ),
        },
        r.0.slot == event.index,
        r.0.online ==> reading is Some,
        reading matches Some(read) && read.answered_ping ==> r.0.online,
{
    let (probe, outcome, online) = match reading {
        Some(reading) => {
            let online = !needs_ping(&reading.outcome) || reading.answered_ping;
            (reading.probe, reading.outcome, online)
        },
        None => {
            let probe = match cached {
                Some(probe) => probe.duplicate(),
                None => ProbedFeatures::default(),
            };
            let key = CacheKey::UnifyingSlot {
                receiver_uid: receiver_uid.to_owned(),
                slot: event.index,
            };
            (probe, CacheOutcome::Seen(key), false)
        },
    };
    let device = assemble_unifying_device(
        event.index,
        codename,
        event.wpid,
        event.kind,
        probe,
        online,
    );
    (device, outcome)
}

/// Four lower-case hexadecimal digits.
pub open spec fn hex4(n: u16) -> Seq<char> {
    seq![
        hex_digit(n as int / 4096),
        hex_digit((n as int / 256) % 16),
        hex_digit((n as int / 16) % 16),
        hex_digit(n as int % 16),
    ]
}

/// Append four lower-case hexadecimal digits.
pub fn push_hex4(text: &mut String, n: u16)
    ensures
        final(text)@ == old(text)@ + hex4(n),
{
    let ghost before = text@;
    text.push(hex_char((n / 4096) as u8));
    text.push(hex_char(((n / 256) % 16) as u8));
    text.push(hex_char(((n / 16) % 16) as u8));
    text.push(hex_char((n % 16) as u8));
    proof {
        assert(text@ =~= before + hex4(n));
    }
}

/// Which receiver the cache entries of a Unifying slot belong to: its own id,
/// and `pid:` with the product where that could not be read.
pub open spec fn uid_of(unique_id: Option<Seq<char>>, product_id: u16) -> Seq<char> {
    match unique_id {
        Some(uid) => uid,
        None => "pid:"@ + hex4(product_id),
    }
}

/// Which receiver the cache entries of a Unifying slot belong to.
pub fn receiver_uid(unique_id: &Option<String>, product_id: u16) -> (r: String)
    ensures
        r@ == uid_of(unique_id.deep_view(), product_id),
{
    match unique_id {
        Some(uid) => uid.clone(),
        None => {
            let mut r = "pid:".to_owned();
            push_hex4(&mut r, product_id);
            r
        },
    }
}

/// Whether a text holds anything but white space.
pub open spec fn is_blank(text: Seq<char>) -> bool {
    forall|i: int| 0 <= i < text.len() ==> is_white(#[trigger] text[i])
}

/// Whether a text is empty once white space is trimmed off.
pub fn blank(text: &str) -> (r: bool)
    ensures
        r == is_blank(text@),
{
    let chars = chars_of(text);
    let mut i: usize = 0;
    while i < chars.len()
        invariant
            i <= chars@.len(),
            chars@ == text@,
            forall|k: int| 0 <= k < i ==> is_white(#[trigger] chars@[k]),
        decreases chars@.len() - i,
    {
        if !is_whitespace(chars[i]) {
            return false;
        }
        i = i + 1;
    }
    true
}

/// The name of a device that is its own node: its marketing name, unless it has
/// none or a blank one, and then what the host calls it.
pub open spec fn direct_codename(marketing_name: Option<Seq<char>>, os_name: Seq<char>) -> Seq<
    char,
> {
    match marketing_name {
        Some(name) => if is_blank(name) {
            os_name
        } else {
            name
        },
        None => os_name,
    }
}

/// The name of a device that is its own node.
pub fn preferred_direct_codename(marketing_name: Option<&str>, os_name: &str) -> (r: String)
    ensures
        r@ == direct_codename(marketing_name.deep_view(), os_name@),
{
    match marketing_name {
        Some(name) => if blank(name) {
            os_name.to_owned()
        } else {
            name.to_owned()
        },
        None => os_name.to_owned(),
    }
}

/// A node of the host.
#[derive(Clone, Debug, PartialEq, Eq)]
pub struct NodeInfo {
    pub id: String,
    /// What the host calls it.
    pub name: String,
    pub vendor_id: u16,
    pub product_id: u16,
}

/// What a [`NodeInfo`] holds.
pub ghost struct NodeInfoModel {
    pub id: Seq<char>,
    pub name: Seq<char>,
    pub vendor_id: u16,
    pub product_id: u16,
}

impl DeepView for NodeInfo {
    type V = NodeInfoModel;

    open spec fn deep_view(&self) -> NodeInfoModel {
        NodeInfoModel {
            id: self.id.deep_view(),
            name: self.name.deep_view(),
            vendor_id: self.vendor_id.deep_view(),
            product_id: self.product_id.deep_view(),
        }
    }
}

impl Data for NodeInfo {
    fn duplicate(&self) -> (r: Self) {
        NodeInfo {
            id: self.id.duplicate(),
            name: self.name.duplicate(),
            vendor_id: self.vendor_id.duplicate(),
            product_id: self.product_id.duplicate(),
        }
    }

    fn same(&self, other: &Self) -> (r: bool) {
        self.id.same(&other.id)
            && self.name.same(&other.name)
            && self.vendor_id.same(&other.vendor_id)
            && self.product_id.same(&other.product_id)
    }
}

/// A Bolt receiver on a node.
pub fn bolt_receiver(info: &NodeInfo, unique_id: Option<String>) -> (r: ReceiverInfo)
    ensures
        r.deep_view() == (ReceiverInfoModel {
            name: "Logi Bolt Receiver"@,
            vendor_id: info.vendor_id,
            product_id: info.product_id,
            unique_id: unique_id.deep_view(),
        }),
{
    ReceiverInfo {
        name: "Logi Bolt Receiver".to_owned(),
        vendor_id: info.vendor_id,
        product_id: info.product_id,
        unique_id,
    }
}

/// Whether features are those of a peripheral. A receiver's secondary interface
/// answers too, but has neither a battery nor anything to configure.
pub open spec fn is_peripheral(battery: Option<BatteryInfo>, capabilities: Capabilities) -> bool {
    battery is Some || capabilities.buttons || capabilities.pointer || capabilities.lighting
}

/// What a probe of a device that is its own node comes to.
pub open spec fn direct_probe(
    info: NodeInfoModel,
    probe: ProbedFeaturesModel,
    outcome: CacheOutcomeModel,
) -> NodeProbeModel {
    match probe.capabilities {
        None => NodeProbeModel {
            inventory: None,
            healthy: false,
            complete: false,
            outcomes: seq![CacheOutcomeModel::Seen(CacheKeyModel::Direct(info.id))],
        },
        Some(capabilities) => if is_peripheral(probe.battery, capabilities) {
            NodeProbeModel {
                inventory: Some(
                    DeviceInventoryModel {
                        receiver: ReceiverInfoModel {
                            name: info.name,
                            vendor_id: info.vendor_id,
                            product_id: info.product_id,
                            unique_id: None,
                        },
                        paired: seq![
                            PairedDeviceModel {
                                slot: DIRECT_DEVICE_INDEX,
                                codename: Some(direct_codename(probe.marketing_name, info.name)),
                                wpid: None,
                                kind: resolved_kind(probe.kind, DeviceKind::Unknown),
                                online: true,
                                battery: probe.battery,
                                model_info: probe.model_info,
                                capabilities: probe.capabilities,
                            },
                        ],
                    },
                ),
                healthy: true,
                complete: true,
                outcomes: seq![outcome],
            }
        } else {
            NodeProbeModel {
                inventory: None,
                healthy: true,
                complete: true,
                outcomes: seq![CacheOutcomeModel::Unkeyed],
            }
        },
    }
}

/// Settle the probe of a node that hosts no receiver.
///
/// A walk that did not complete says nothing of what the node is: the probe
/// failed, and its cache entry stands. A completed walk tells a peripheral from
/// a receiver's secondary interface, whose cache entry goes.
pub fn probe_direct(info: &NodeInfo, probe: ProbedFeatures, outcome: CacheOutcome) -> (r: NodeProbe)
    ensures
        r.deep_view() == direct_probe(info.deep_view(), probe.deep_view(), outcome.deep_view()),
{
    let capabilities = match probe.capabilities {
        Some(capabilities) => capabilities,
        None => {
            let mut outcomes: Vec<CacheOutcome> = Vec::new();
            outcomes.push(CacheOutcome::Seen(CacheKey::Direct { node: info.id.clone() }));
            proof {
                assert(outcomes.deep_view() =~= seq![
                    CacheOutcomeModel::Seen(CacheKeyModel::Direct(info.id@)),
                ]);
            }
            return NodeProbe { inventory: None, healthy: false, complete: false, outcomes };
        },
    };
    let peripheral = probe.battery.is_some() || capabilities.buttons || capabilities.pointer
        || capabilities.lighting;
    let mut outcomes: Vec<CacheOutcome> = Vec::new();
    if !peripheral {
        outcomes.push(CacheOutcome::Unkeyed);
        proof {
            assert(outcomes.deep_view() =~= seq![CacheOutcomeModel::Unkeyed]);
        }
        return NodeProbe { inventory: None, healthy: true, complete: true, outcomes };
    }
    let marketing_name: Option<&str> = match &probe.marketing_name {
        Some(name) => Some(name.as_str()),
        None => None,
    };
    let codename = preferred_direct_codename(marketing_name, info.name.as_str());
    let device = PairedDevice {
        slot: DIRECT_DEVICE_INDEX,
        codename: Some(codename),
        wpid: None,
        kind: resolve_device_kind(probe.kind, DeviceKind::Unknown),
        online: true,
        battery: probe.battery,
        model_info: probe.model_info,
        capabilities: probe.capabilities,
    };
    let ghost shown = device.deep_view();
    let mut paired: Vec<PairedDevice> = Vec::new();
    paired.push(device);
    outcomes.push(outcome);
    proof {
        assert(paired.deep_view() =~= seq![shown]);
        assert(outcomes.deep_view() =~= seq![outcome.deep_view()]);
    }
    let inventory = DeviceInventory {
        receiver: ReceiverInfo {
            name: info.name.clone(),
            vendor_id: info.vendor_id,
            product_id: info.product_id,
            unique_id: None,
        },
        paired,
    };
    NodeProbe { inventory: Some(inventory), healthy: true, complete: true, outcomes }
}

/// The request for the name in a Bolt slot.
pub fn codename_request(slot: u8) -> (r: [u8; 3])
    requires
        slot <= 0xff - 0x60,
    ensures
        r@ == seq![(0x60 + slot) as u8, 0x01u8, 0x00u8],
{
    [0x60 + slot, 0x01, 0x00]
}

/// The request for the name in a Unifying slot; devices are numbered from one.
pub fn codename_request_unifying(slot: u8) -> (r: [u8; 3])
    requires
        slot <= 0xff - 0x40,
    ensures
        r@ == seq![(0x40 + slot - 1) as u8, 0x00u8, 0x00u8],
{
    [0x40 + slot - 1, 0x00, 0x00]
}

/// `bytes[from..to]`.
fn bytes_between(bytes: &[u8], from: usize, to: usize) -> (r: Vec<u8>)
    requires
        from <= to <= bytes@.len(),
    ensures
        r@ == bytes@.subrange(from as int, to as int),
{
    let mut r: Vec<u8> = Vec::new();
    let mut i: usize = from;
    while i < to
        invariant
            from <= i <= to <= bytes@.len(),
            r@ == bytes@.subrange(from as int, i as int),
        decreases to - i,
    {
        r.push(bytes[i]);
        i = i + 1;
        proof {
            assert(bytes@.subrange(from as int, i as int) =~= bytes@.subrange(
                from as int,
                i as int - 1,
            ).push(bytes@[i as int - 1]));
        }
    }
    r
}

/// The text in `bytes`, if they are well-formed.
pub open spec fn decoded(bytes: Seq<u8>) -> Option<Seq<char>> {
    if valid_utf8(bytes) {
        Some(decode_utf8(bytes))
    } else {
        None
    }
}

/// The name in a Unifying response: a sub-register, a length, and the text. A
/// length beyond the response is cut to it.
pub open spec fn unifying_codename(response: Seq<u8>) -> Option<Seq<char>> {
    if response.len() < 2 {
        None
    } else {
        let len = if response[1] as int <= response.len() - 2 {
            response[1] as int
        } else {
            response.len() - 2
        };
        decoded(response.subrange(2, 2 + len))
    }
}

/// Parse the name in a Unifying response.
pub fn parse_codename_unifying(response: &[u8]) -> (r: Option<String>)
    ensures
        r.deep_view() == unifying_codename(response@),
{
    if response.len() < 2 {
        return None;
    }
    let claimed: usize = response[1] as usize;
    let room: usize = response.len() - 2;
    let len: usize = if claimed <= room {
        claimed
    } else {
        room
    };
    let bytes = bytes_between(response, 2, 2 + len);
    from_utf8(bytes.as_slice())
}

/// The name in a Bolt response of sixteen bytes: a sub-register, a chunk, a
/// length, and the text. A length beyond the response is cut to it.
pub open spec fn bolt_codename(response: Seq<u8>) -> Option<Seq<char>> {
    let len = if response[2] <= 13 {
        response[2] as int
    } else {
        13
    };
    decoded(response.subrange(3, 3 + len))
}

/// Parse the name in a Bolt response.
pub fn parse_codename(response: &[u8; 16]) -> (r: Option<String>)
    ensures
        r.deep_view() == bolt_codename(response@),
{
    let len: usize = if response[2] <= 13 {
        response[2] as usize
    } else {
        13
    };
    let bytes = bytes_between(response.as_slice(), 3, 3 + len);
    from_utf8(bytes.as_slice())
}

/// A Bolt receiver counts as checked exactly when its pairing count was read and
/// every counted slot is listed. An unread count and a shortfall never do.
pub proof fn a_bolt_shortfall_is_no_answer(
    receiver: ReceiverInfoModel,
    pairing_count: Option<u8>,
    paired: Seq<PairedDeviceModel>,
    outcomes: Seq<CacheOutcomeModel>,
)
    ensures
        bolt_probe(receiver, pairing_count, paired, outcomes).healthy <==> (pairing_count is Some
            && paired.len() == pairing_count->0),
        bolt_probe(receiver, pairing_count, paired, outcomes).healthy == bolt_probe(
            receiver,
            pairing_count,
            paired,
            outcomes,
        ).complete,
        pairing_count is None ==> !bolt_probe(receiver, pairing_count, paired, outcomes).healthy,
{
}

/// Only a completed walk that found a peripheral lists a device, and only a
/// completed walk is healthy.
pub proof fn a_direct_verdict_rests_on_a_walk(
    info: NodeInfoModel,
    probe: ProbedFeaturesModel,
    outcome: CacheOutcomeModel,
)
    ensures
        direct_probe(info, probe, outcome).healthy <==> probe.capabilities is Some,
        direct_probe(info, probe, outcome).complete <==> probe.capabilities is Some,
        direct_probe(info, probe, outcome).inventory is Some <==> (probe.capabilities matches Some(
            c,
        ) && is_peripheral(probe.battery, c)),
{
}

/// A device on a Bolt receiver is listed as the receiver knows it: in its slot,
/// under its name and product, and online exactly when its identity says so. What
/// it is comes from its own features where they tell, and from the receiver
/// otherwise. Battery, model and capabilities are what was read of it.
pub proof fn a_bolt_device_is_listed_as_it_is(
    identity: BoltSlotIdentityModel,
    probe: ProbedFeaturesModel,
)
    ensures
        ({
            let device = bolt_device(identity, probe);
            &&& device.online == identity.online
            &&& device.slot == identity.slot
            &&& device.codename == identity.codename
            &&& device.wpid == identity.wpid
            &&& device.battery == probe.battery
            &&& device.model_info == probe.model_info
            &&& device.capabilities == probe.capabilities
            &&& probe.kind is None || probe.kind == Some(DeviceKind::Unknown) ==> device.kind
                == identity.register_kind
            &&& probe.kind is Some && probe.kind != Some(DeviceKind::Unknown) ==> Some(device.kind)
                == probe.kind
        }),
{
}

/// What a live arrival says of a Bolt slot goes before its pairing register, all
/// the way to the device that is listed: whether it is online, what kind it is
/// where its features do not tell, and its product, which only an arrival tells.
pub proof fn a_live_arrival_decides(
    slot: u8,
    pairing: PairingInformation,
    arrival: DeviceConnection,
    codename: Option<Seq<char>>,
    probe: ProbedFeaturesModel,
)
    ensures
        ({
            let live = bolt_device(identity_of(slot, pairing, Some(arrival), codename), probe);
            let asleep = bolt_device(identity_of(slot, pairing, None, codename), probe);
            &&& live.online == arrival.online
            &&& asleep.online == pairing.online
            &&& live.wpid == Some(arrival.wpid)
            &&& asleep.wpid is None
            &&& live.slot == slot && asleep.slot == slot
            &&& live.codename == codename && asleep.codename == codename
            &&& probe.kind is None ==> live.kind == arrival.kind && asleep.kind == pairing.kind
        }),
{
}

/// A slot goes by the unit in it, whether a device is awake or not. A unit of
/// zero names nobody.
pub proof fn a_bolt_slot_goes_by_its_unit(
    slot: u8,
    pairing: PairingInformation,
    event: Option<DeviceConnection>,
    codename: Option<Seq<char>>,
)
    ensures
        identity_of(slot, pairing, event, codename).id is Some <==> pairing.unit_id != 0,
        identity_of(slot, pairing, event, codename).id matches Some(key) ==> key
            == CacheKeyModel::Bolt(pairing.unit_id),
        seen_model(identity_of(slot, pairing, event, codename).id) is Unkeyed <==> pairing.unit_id
            == 0,
        pairing.unit_id != 0 ==> seen_model(identity_of(slot, pairing, event, codename).id)
            == CacheOutcomeModel::Seen(CacheKeyModel::Bolt(pairing.unit_id)),
{
}

/// A walk that ran out of time leaves what is cached of a device, all of it, and
/// nothing where nothing is.
pub proof fn a_timed_out_walk_leaves_what_is_cached(cached: Option<ProbedFeaturesModel>)
    ensures
        cached matches Some(probe) ==> cached_or_nothing(cached) == probe,
        cached is None ==> {
            let probe = cached_or_nothing(cached);
            &&& probe.kind is None
            &&& probe.battery is None
            &&& probe.model_info is None
            &&& probe.capabilities is None
            &&& probe.marketing_name is None
        },
{
}

/// A device on a Unifying receiver is listed in the slot of its arrival, with the
/// product that the arrival tells, and online exactly when it was found reachable.
pub proof fn a_unifying_device_is_listed_as_it_is(
    slot: u8,
    codename: Option<Seq<char>>,
    wpid: u16,
    register_kind: DeviceKind,
    probe: ProbedFeaturesModel,
    online: bool,
)
    ensures
        ({
            let device = unifying_device(slot, codename, wpid, register_kind, probe, online);
            &&& device.online == online
            &&& device.slot == slot
            &&& device.codename == codename
            &&& device.wpid == Some(wpid)
            &&& device.battery == probe.battery
            &&& device.model_info == probe.model_info
            &&& device.capabilities == probe.capabilities
            &&& probe.kind is None || probe.kind == Some(DeviceKind::Unknown) ==> device.kind
                == register_kind
            &&& probe.kind is Some && probe.kind != Some(DeviceKind::Unknown) ==> Some(device.kind)
                == probe.kind
        }),
{
}

/// Only a reading that is new shows by itself that a device is reachable: one
/// from the cache does not, whichever it is.
pub proof fn only_a_new_reading_shows_a_device(key: CacheKeyModel)
    ensures
        shows_reachable(CacheOutcomeModel::Fresh(key)),
        shows_reachable(CacheOutcomeModel::Update(key)),
        !shows_reachable(CacheOutcomeModel::Seen(key)),
        !shows_reachable(CacheOutcomeModel::Unkeyed),
{
}

/// A probe of a Bolt receiver lists every device that was found, in the order of
/// the slots, each with its contribution to the cache.
pub proof fn every_slot_is_listed(
    receiver: ReceiverInfoModel,
    pairing_count: Option<u8>,
    results: Seq<(PairedDevice, CacheOutcome)>,
)
    ensures
        ({
            let probe = bolt_probe(
                receiver,
                pairing_count,
                devices_of(results),
                outcomes_of(results),
            );
            &&& probe.inventory is Some
            &&& probe.inventory->0.receiver == receiver
            &&& probe.inventory->0.paired.len() == results.len()
            &&& probe.outcomes.len() == results.len()
            &&& forall|i: int|
                0 <= i < results.len() ==> (#[trigger] probe.inventory->0.paired[i])
                    == results[i].0.deep_view()
            &&& forall|i: int|
                0 <= i < results.len() ==> (#[trigger] probe.outcomes[i])
                    == results[i].1.deep_view()
        }),
{
}

/// A count is met by just as many devices.
pub proof fn a_count_is_met_exactly(pairing_count: Option<u8>, found: nat)
    ensures
        count_met(pairing_count, found) <==> pairing_count is Some && pairing_count->0 as nat
            == found,
{
}

/// Of a slot that arrived more than once, the last arrival counts, and a slot that
/// did not arrive has none.
pub proof fn the_last_arrival_counts(connections: Seq<DeviceConnection>, slot: u8)
    ensures
        match last_for(connections, slot) {
            Some(arrival) => arrival.index == slot && exists|i: int|
                0 <= i < connections.len() && #[trigger] connections[i] == arrival && forall|
                    j: int,
                |
                    i < j < connections.len() ==> (#[trigger] connections[j]).index != slot,
            None => forall|j: int|
                0 <= j < connections.len() ==> (#[trigger] connections[j]).index != slot,
        },
    decreases connections.len(),
{
    if connections.len() > 0 {
        let rest = connections.drop_last();
        let last = connections.len() - 1;
        the_last_arrival_counts(rest, slot);
        if connections.last().index == slot {
            assert(connections[last] == connections.last());
        } else {
            match last_for(rest, slot) {
                Some(arrival) => {
                    let i = choose|i: int|
                        0 <= i < rest.len() && #[trigger] rest[i] == arrival && forall|j: int|
                            i < j < rest.len() ==> (#[trigger] rest[j]).index != slot;
                    assert(connections[i] == arrival);
                    assert forall|j: int| i < j < connections.len() implies (
                    #[trigger] connections[j]).index != slot by {
                        if j < last {
                            assert(rest[j] == connections[j]);
                        }
                    }
                },
                None => {
                    assert forall|j: int| 0 <= j < connections.len() implies (
                    #[trigger] connections[j]).index != slot by {
                        if j < last {
                            assert(rest[j] == connections[j]);
                        }
                    }
                },
            }
        }
    }
}

/// A node that is a device of its own is listed alone and online, under the name
/// that it gives itself unless that is blank, with what was read of it. It counts
/// as a device by a battery or by anything to configure.
pub proof fn a_direct_device_is_listed_as_it_is(
    info: NodeInfoModel,
    probe: ProbedFeaturesModel,
    outcome: CacheOutcomeModel,
    capabilities: Capabilities,
)
    requires
        probe.capabilities == Some(capabilities),
    ensures
        ({
            let result = direct_probe(info, probe, outcome);
            let device = result.inventory->0.paired[0];
            let receiver = result.inventory->0.receiver;
            let counts = probe.battery is Some || capabilities.buttons || capabilities.pointer
                || capabilities.lighting;
            &&& result.inventory is Some <==> counts
            &&& counts ==> {
                &&& result.outcomes == seq![outcome]
                &&& result.inventory->0.paired.len() == 1
                &&& device.online
                &&& device.slot == 0xff
                &&& device.wpid is None
                &&& device.battery == probe.battery
                &&& device.model_info == probe.model_info
                &&& device.capabilities == Some(capabilities)
                &&& probe.kind is Some ==> Some(device.kind) == probe.kind
                &&& probe.kind is None ==> device.kind == DeviceKind::Unknown
                &&& receiver.name == info.name
                &&& receiver.vendor_id == info.vendor_id
                &&& receiver.product_id == info.product_id
                &&& receiver.unique_id is None
                &&& match probe.marketing_name {
                    Some(name) => device.codename == Some(name) || (device.codename == Some(
                        info.name,
                    ) && forall|i: int| 0 <= i < name.len() ==> is_white(#[trigger] name[i])),
                    None => device.codename == Some(info.name),
                }
                &&& (probe.marketing_name matches Some(name) && exists|i: int|
                    0 <= i < name.len() && !is_white(#[trigger] name[i])) ==> device.codename
                    == probe.marketing_name
            }
            &&& !counts ==> result.outcomes == seq![CacheOutcomeModel::Unkeyed]
        }),
{
}

/// A probe that got no answer lists nothing and contributes nothing, and a node
/// that was not walked to the end keeps its place in the cache.
pub proof fn no_answer_is_no_verdict(
    info: NodeInfoModel,
    probe: ProbedFeaturesModel,
    outcome: CacheOutcomeModel,
)
    requires
        probe.capabilities is None,
    ensures
        direct_probe(info, probe, outcome).inventory is None,
        direct_probe(info, probe, outcome).outcomes == seq![
            CacheOutcomeModel::Seen(CacheKeyModel::Direct(info.id)),
        ],
        failed_probe().inventory is None,
        failed_probe().outcomes.len() == 0,
        !failed_probe().healthy && !failed_probe().complete,
{
}

/// A name that a receiver holds is read back as it was written, from either kind
/// of response, as long as it fits; what follows it does not matter.
pub proof fn a_name_reads_back(name: Seq<char>, bolt: Seq<u8>, unifying: Seq<u8>)
    requires
        bolt.len() == 16,
        encode_utf8(name).len() <= 13,
        bolt[2] == encode_utf8(name).len(),
        bolt.subrange(3, 3 + encode_utf8(name).len() as int) == encode_utf8(name),
        unifying.len() >= 2 + encode_utf8(name).len(),
        unifying[1] == encode_utf8(name).len(),
        unifying.subrange(2, 2 + encode_utf8(name).len() as int) == encode_utf8(name),
    ensures
        bolt_codename(bolt) == Some(name),
        unifying_codename(unifying) == Some(name),
{
    encode_utf8_valid_utf8(name);
    encode_utf8_decode_utf8(name);
}

/// A length that a response cannot hold is cut to what it holds.
pub proof fn a_bogus_length_is_cut(response: Seq<u8>, longer: Seq<u8>)
    requires
        response.len() == longer.len(),
        forall|i: int|
            0 <= i < response.len() && i != 1 ==> #[trigger] response[i] == longer[i],
        response.len() >= 2,
        response[1] == response.len() - 2,
        longer[1] >= response[1],
    ensures
        unifying_codename(longer) == unifying_codename(response),
{
    let len = response.len() - 2;
    assert(response.subrange(2, 2 + len) =~= longer.subrange(2, 2 + len));
}

/// A receiver goes by its own id where that was read. Where it was not, it goes by
/// its product, and products are told apart.
pub proof fn receivers_are_told_apart(uid: Seq<char>, a: u16, b: u16)
    ensures
        uid_of(Some(uid), a) == uid,
        uid_of(None, a) == uid_of(None, b) ==> a == b,
        uid_of(None, a).len() == 8,
        uid_of(None, a).take(4) == "pid:"@,
{
    reveal_strlit("pid:");
    let p = "pid:"@;
    assert(p.len() == 4);
    assert(uid_of(None, a).take(4) =~= p);
    if uid_of(None, a) == uid_of(None, b) {
        assert forall|i: int| 0 <= i < 4 implies hex4(a)[i] == hex4(b)[i] by {
            assert(uid_of(None, a)[4 + i] == hex4(a)[i]);
            assert(uid_of(None, b)[4 + i] == hex4(b)[i]);
        }
        assert(hex4(a)[0] == hex4(b)[0]);
        assert(hex4(a)[1] == hex4(b)[1]);
        assert(hex4(a)[2] == hex4(b)[2]);
        assert(hex4(a)[3] == hex4(b)[3]);
        lemma_hex_digit_tells(a as int / 4096, b as int / 4096);
        lemma_hex_digit_tells((a as int / 256) % 16, (b as int / 256) % 16);
        lemma_hex_digit_tells((a as int / 16) % 16, (b as int / 16) % 16);
        lemma_hex_digit_tells(a as int % 16, b as int % 16);
        assert(a as int == (a as int / 4096) * 4096 + ((a as int / 256) % 16) * 256 + ((a as int
            / 16) % 16) * 16 + a as int % 16);
        assert(b as int == (b as int / 4096) * 4096 + ((b as int / 256) % 16) * 256 + ((b as int
            / 16) % 16) * 16 + b as int % 16);
    }
}

proof fn lemma_hex_digit_tells(a: int, b: int)
    requires
        0 <= a < 16,
        0 <= b < 16,
        hex_digit(a) == hex_digit(b),
    ensures
        a == b,
{
    assert('a' as int == 97 && '0' as int == 48);
    if a < 10 {
        assert(((a + 48) as char) as int == a + 48);
    } else {
        assert(((a - 10 + 97) as char) as int == a - 10 + 97);
    }
    if b < 10 {
        assert(((b + 48) as char) as int == b + 48);
    } else {
        assert(((b - 10 + 97) as char) as int == b - 10 + 97);
    }
}

} // verus!
