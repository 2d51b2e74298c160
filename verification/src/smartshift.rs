//! Setting a wheel, and confirming that it was set.

use vstd::prelude::*;

use crate::config::{row_of, DeviceConfigModel, SmartShiftStatus};
use crate::data::Data;
use crate::device::{DeviceKey, DeviceRecordModel, DeviceRoute, RouteModel};
use crate::load::{
    forgotten, load_of, read_end, read_is_current, smartshift_error_is_permanent,
    smartshift_read_is_current, smartshift_write_outcome, stored, write_outcome, LazyModel, Load,
    LoadModel, ReadEnd, SmartShiftWriteStatus, WriteError,
};
use crate::settings::{edits, with_device};
use crate::state::{
    current_of, followed, landed, ui_of, with_ui, AppState, CommandModel, ConfigPersistence,
    DeviceUiStateModel, Save, SaveModel, StateModel, Then, ThenModel,
};

verus! {

/// A read of a wheel that is to be made.
#[derive(Clone, Debug, PartialEq, Eq)]
pub struct SmartShiftRead {
    pub key: DeviceKey,
    pub route: DeviceRoute,
    /// The write that the read confirms.
    pub write_id: Option<u64>,
    /// Whether the read was made because nothing was known.
    pub first: bool,
}

/// What a [`SmartShiftRead`] holds.
pub ghost struct ReadModel {
    pub key: Seq<char>,
    pub route: RouteModel,
    pub write_id: Option<u64>,
    pub first: bool,
}

impl DeepView for SmartShiftRead {
    type V = ReadModel;

    open spec fn deep_view(&self) -> ReadModel {
        ReadModel {
            key: self.key.deep_view(),
            route: self.route.deep_view(),
            write_id: self.write_id,
            first: self.first,
        }
    }
}

/// Whether there is a device of this key.
pub open spec fn is_present(records: Seq<DeviceRecordModel>, key: Seq<char>) -> bool {
    exists|i: int| 0 <= i < records.len() && (#[trigger] records[i]).config_key == key
}

/// Whether there is a device of this key on this route.
pub open spec fn is_on_route(
    records: Seq<DeviceRecordModel>,
    key: Seq<char>,
    route: RouteModel,
) -> bool {
    exists|i: int|
        0 <= i < records.len() && (#[trigger] records[i]).config_key == key && records[i].route
            == Some(route)
}

/// The write that is being applied on a device, if any.
pub open spec fn applying(m: StateModel, key: Seq<char>) -> Option<u64> {
    match ui_of(m, key).smartshift_write_status {
        Some(SmartShiftWriteStatus::Applying { expected, write_id }) => Some(write_id),
        _ => None,
    }
}

/// The first read that the selected device still needs, if any.
pub open spec fn wanted_read(m: StateModel) -> Option<ReadModel> {
    match current_of(m.devices) {
        Some(record) => if m.smartshift_reads.by_device.contains_key(record.config_key) {
            None
        } else {
            match record.route {
                Some(route) => Some(
                    ReadModel {
                        key: record.config_key,
                        route,
                        write_id: applying(m, record.config_key),
                        first: true,
                    },
                ),
                None => None,
            }
        },
        None => None,
    }
}

/// The state with a read under way.
pub open spec fn reading(m: StateModel, key: Seq<char>) -> StateModel {
    StateModel {
        smartshift_reads: LazyModel {
            by_device: m.smartshift_reads.by_device.insert(key, LoadModel::Loading),
            ..m.smartshift_reads
        },
        ..m
    }
}

/// The state once the first read of the selected device was begun.
pub open spec fn read_begun(m: StateModel) -> StateModel {
    match wanted_read(m) {
        Some(read) => reading(m, read.key),
        None => m,
    }
}

/// The confirming read that the selected device waits for, if any.
pub open spec fn wanted_confirm(m: StateModel) -> Option<ReadModel> {
    match current_of(m.devices) {
        Some(record) => match record.route {
            Some(route) => if m.devices.runtime.contains_key(record.config_key) {
                match ui_of(m, record.config_key).smartshift_pending_confirm {
                    Some(write_id) => Some(
                        ReadModel {
                            key: record.config_key,
                            route,
                            write_id: Some(write_id),
                            first: false,
                        },
                    ),
                    None => None,
                }
            } else {
                None
            },
            None => None,
        },
        None => None,
    }
}

/// The state once the confirming read of the selected device was taken.
pub open spec fn confirm_taken(m: StateModel) -> StateModel {
    match wanted_confirm(m) {
        Some(read) => with_ui(
            m,
            read.key,
            DeviceUiStateModel { smartshift_pending_confirm: None, ..ui_of(m, read.key) },
        ),
        None => m,
    }
}

/// The state once a reading was stored, which may settle a write.
pub open spec fn reading_stored(
    m: StateModel,
    key: Seq<char>,
    route: RouteModel,
    write_id: Option<u64>,
    end: ReadEnd<SmartShiftStatus>,
) -> StateModel {
    let status = ui_of(m, key).smartshift_write_status;
    if !read_is_current(write_id, status) {
        m
    } else {
        let records = m.devices.records;
        let read = StateModel {
            smartshift_reads: stored(
                m.smartshift_reads,
                key,
                end,
                is_on_route(records, key, route),
                is_present(records, key),
            ),
            ..m
        };
        let load = if read.smartshift_reads.by_device.contains_key(key) {
            Some(read.smartshift_reads.by_device[key])
        } else {
            None
        };
        match status {
            Some(SmartShiftWriteStatus::Applying { expected, write_id }) => match write_outcome(
                expected,
                load,
            ) {
                Some(outcome) => with_ui(
                    read,
                    key,
                    DeviceUiStateModel {
                        smartshift_write_status: Some(outcome),
                        ..ui_of(m, key)
                    },
                ),
                None => read,
            },
            _ => read,
        }
    }
}

/// The state once a confirming read got no reply.
pub open spec fn confirm_failed(m: StateModel, key: Seq<char>, write_id: u64) -> StateModel {
    if applying(m, key) == Some(write_id) {
        with_ui(
            m,
            key,
            DeviceUiStateModel {
                smartshift_write_status: Some(SmartShiftWriteStatus::Failed),
                ..ui_of(m, key)
            },
        )
    } else {
        m
    }
}

/// The state once a read got no reply.
pub open spec fn reply_lost(m: StateModel, read: ReadModel) -> StateModel {
    if read.first {
        StateModel {
            smartshift_reads: if load_of(m.smartshift_reads, read.key) is Loading {
                LazyModel {
                    by_device: m.smartshift_reads.by_device.remove(read.key),
                    ..m.smartshift_reads
                }
            } else {
                m.smartshift_reads
            },
            ..m
        }
    } else {
        match read.write_id {
            Some(write_id) => confirm_failed(m, read.key, write_id),
            None => m,
        }
    }
}

/// Whether a device that was just read has to be read again at once.
pub open spec fn reads_again(m: StateModel, key: Seq<char>) -> bool {
    &&& !m.smartshift_reads.by_device.contains_key(key)
    &&& current_of(m.devices) is Some
    &&& current_of(m.devices)->0.config_key == key
}

/// The state once a device was forgotten, so that it is read anew.
pub open spec fn retried(m: StateModel, key: Seq<char>) -> StateModel {
    let read = StateModel { smartshift_reads: forgotten(m.smartshift_reads, key), ..m };
    if m.devices.runtime.contains_key(key) {
        with_ui(
            read,
            key,
            DeviceUiStateModel { smartshift_write_status: None, ..ui_of(m, key) },
        )
    } else {
        read
    }
}

impl AppState {
    /// Whether there is a device of this key, and whether it is on this route.
    fn presence(&self, key: &DeviceKey, route: &DeviceRoute) -> (r: (bool, bool))
        ensures
            r.0 == is_present(self.deep_view().devices.records, key.deep_view()),
            r.1 == is_on_route(
                self.deep_view().devices.records,
                key.deep_view(),
                route.deep_view(),
            ),
    {
        let mut present = false;
        let mut routed = false;
        let mut i: usize = 0;
        let ghost records = self.deep_view().devices.records;
        while i < self.devices.records.len()
            invariant
                i <= self.devices.records@.len(),
                records == self.devices.records.deep_view(),
                present == is_present(records.take(i as int), key.deep_view()),
                routed == is_on_route(
                    records.take(i as int),
                    key.deep_view(),
                    route.deep_view(),
                ),
            decreases self.devices.records@.len() - i,
        {
            let record = &self.devices.records[i];
            let mine = record.config_key == key.text;
            let on_route = match &record.route {
                Some(r) => r.same(route),
                None => false,
            };
            let ghost before = records.take(i as int);
            let ghost after = records.take(i as int + 1);
            proof {
                assert(after[i as int] == record.deep_view());
                assert forall|k: int| 0 <= k < i implies after[k] == #[trigger] before[k] by {}
                if is_present(before, key.deep_view()) {
                    let k = choose|k: int|
                        0 <= k < before.len() && (#[trigger] before[k]).config_key
                            == key.deep_view();
                    assert(after[k].config_key == key.deep_view());
                }
                if is_present(after, key.deep_view()) && !mine {
                    let k = choose|k: int|
                        0 <= k < after.len() && (#[trigger] after[k]).config_key
                            == key.deep_view();
                    assert(before[k].config_key == key.deep_view());
                }
                if is_on_route(before, key.deep_view(), route.deep_view()) {
                    let k = choose|k: int|
                        0 <= k < before.len() && (#[trigger] before[k]).config_key
                            == key.deep_view() && before[k].route == Some(route.deep_view());
                    assert(after[k].config_key == key.deep_view());
                }
                if is_on_route(after, key.deep_view(), route.deep_view()) && !(mine && on_route) {
                    let k = choose|k: int|
                        0 <= k < after.len() && (#[trigger] after[k]).config_key
                            == key.deep_view() && after[k].route == Some(route.deep_view());
                    assert(before[k].config_key == key.deep_view());
                }
            }
            if mine {
                present = true;
                if on_route {
                    routed = true;
                }
            }
            i = i + 1;
        }
        proof {
            assert(records.take(records.len() as int) =~= records);
        }
        (present, routed)
    }

    /// The write that is being confirmed on the selected device, or how the
    /// last one ended.
    pub fn current_smartshift_write_status(&self) -> (r: Option<SmartShiftWriteStatus>)
        ensures
            r == match current_of(self.deep_view().devices) {
                Some(record) => ui_of(
                    self.deep_view(),
                    record.config_key,
                ).smartshift_write_status,
                None => None,
            },
    {
        match self.current_record() {
            Some(record) => self.ui(&record.device_key()).smartshift_write_status,
            None => None,
        }
    }

    /// How the wheel of the selected device is set, if that is known.
    pub fn current_smartshift_ready(&self) -> (r: Option<SmartShiftStatus>)
        ensures
            r == match current_of(self.deep_view().devices) {
                Some(record) => match load_of(
                    self.deep_view().smartshift_reads,
                    record.config_key,
                ) {
                    LoadModel::Ready(status) => Some(status),
                    _ => None,
                },
                None => None,
            },
    {
        match self.current_record() {
            Some(record) => match self.smartshift_reads.get(&record.device_key()) {
                Some(Load::Ready(status)) => Some(*status),
                _ => None,
            },
            None => None,
        }
    }

    /// Begin the first read of the selected device, if it still needs one.
    pub fn load_current_smartshift(&mut self) -> (r: Option<SmartShiftRead>)
        ensures
            r.deep_view() == wanted_read(old(self).deep_view()),
            final(self).deep_view() == read_begun(old(self).deep_view()),
    {
        let (key, route): (DeviceKey, DeviceRoute) = match self.current_record() {
            None => {
                return None;
            },
            Some(record) => {
                let key = record.device_key();
                if !self.smartshift_reads.unqueried(&key) {
                    return None;
                }
                match &record.route {
                    None => {
                        return None;
                    },
                    Some(route) => (key, route.duplicate()),
                }
            },
        };
        let write_id: Option<u64> = match self.ui(&key).smartshift_write_status {
            Some(SmartShiftWriteStatus::Applying { write_id, .. }) => Some(write_id),
            _ => None,
        };
        self.smartshift_reads.mark_loading(&key);
        Some(SmartShiftRead { key, route, write_id, first: true })
    }

    /// Take the confirming read that the selected device waits for. It is
    /// handed out once.
    pub fn take_active_smartshift_confirm(&mut self) -> (r: Option<SmartShiftRead>)
        ensures
            r.deep_view() == wanted_confirm(old(self).deep_view()),
            final(self).deep_view() == confirm_taken(old(self).deep_view()),
    {
        let (key, route): (DeviceKey, DeviceRoute) = match self.current_record() {
            None => {
                return None;
            },
            Some(record) => match &record.route {
                None => {
                    return None;
                },
                Some(route) => (record.device_key(), route.duplicate()),
            },
        };
        if !self.devices.runtime.contains(&key) {
            return None;
        }
        let mut ui = self.ui(&key);
        match ui.smartshift_pending_confirm {
            None => None,
            Some(write_id) => {
                ui.smartshift_pending_confirm = None;
                self.devices.runtime.insert(key.duplicate(), ui);
                Some(SmartShiftRead { key, route, write_id: Some(write_id), first: false })
            },
        }
    }

    /// Have a device read anew, and forget how the last write to it ended.
    pub fn retry_smartshift(&mut self, key: &DeviceKey)
        ensures
            final(self).deep_view() == retried(old(self).deep_view(), key.deep_view()),
    {
        self.smartshift_reads.retry(key);
        if self.devices.runtime.contains(key) {
            let mut ui = self.ui(key);
            ui.smartshift_write_status = None;
            self.devices.runtime.insert(key.duplicate(), ui);
        }
    }

    /// Store a reading, unless it belongs to another write than the one that is
    /// being applied. Storing it may settle that write.
    pub fn store_smartshift_status(
        &mut self,
        key: DeviceKey,
        route: &DeviceRoute,
        write_id: Option<u64>,
        result: Result<SmartShiftStatus, WriteError>,
    )
        ensures
            final(self).deep_view() == reading_stored(
                old(self).deep_view(),
                key.deep_view(),
                route.deep_view(),
                write_id,
                read_end(result, result matches Err(e) && e is FeatureUnsupported),
            ),
    {
        let mut ui = self.ui(&key);
        let status = ui.smartshift_write_status;
        let current = match &status {
            Some(status) => smartshift_read_is_current(write_id, Some(status)),
            None => smartshift_read_is_current(write_id, None),
        };
        if !current {
            return ;
        }
        let permanent = match &result {
            Ok(_) => false,
            Err(error) => smartshift_error_is_permanent(error),
        };
        let (present, routed) = self.presence(&key, route);
        self.smartshift_reads.store(key.duplicate(), result, permanent, routed, present);
        if let Some(SmartShiftWriteStatus::Applying { expected, .. }) = status {
            let outcome = smartshift_write_outcome(expected, self.smartshift_reads.get(&key));
            if let Some(outcome) = outcome {
                ui.smartshift_write_status = Some(outcome);
                self.devices.runtime.insert(key, ui);
            }
        }
    }

    /// Record that a confirming read got no reply.
    pub fn fail_smartshift_confirm(&mut self, key: &DeviceKey, write_id: u64)
        ensures
            final(self).deep_view() == confirm_failed(
                old(self).deep_view(),
                key.deep_view(),
                write_id,
            ),
    {
        let mut ui = self.ui(key);
        if let Some(SmartShiftWriteStatus::Applying { write_id: current, .. }) =
            ui.smartshift_write_status {
            if current == write_id {
                ui.smartshift_write_status = Some(SmartShiftWriteStatus::Failed);
                self.devices.runtime.insert(key.duplicate(), ui);
            }
        }
    }

    /// Record how a read ended, `None` for a reply that never came. Where the
    /// selected device has to be read again, that read is handed out.
    pub fn finish_smartshift_read(
        &mut self,
        read: SmartShiftRead,
        reply: Option<Result<SmartShiftStatus, WriteError>>,
    ) -> (r: Option<SmartShiftRead>)
        ensures
            match reply {
                None => {
                    &&& final(self).deep_view() == reply_lost(
                        old(self).deep_view(),
                        read.deep_view(),
                    )
                    &&& r is None
                },
                Some(result) => {
                    let m = reading_stored(
                        old(self).deep_view(),
                        read.key.deep_view(),
                        read.route.deep_view(),
                        read.write_id,
                        read_end(result, result matches Err(e) && e is FeatureUnsupported),
                    );
                    if reads_again(m, read.key.deep_view()) {
                        &&& final(self).deep_view() == read_begun(m)
                        &&& r.deep_view() == wanted_read(m)
                    } else {
                        final(self).deep_view() == m && r is None
                    }
                },
            },
    {
        match reply {
            None => {
                if read.first {
                    self.smartshift_reads.clear_loading(&read.key);
                } else {
                    if let Some(write_id) = read.write_id {
                        self.fail_smartshift_confirm(&read.key, write_id);
                    }
                }
                None
            },
            Some(result) => {
                self.store_smartshift_status(
                    read.key.duplicate(),
                    &read.route,
                    read.write_id,
                    result,
                );
                let again = self.smartshift_reads.unqueried(&read.key) && match self.current_record() {
                    Some(record) => record.config_key == read.key.text,
                    None => false,
                };
                if again {
                    self.load_current_smartshift()
                } else {
                    None
                }
            },
        }
    }

    /// Set the wheel of the selected device. The value is shown at once and is
    /// confirmed by reading it back; it is sent only once it is kept, where the
    /// device keeps settings.
    pub fn commit_smartshift(&mut self, status: SmartShiftStatus) -> (r: Option<Save>)
        ensures
            match current_of(old(self).deep_view().devices) {
                None => final(self).deep_view() == old(self).deep_view() && r is None,
                Some(record) => {
                    let m = old(self).deep_view();
                    let set = ThenModel::SmartShift(record.config_key, record.route, status);
                    if record.persistent {
                        edits(
                            *old(self),
                            true,
                            with_device(
                                m,
                                record.config_key,
                                DeviceConfigModel {
                                    smartshift: Some(status),
                                    ..row_of(m.config, record.config_key)
                                },
                            ),
                            SaveModel { reload: true, then_do: set },
                            *final(self),
                            r,
                        )
                    } else {
                        final(self).deep_view() == followed(m, set) && r is None
                    }
                },
            },
            (current_of(old(self).deep_view().devices) matches Some(record) && record.route is Some
                && (!record.persistent || old(self).config_persistence
                == ConfigPersistence::MemoryOnly)) ==> final(self).deep_view().outbox.last()
                == CommandModel::SetSmartShift(
                current_of(old(self).deep_view().devices)->0.route->0,
                status,
            ),
            (current_of(old(self).deep_view().devices) matches Some(record) && record.persistent
                && !(old(self).config_persistence is ReadOnly)) ==> row_of(
                final(self).deep_view().config,
                current_of(old(self).deep_view().devices)->0.config_key,
            ).smartshift == Some(status),
    {
        let (key, persistent, route): (DeviceKey, bool, Option<DeviceRoute>) = match self.current_record() {
            None => {
                return None;
            },
            Some(record) => (
                record.device_key(),
                record.is_persistent(),
                record.route.duplicate(),
            ),
        };
        let text = key.text.clone();
        let then_do = Then::SmartShift { key, route, status };
        if persistent {
            let mut row = self.config.row(&text);
            row.smartshift = Some(status);
            self.config.put_row(&text, row);
            self.persist(Save { reload: true, then_do })
        } else {
            self.follow(then_do);
            None
        }
    }
}

/// A write is confirmed exactly by reading back what was written. Reading
/// anything else, or failing for good, settles it as failed.
pub proof fn only_the_written_value_confirms(
    m: StateModel,
    key: Seq<char>,
    route: RouteModel,
    write_id: u64,
    expected: SmartShiftStatus,
    end: ReadEnd<SmartShiftStatus>,
)
    requires
        ui_of(m, key).smartshift_write_status == Some(
            SmartShiftWriteStatus::Applying { expected, write_id },
        ),
        is_on_route(m.devices.records, key, route),
    ensures
        ({
            let after = reading_stored(m, key, route, Some(write_id), end);
            let settled = ui_of(after, key).smartshift_write_status;
            &&& settled == Some(SmartShiftWriteStatus::Confirmed) <==> end == ReadEnd::Value(
                expected,
            )
            &&& (end matches ReadEnd::Value(v) && v != expected) ==> settled == Some(
                SmartShiftWriteStatus::Failed,
            )
            &&& end is Permanent ==> settled == Some(SmartShiftWriteStatus::Failed)
        }),
{
}

/// A reply to an older write, and one to a read that was made before the write,
/// changes nothing while a write is being applied.
pub proof fn replies_to_older_writes_are_dropped(
    m: StateModel,
    key: Seq<char>,
    route: RouteModel,
    reply: Option<u64>,
    end: ReadEnd<SmartShiftStatus>,
)
    requires
        applying(m, key) is Some,
        reply != applying(m, key),
    ensures
        reading_stored(m, key, route, reply, end) == m,
{
}

/// The confirming read of a write is handed out once.
pub proof fn a_confirm_is_taken_once(m: StateModel)
    ensures
        wanted_confirm(confirm_taken(m)) is None,
{
    if let Some(read) = wanted_confirm(m) {
        assert(ui_of(confirm_taken(m), read.key).smartshift_pending_confirm is None);
    }
}

/// A wheel that is set on the selected device is kept for that device where it
/// keeps settings, and goes out to it: at once where nothing goes to a file, and
/// else once it was written. What goes out last is this value over the route of the
/// device, and it waits to be confirmed.
pub proof fn a_committed_wheel_is_kept_and_goes_out(
    before: AppState,
    after: AppState,
    r: Option<Save>,
    record: DeviceRecordModel,
    route: RouteModel,
    status: SmartShiftStatus,
)
    requires
        record.route == Some(route),
        edits(
            before,
            true,
            with_device(
                before.deep_view(),
                record.config_key,
                DeviceConfigModel {
                    smartshift: Some(status),
                    ..row_of(before.deep_view().config, record.config_key)
                },
            ),
            SaveModel {
                reload: true,
                then_do: ThenModel::SmartShift(record.config_key, record.route, status),
            },
            after,
            r,
        ),
    ensures
        ({
            let m = before.deep_view();
            let now = after.deep_view();
            let written = match r {
                Some(save) => landed(now, save.deep_view()),
                None => now,
            };
            &&& r is Some <==> m.config_persistence == ConfigPersistence::UserFile
            &&& r is Some ==> now.outbox == m.outbox
            &&& !(m.config_persistence is ReadOnly) ==> {
                &&& now.config.devices.contains_key(record.config_key)
                &&& now.config.devices[record.config_key].smartshift == Some(status)
                &&& written.persisted_config.devices[record.config_key].smartshift == Some(status)
                &&& written.outbox == m.outbox.push(CommandModel::ReloadConfig).push(
                    CommandModel::SetSmartShift(route, status),
                )
                &&& written.smartshift_reads.by_device[record.config_key] == LoadModel::Ready(
                    status,
                )
                &&& applying(written, record.config_key) == Some(m.next_smartshift_write_id)
                &&& ui_of(written, record.config_key).smartshift_pending_confirm == Some(
                    m.next_smartshift_write_id,
                )
            }
            &&& m.config_persistence is ReadOnly ==> now.outbox == m.outbox && now.config
                == m.persisted_config
        }),
{
}

/// The first read of the selected device is asked for exactly when nothing is
/// recorded of it and it can be reached, over its own route; from then on it counts
/// as being read and is not asked for again. Nothing else changes.
pub proof fn the_selected_device_is_read_once(m: StateModel)
    ensures
        ({
            let after = read_begun(m);
            &&& wanted_read(m) is Some <==> {
                &&& m.devices.selected is Some
                &&& m.devices.selected->0 < m.devices.records.len()
                &&& !m.smartshift_reads.by_device.contains_key(
                    m.devices.records[m.devices.selected->0 as int].config_key,
                )
                &&& m.devices.records[m.devices.selected->0 as int].route is Some
            }
            &&& wanted_read(m) matches Some(read) ==> {
                let record = m.devices.records[m.devices.selected->0 as int];
                &&& read.key == record.config_key
                &&& Some(read.route) == record.route
                &&& read.first
                &&& read.write_id == applying(m, read.key)
                &&& after.smartshift_reads.by_device.contains_key(read.key)
                &&& after.smartshift_reads.by_device[read.key] is Loading
                &&& after.smartshift_reads.by_device.remove(read.key)
                    == m.smartshift_reads.by_device.remove(read.key)
                &&& after.smartshift_reads.attempts == m.smartshift_reads.attempts
            }
            &&& wanted_read(after) is None
            &&& wanted_read(m) is None ==> after == m
            &&& after == (StateModel { smartshift_reads: after.smartshift_reads, ..m })
        }),
{
    if let Some(read) = wanted_read(m) {
        assert(read_begun(m).smartshift_reads.by_device.remove(read.key)
            =~= m.smartshift_reads.by_device.remove(read.key));
    }
}

/// The confirming read that is handed out is that of the write that waits on the
/// selected device, over its route. Handing it out changes nothing but that.
pub proof fn the_confirming_read_is_that_of_the_write(m: StateModel)
    ensures
        ({
            let after = confirm_taken(m);
            &&& wanted_confirm(m) matches Some(read) ==> {
                let record = m.devices.records[m.devices.selected->0 as int];
                &&& current_of(m.devices) == Some(record)
                &&& read.key == record.config_key
                &&& Some(read.route) == record.route
                &&& read.write_id is Some
                &&& read.write_id == m.devices.runtime[read.key].smartshift_pending_confirm
                &&& !read.first
                &&& after.devices.runtime[read.key] == (DeviceUiStateModel {
                    smartshift_pending_confirm: None,
                    ..m.devices.runtime[read.key]
                })
                &&& after.devices.runtime.remove(read.key) == m.devices.runtime.remove(read.key)
            }
            &&& (current_of(m.devices) matches Some(record) && record.route is Some
                && m.devices.runtime.contains_key(record.config_key)
                && m.devices.runtime[record.config_key].smartshift_pending_confirm is Some)
                ==> wanted_confirm(m) is Some
            &&& wanted_confirm(m) is None ==> after == m
            &&& after == (StateModel { devices: after.devices, ..m })
            &&& after.devices.records == m.devices.records
            &&& after.devices.selected == m.devices.selected
        }),
{
    if let Some(read) = wanted_confirm(m) {
        assert(confirm_taken(m).devices.runtime.remove(read.key) =~= m.devices.runtime.remove(
            read.key,
        ));
    }
}

/// A reading that belongs to what is going on is shown as it came while the device
/// is on the route that was read. Where no write is being applied, it settles none.
pub proof fn a_reading_is_shown(
    m: StateModel,
    key: Seq<char>,
    route: RouteModel,
    write_id: Option<u64>,
    status: SmartShiftStatus,
    other: Seq<char>,
)
    requires
        write_id == applying(m, key),
        is_on_route(m.devices.records, key, route),
    ensures
        ({
            let after = reading_stored(m, key, route, write_id, ReadEnd::Value(status));
            &&& load_of(after.smartshift_reads, key) == LoadModel::Ready(status)
            &&& other != key ==> load_of(after.smartshift_reads, other) == load_of(
                m.smartshift_reads,
                other,
            ) && ui_of(after, other) == ui_of(m, other)
            &&& applying(m, key) is None ==> ui_of(after, key) == ui_of(m, key)
            &&& applying(m, key) is Some ==> applying(after, key) is None
            &&& after.outbox == m.outbox && after.config == m.config
        }),
{
}

/// A confirming read that never came back fails the write that it was for, and no
/// other; a first read that never came back leaves the device to be read again.
pub proof fn a_lost_reply_fails_its_own_write(m: StateModel, read: ReadModel)
    ensures
        ({
            let after = reply_lost(m, read);
            &&& !read.first && read.write_id is Some && applying(m, read.key) == read.write_id
                ==> ui_of(after, read.key).smartshift_write_status == Some(
                SmartShiftWriteStatus::Failed,
            )
            &&& !read.first && applying(m, read.key) != read.write_id ==> after == m
            &&& read.first ==> {
                &&& !(load_of(after.smartshift_reads, read.key) is Loading)
                &&& !(load_of(m.smartshift_reads, read.key) is Loading) ==> after == m
                &&& after.devices == m.devices
            }
        }),
{
}

/// A device that is to be read anew is forgotten with how the last write to it
/// ended, and whatever else is known of it stays.
pub proof fn a_retry_forgets_the_last_write(m: StateModel, key: Seq<char>, other: Seq<char>)
    ensures
        ({
            let after = retried(m, key);
            &&& !after.smartshift_reads.by_device.contains_key(key)
            &&& ui_of(after, key).smartshift_write_status is None
            &&& ui_of(after, key).inventory_misses == ui_of(m, key).inventory_misses
            &&& ui_of(after, key).smartshift_pending_confirm == ui_of(
                m,
                key,
            ).smartshift_pending_confirm
            &&& other != key ==> ui_of(after, other) == ui_of(m, other) && load_of(
                after.smartshift_reads,
                other,
            ) == load_of(m.smartshift_reads, other)
        }),
{
}

/// A device that was read without an end is read again at once exactly while it is the
/// selected one.
pub proof fn the_selected_device_is_read_again(m: StateModel, key: Seq<char>)
    ensures
        reads_again(m, key) <==> !m.smartshift_reads.by_device.contains_key(key) && (current_of(
            m.devices,
        ) matches Some(record) && record.config_key == key),
        applying(m, key) matches Some(id) ==> m.devices.runtime.contains_key(key) && (
        m.devices.runtime[key].smartshift_write_status matches Some(
            SmartShiftWriteStatus::Applying { write_id, .. },
        ) && write_id == id),
        (m.devices.runtime.contains_key(key) && (
        m.devices.runtime[key].smartshift_write_status matches Some(
            SmartShiftWriteStatus::Applying { .. },
        ))) ==> applying(m, key) is Some,
        is_present(m.devices.records, key) <==> exists|i: int|
            0 <= i < m.devices.records.len() && (#[trigger] m.devices.records[i]).config_key == key,
{
}

/// A reading that failed in passing leaves a write to be confirmed by the next one; one
/// over a route that the device has left shows nothing.
pub proof fn a_passing_failure_settles_nothing(
    m: StateModel,
    key: Seq<char>,
    route: RouteModel,
    message: Seq<char>,
    end: ReadEnd<SmartShiftStatus>,
)
    requires
        applying(m, key) is Some,
    ensures
        ({
            let id = applying(m, key);
            let failed = reading_stored(m, key, route, id, ReadEnd::Transient(message));
            let moved = reading_stored(m, key, route, id, end);
            &&& is_on_route(m.devices.records, key, route) && !m.smartshift_reads.attempts.contains_key(
                key,
            ) ==> applying(failed, key) == id && !failed.smartshift_reads.by_device.contains_key(
                key,
            )
            &&& !is_on_route(m.devices.records, key, route) && is_present(m.devices.records, key)
                ==> applying(moved, key) == id && !moved.smartshift_reads.by_device.contains_key(
                key,
            )
        }),
{
}

} // verus!
