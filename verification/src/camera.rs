//! Settings of cameras.

use vstd::prelude::*;

use crate::config::{row_of, with_row, ConfigModel, DeviceConfig, DeviceConfigModel};
use crate::device::DeviceKind;
use crate::keyed::Table;
use crate::settings::{device_row, edits, with_device};
use crate::state::{overlay, quiet, AppState, Save, StateModel};
use crate::text::concat;

verus! {

/// Whether anything is kept for a camera.
pub open spec fn has_settings(row: DeviceConfigModel) -> bool {
    row.camera_controls is Some || row.camera_profiles != Map::<Seq<char>, Map<Seq<char>, i32>>::empty()
        || row.camera_active_profile is Some
}

/// The key under which a camera was kept by the port it is on.
pub open spec fn port_key(capture_id: Seq<char>) -> Seq<char> {
    "camera-"@ + capture_id
}

/// Whether what is kept under the key of a port moves to the key of the camera:
/// where the camera has nothing of its own, and the port has.
pub open spec fn migrates(config: ConfigModel, key: Seq<char>, capture_id: Seq<char>) -> bool {
    &&& !has_settings(row_of(config, key))
    &&& port_key(capture_id) != key
    &&& has_settings(row_of(config, port_key(capture_id)))
}

/// A row with what is kept for another camera.
pub open spec fn with_camera(row: DeviceConfigModel, from: DeviceConfigModel) -> DeviceConfigModel {
    DeviceConfigModel {
        camera_controls: from.camera_controls,
        camera_profiles: row.camera_profiles.union_prefer_right(from.camera_profiles),
        camera_active_profile: from.camera_active_profile,
        ..row
    }
}

/// The configuration once what was kept under the key of a port has moved.
pub open spec fn migrated(config: ConfigModel, key: Seq<char>, capture_id: Seq<char>) -> ConfigModel {
    let port = port_key(capture_id);
    let moved = with_row(config, key, with_camera(row_of(config, key), row_of(config, port)));
    ConfigModel { devices: moved.devices.remove(port), ..moved }
}

/// A set of controls with one more.
pub open spec fn with_control(
    row: DeviceConfigModel,
    name: Seq<char>,
    value: i32,
) -> DeviceConfigModel {
    DeviceConfigModel {
        camera_controls: Some(
            match row.camera_controls {
                Some(controls) => controls.insert(name, value),
                None => Map::empty().insert(name, value),
            },
        ),
        ..row
    }
}

/// The value of a control, if it is kept.
pub open spec fn control_of(row: DeviceConfigModel, name: Seq<char>) -> Option<i32> {
    match row.camera_controls {
        Some(controls) => if controls.contains_key(name) {
            Some(controls[name])
        } else {
            None
        },
        None => None,
    }
}

/// Whether anything is kept for a camera.
fn row_has_settings(row: &DeviceConfig) -> (r: bool)
    ensures
        r == has_settings(row.deep_view()),
{
    let count = row.camera_profiles.len();
    proof {
        let profiles = row.deep_view().camera_profiles;
        if count == 0 {
            assert(profiles.dom() =~= Set::empty());
            assert(profiles =~= Map::empty());
        } else {
            assert(profiles.len() > 0);
            assert(Map::<Seq<char>, Map<Seq<char>, i32>>::empty().len() == 0);
        }
    }
    row.camera_controls.is_some() || count > 0 || row.camera_active_profile.is_some()
}

impl AppState {
    /// Whether any device is a camera.
    pub fn has_camera(&self) -> (r: bool)
        ensures
            r <==> exists|i: int|
                0 <= i < self.deep_view().devices.records.len() && (
                #[trigger] self.deep_view().devices.records[i]).kind == DeviceKind::Camera,
    {
        let mut i: usize = 0;
        while i < self.devices.records.len()
            invariant
                i <= self.devices.records@.len(),
                forall|k: int|
                    0 <= k < i ==> (#[trigger] self.devices.records@[k]).kind
                        != DeviceKind::Camera,
            decreases self.devices.records@.len() - i,
        {
            if self.devices.records[i].kind == DeviceKind::Camera {
                proof {
                    assert(self.deep_view().devices.records[i as int].kind
                        == DeviceKind::Camera);
                }
                return true;
            }
            i = i + 1;
        }
        proof {
            assert forall|k: int|
                0 <= k < self.deep_view().devices.records.len() implies (
            #[trigger] self.deep_view().devices.records[k]).kind != DeviceKind::Camera by {
                assert(self.devices.records@[k].deep_view()
                    == self.deep_view().devices.records[k]);
            }
        }
        false
    }

    /// The value of a control of a camera, if it is kept.
    pub fn camera_control(&self, config_key: &String, name: &String) -> (r: Option<i32>)
        ensures
            r == control_of(device_row(*self, config_key@), name@),
    {
        match self.config.camera_controls(config_key) {
            Some(controls) => match controls.get(name) {
                Some(value) => Some(*value),
                None => None,
            },
            None => None,
        }
    }

    /// Whether a camera does something by itself, if that is kept.
    pub fn camera_auto(&self, config_key: &String, name: &String) -> (r: Option<bool>)
        ensures
            r == match control_of(device_row(*self, config_key@), name@) {
                Some(value) => Some(value != 0),
                None => None,
            },
    {
        match self.camera_control(config_key, name) {
            Some(value) => Some(value != 0),
            None => None,
        }
    }

    /// Keep the value of a control of a camera.
    pub fn commit_camera_control(&mut self, config_key: &String, name: &String, value: i32) -> (r: Option<
        Save,
    >)
        ensures
            edits(
                *old(self),
                true,
                with_device(
                    old(self).deep_view(),
                    config_key@,
                    with_control(device_row(*old(self), config_key@), name@, value),
                ),
                quiet(),
                *final(self),
                r,
            ),
    {
        let mut controls = match self.config.camera_controls(config_key) {
            Some(controls) => controls,
            None => Table::new(),
        };
        controls.insert(name.clone(), value);
        self.config.set_camera_controls(config_key, controls);
        self.persist_config()
    }

    /// Keep whether a camera does something by itself.
    pub fn commit_camera_auto(&mut self, config_key: &String, name: &String, on: bool) -> (r: Option<
        Save,
    >)
        ensures
            edits(
                *old(self),
                true,
                with_device(
                    old(self).deep_view(),
                    config_key@,
                    with_control(
                        device_row(*old(self), config_key@),
                        name@,
                        if on {
                            1
                        } else {
                            0
                        },
                    ),
                ),
                quiet(),
                *final(self),
                r,
            ),
    {
        let value: i32 = if on {
            1
        } else {
            0
        };
        self.commit_camera_control(config_key, name, value)
    }

    /// Move what is kept under the key of a port to the key of the camera. What
    /// the camera has of its own is never replaced.
    pub fn migrate_legacy_camera_key(&mut self, config_key: &String, capture_id: &String) -> (r: Option<
        Save,
    >)
        ensures
            edits(
                *old(self),
                migrates(old(self).deep_view().config, config_key@, capture_id@),
                StateModel {
                    config: migrated(old(self).deep_view().config, config_key@, capture_id@),
                    ..old(self).deep_view()
                },
                quiet(),
                *final(self),
                r,
            ),
    {
        let mut row = self.config.row(config_key);
        if row_has_settings(&row) {
            return None;
        }
        let port = concat("camera-", capture_id.as_str());
        if port == *config_key {
            return None;
        }
        let from = self.config.row(&port);
        if !row_has_settings(&from) {
            return None;
        }
        let ghost own = row.deep_view();
        let ghost theirs = from.deep_view();
        row.camera_controls = from.camera_controls;
        row.camera_profiles = overlay(row.camera_profiles, &from.camera_profiles);
        row.camera_active_profile = from.camera_active_profile;
        self.config.put_row(config_key, row);
        self.config.devices.remove(&port);
        self.persist_config()
    }

    /// The profiles kept for a camera, by name.
    pub fn camera_profiles(&self, config_key: &String) -> (r: Table<String, Table<String, i32>>)
        ensures
            r.deep_view() == device_row(*self, config_key@).camera_profiles,
    {
        self.config.row(config_key).camera_profiles
    }

    /// Keep a profile of a camera.
    pub fn save_camera_profile(
        &mut self,
        config_key: &String,
        name: &String,
        controls: Table<String, i32>,
    ) -> (r: Option<Save>)
        ensures
            edits(
                *old(self),
                true,
                with_device(
                    old(self).deep_view(),
                    config_key@,
                    DeviceConfigModel {
                        camera_profiles: device_row(
                            *old(self),
                            config_key@,
                        ).camera_profiles.insert(name@, controls.deep_view()),
                        ..device_row(*old(self), config_key@)
                    },
                ),
                quiet(),
                *final(self),
                r,
            ),
    {
        let mut row = self.config.row(config_key);
        row.camera_profiles.insert(name.clone(), controls);
        self.config.put_row(config_key, row);
        self.persist_config()
    }

    /// Drop a profile of a camera.
    pub fn delete_camera_profile(&mut self, config_key: &String, name: &String) -> (r: Option<Save>)
        ensures
            edits(
                *old(self),
                true,
                with_device(
                    old(self).deep_view(),
                    config_key@,
                    DeviceConfigModel {
                        camera_profiles: device_row(
                            *old(self),
                            config_key@,
                        ).camera_profiles.remove(name@),
                        ..device_row(*old(self), config_key@)
                    },
                ),
                quiet(),
                *final(self),
                r,
            ),
    {
        let mut row = self.config.row(config_key);
        row.camera_profiles.remove(name);
        self.config.put_row(config_key, row);
        self.persist_config()
    }

    /// The profile that a camera was last set to, if any.
    pub fn camera_active_profile(&self, config_key: &String) -> (r: Option<String>)
        ensures
            r.deep_view() == device_row(*self, config_key@).camera_active_profile,
    {
        self.config.row(config_key).camera_active_profile
    }

    /// Keep which profile a camera was last set to.
    pub fn set_camera_active_profile(&mut self, config_key: &String, name: Option<String>) -> (r: Option<
        Save,
    >)
        ensures
            edits(
                *old(self),
                true,
                with_device(
                    old(self).deep_view(),
                    config_key@,
                    DeviceConfigModel {
                        camera_active_profile: name.deep_view(),
                        ..device_row(*old(self), config_key@)
                    },
                ),
                quiet(),
                *final(self),
                r,
            ),
    {
        let mut row = self.config.row(config_key);
        row.camera_active_profile = name;
        self.config.put_row(config_key, row);
        self.persist_config()
    }
}

/// How often it is looked whether cameras may be used, in milliseconds.
pub const PERMISSION_TICK_MS: u64 = 250;

/// How many times it is looked before giving up: for ten minutes.
pub const PERMISSION_TICKS_MAX: u32 = 2400;

/// Looking whether cameras may be used, once that was asked for.
#[derive(Clone, Copy, Debug, PartialEq, Eq, Structural)]
pub struct PermissionPoll {
    /// How many times it was looked.
    pub ticks: u32,
    /// Whether there is an answer, or none is expected any more.
    pub done: bool,
}

/// Looking after permission was asked for once more: one that is under way goes
/// on.
pub open spec fn poll_after_request(poll: Option<PermissionPoll>) -> PermissionPoll {
    if poll is Some && !poll->0.done {
        poll->0
    } else {
        PermissionPoll { ticks: 0, done: false }
    }
}

/// Looking after it was looked once more.
pub open spec fn poll_after_tick(poll: PermissionPoll, undetermined: bool) -> PermissionPoll {
    if poll.done {
        poll
    } else {
        let ticks = if poll.ticks < PERMISSION_TICKS_MAX {
            (poll.ticks + 1) as u32
        } else {
            poll.ticks
        };
        PermissionPoll { ticks, done: !undetermined || ticks >= PERMISSION_TICKS_MAX }
    }
}

/// A look-out for permission ends: every look without an answer brings its end
/// nearer.
pub proof fn a_look_out_ends(poll: PermissionPoll)
    requires
        !poll.done,
        poll.ticks < PERMISSION_TICKS_MAX,
    ensures
        poll_after_tick(poll, false).done,
        poll_after_tick(poll, true).done || poll_after_tick(poll, true).ticks == poll.ticks + 1,
        poll_after_tick(poll, true).done <==> poll.ticks + 1 == PERMISSION_TICKS_MAX,
{
}

impl PermissionPoll {
    /// Ask for permission. A look-out that is under way goes on.
    pub fn request(poll: Option<PermissionPoll>) -> (r: PermissionPoll)
        ensures
            r == poll_after_request(poll),
    {
        match poll {
            Some(poll) => if !poll.done {
                poll
            } else {
                PermissionPoll { ticks: 0, done: false }
            },
            None => PermissionPoll { ticks: 0, done: false },
        }
    }

    /// Look whether there is an answer, saying whether this was the last time.
    pub fn tick(&mut self, undetermined: bool) -> (r: bool)
        ensures
            *final(self) == poll_after_tick(*old(self), undetermined),
            r == final(self).done,
    {
        if !self.done {
            if self.ticks < PERMISSION_TICKS_MAX {
                self.ticks = self.ticks + 1;
            }
            self.done = !undetermined || self.ticks >= PERMISSION_TICKS_MAX;
        }
        self.done
    }
}

/// Moving what is kept for a camera loses nothing and is done once: the camera
/// then has it, the port has nothing, and nothing moves any more.
pub proof fn a_migration_is_done_once(config: ConfigModel, key: Seq<char>, capture_id: Seq<char>)
    requires
        migrates(config, key, capture_id),
    ensures
        ({
            let after = migrated(config, key, capture_id);
            let from = row_of(config, port_key(capture_id));
            &&& row_of(after, key).camera_controls == from.camera_controls
            &&& row_of(after, key).camera_profiles == from.camera_profiles
            &&& row_of(after, key).camera_active_profile == from.camera_active_profile
            &&& !after.devices.contains_key(port_key(capture_id))
            &&& !migrates(after, key, capture_id)
        }),
{
    let after = migrated(config, key, capture_id);
    let from = row_of(config, port_key(capture_id));
    assert(row_of(config, key).camera_profiles.union_prefer_right(from.camera_profiles)
        =~= from.camera_profiles);
    assert(row_of(after, key) == with_camera(row_of(config, key), from));
}

/// A control that was set is read back, and the others stay as they were.
pub proof fn a_control_reads_back(
    row: DeviceConfigModel,
    name: Seq<char>,
    value: i32,
    other: Seq<char>,
)
    ensures
        control_of(with_control(row, name, value), name) == Some(value),
        other != name ==> control_of(with_control(row, name, value), other) == control_of(
            row,
            other,
        ),
        with_control(row, name, value) == (DeviceConfigModel {
            camera_controls: with_control(row, name, value).camera_controls,
            ..row
        }),
        row.camera_controls is None ==> control_of(row, other) is None,
{
}

/// A camera has settings where it has controls, profiles, or an active one. What an
/// earlier version kept for its port moves to it only while it has none of its own,
/// and nothing else is touched.
pub proof fn only_a_camera_without_settings_takes_over(
    config: ConfigModel,
    key: Seq<char>,
    capture_id: Seq<char>,
    other: Seq<char>,
)
    ensures
        migrates(config, key, capture_id) ==> {
            let own = row_of(config, key);
            &&& own.camera_controls is None
            &&& own.camera_profiles.dom() == Set::<Seq<char>>::empty()
            &&& own.camera_active_profile is None
            &&& has_settings(row_of(config, "camera-"@ + capture_id))
            &&& "camera-"@ + capture_id != key
        },
        row_of(config, key).camera_controls is Some ==> !migrates(config, key, capture_id),
        row_of(config, key).camera_active_profile is Some ==> !migrates(config, key, capture_id),
        other != key && other != "camera-"@ + capture_id ==> row_of(
            migrated(config, key, capture_id),
            other,
        ) == row_of(config, other),
        "camera-"@ + capture_id != key ==> {
            let row = row_of(migrated(config, key, capture_id), key);
            row == (DeviceConfigModel {
                camera_controls: row.camera_controls,
                camera_profiles: row.camera_profiles,
                camera_active_profile: row.camera_active_profile,
                ..row_of(config, key)
            })
        },
        migrated(config, key, capture_id) == (ConfigModel {
            devices: migrated(config, key, capture_id).devices,
            ..config
        }),
{
    if migrates(config, key, capture_id) {
        assert(row_of(config, key).camera_profiles.dom() =~= Set::<Seq<char>>::empty());
    }
}

/// A look-out that is going on goes on when it is asked for again, and one that ended
/// begins anew. It ends with an answer, and after ten minutes without one.
pub proof fn a_look_out_waits_for_an_answer(poll: PermissionPoll, undetermined: bool)
    ensures
        !poll.done ==> poll_after_request(Some(poll)) == poll,
        poll.done ==> poll_after_request(Some(poll)) == (PermissionPoll { ticks: 0, done: false }),
        poll_after_request(None) == (PermissionPoll { ticks: 0, done: false }),
        poll.done ==> poll_after_tick(poll, undetermined) == poll,
        !poll.done && !undetermined ==> poll_after_tick(poll, undetermined).done,
        !poll.done && undetermined && poll.ticks < 2399 ==> !poll_after_tick(
            poll,
            undetermined,
        ).done,
        !poll.done && poll.ticks >= 2399 ==> poll_after_tick(poll, undetermined).done,
{
}

} // verus!
