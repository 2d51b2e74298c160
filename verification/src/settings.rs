//! Settings of the application and of its devices.

use vstd::prelude::*;

use crate::action::Action;
use crate::config::{
    effective_lighting, row_of, with_row, ActionRingConfig, ActionRingConfigModel, Appearance,
    AppSettings, AppSettingsModel, AssetSourcePreference, Config, ConfigModel, DeviceConfigModel,
    DeviceViewMode, Lighting, RingSlotConfig, RingSlotConfigModel, ScrollResolution,
};
use crate::data::Data;
use crate::device::DeviceRoute;
use crate::ring::ActionRingSlot;
use crate::state::{
    current_key, current_of, persisted, quiet, reloading, to_write, AppState, Command,
    CommandModel, ConfigPersistence, Save, SaveModel, StateModel, Then, ThenModel,
};

verus! {

/// What an edit comes to: where it changes something, the edited state is kept,
/// and otherwise nothing happens.
pub open spec fn edits(
    before: AppState,
    changes: bool,
    edited: StateModel,
    save: SaveModel,
    after: AppState,
    r: Option<Save>,
) -> bool {
    if changes {
        &&& after.deep_view() == persisted(edited, save)
        &&& r.deep_view() == to_write(edited, save)
    } else {
        after.deep_view() == before.deep_view() && r is None
    }
}

/// The settings of the application.
pub open spec fn settings_of(state: AppState) -> AppSettingsModel {
    state.deep_view().config.app_settings
}

/// The state with other settings of the application.
pub open spec fn with_settings(m: StateModel, settings: AppSettingsModel) -> StateModel {
    StateModel { config: ConfigModel { app_settings: settings, ..m.config }, ..m }
}

/// The state with other settings of a device.
pub open spec fn with_device(m: StateModel, key: Seq<char>, row: DeviceConfigModel) -> StateModel {
    StateModel { config: with_row(m.config, key, row), ..m }
}

/// The row of a device.
pub open spec fn device_row(state: AppState, key: Seq<char>) -> DeviceConfigModel {
    row_of(state.deep_view().config, key)
}

impl AppState {
    /// The settings of the application.
    pub fn app_settings(&self) -> (r: &AppSettings)
        ensures
            *r == self.config.app_settings,
    {
        &self.config.app_settings
    }

    /// The chosen language, or `None` to follow the system.
    pub fn language(&self) -> (r: Option<&String>)
        ensures
            r.deep_view() == settings_of(*self).language,
    {
        match &self.config.app_settings.language {
            Some(language) => Some(language),
            None => None,
        }
    }

    /// Have the application start at login, or not. The agent sees to it.
    pub fn set_launch_at_login(&mut self, enabled: bool) -> (r: Option<Save>)
        ensures
            edits(
                *old(self),
                settings_of(*old(self)).launch_at_login != enabled,
                with_settings(
                    old(self).deep_view(),
                    AppSettingsModel { launch_at_login: enabled, ..settings_of(*old(self)) },
                ),
                reloading(),
                *final(self),
                r,
            ),
    {
        if self.config.app_settings.launch_at_login == enabled {
            return None;
        }
        self.config.app_settings.launch_at_login = enabled;
        self.persist_and_reload()
    }

    /// Show the application in the menu bar, or not. The agent sees to it.
    pub fn set_show_in_menu_bar(&mut self, enabled: bool) -> (r: Option<Save>)
        ensures
            edits(
                *old(self),
                settings_of(*old(self)).show_in_menu_bar != enabled,
                with_settings(
                    old(self).deep_view(),
                    AppSettingsModel { show_in_menu_bar: enabled, ..settings_of(*old(self)) },
                ),
                reloading(),
                *final(self),
                r,
            ),
    {
        if self.config.app_settings.show_in_menu_bar == enabled {
            return None;
        }
        self.config.app_settings.show_in_menu_bar = enabled;
        self.persist_and_reload()
    }

    /// Look for updates at the start, or not.
    pub fn set_check_for_updates(&mut self, enabled: bool) -> (r: Option<Save>)
        ensures
            edits(
                *old(self),
                settings_of(*old(self)).check_for_updates != enabled,
                with_settings(
                    old(self).deep_view(),
                    AppSettingsModel { check_for_updates: enabled, ..settings_of(*old(self)) },
                ),
                quiet(),
                *final(self),
                r,
            ),
    {
        if self.config.app_settings.check_for_updates == enabled {
            return None;
        }
        self.config.app_settings.check_for_updates = enabled;
        self.persist_config()
    }

    /// Install updates as they are found, or not.
    pub fn set_auto_install_updates(&mut self, enabled: bool) -> (r: Option<Save>)
        ensures
            edits(
                *old(self),
                settings_of(*old(self)).auto_install_updates != enabled,
                with_settings(
                    old(self).deep_view(),
                    AppSettingsModel { auto_install_updates: enabled, ..settings_of(*old(self)) },
                ),
                quiet(),
                *final(self),
                r,
            ),
    {
        if self.config.app_settings.auto_install_updates == enabled {
            return None;
        }
        self.config.app_settings.auto_install_updates = enabled;
        self.persist_config()
    }

    /// Be light or dark.
    pub fn set_appearance(&mut self, appearance: Appearance) -> (r: Option<Save>)
        ensures
            edits(
                *old(self),
                settings_of(*old(self)).appearance != appearance,
                with_settings(
                    old(self).deep_view(),
                    AppSettingsModel { appearance, ..settings_of(*old(self)) },
                ),
                quiet(),
                *final(self),
                r,
            ),
    {
        if self.config.app_settings.appearance == appearance {
            return None;
        }
        self.config.app_settings.appearance = appearance;
        self.persist_config()
    }

    /// Round corners by so much, or as the theme does.
    pub fn set_ui_radius(&mut self, radius: Option<u8>) -> (r: Option<Save>)
        ensures
            edits(
                *old(self),
                settings_of(*old(self)).ui_radius != radius,
                with_settings(
                    old(self).deep_view(),
                    AppSettingsModel { ui_radius: radius, ..settings_of(*old(self)) },
                ),
                quiet(),
                *final(self),
                r,
            ),
    {
        if self.config.app_settings.ui_radius.same(&radius) {
            return None;
        }
        self.config.app_settings.ui_radius = radius;
        self.persist_config()
    }

    /// Have thumb wheels turn at this speed where a device has none of its own.
    pub fn set_thumbwheel_sensitivity(&mut self, sensitivity: u32) -> (r: Option<Save>)
        ensures
            edits(
                *old(self),
                settings_of(*old(self)).thumbwheel_sensitivity != sensitivity,
                with_settings(
                    old(self).deep_view(),
                    AppSettingsModel { thumbwheel_sensitivity: sensitivity, ..settings_of(*old(self)) },
                ),
                reloading(),
                *final(self),
                r,
            ),
    {
        if self.config.app_settings.thumbwheel_sensitivity == sensitivity {
            return None;
        }
        self.config.app_settings.thumbwheel_sensitivity = sensitivity;
        self.persist_and_reload()
    }

    /// Fetch artwork as it is needed, or not.
    pub fn set_auto_download_assets(&mut self, enabled: bool) -> (r: Option<Save>)
        ensures
            edits(
                *old(self),
                settings_of(*old(self)).auto_download_assets != enabled,
                with_settings(
                    old(self).deep_view(),
                    AppSettingsModel { auto_download_assets: enabled, ..settings_of(*old(self)) },
                ),
                quiet(),
                *final(self),
                r,
            ),
    {
        if self.config.app_settings.auto_download_assets == enabled {
            return None;
        }
        self.config.app_settings.auto_download_assets = enabled;
        self.persist_config()
    }

    /// Fetch artwork from there.
    pub fn set_asset_source(&mut self, source: AssetSourcePreference) -> (r: Option<Save>)
        ensures
            edits(
                *old(self),
                settings_of(*old(self)).asset_source != source,
                with_settings(
                    old(self).deep_view(),
                    AppSettingsModel { asset_source: source, ..settings_of(*old(self)) },
                ),
                quiet(),
                *final(self),
                r,
            ),
    {
        if self.config.app_settings.asset_source == source {
            return None;
        }
        self.config.app_settings.asset_source = source;
        self.persist_config()
    }

    /// Lay the devices out that way.
    pub fn set_device_view_mode(&mut self, mode: DeviceViewMode) -> (r: Option<Save>)
        ensures
            edits(
                *old(self),
                settings_of(*old(self)).device_view_mode != mode,
                with_settings(
                    old(self).deep_view(),
                    AppSettingsModel { device_view_mode: mode, ..settings_of(*old(self)) },
                ),
                quiet(),
                *final(self),
                r,
            ),
    {
        if self.config.app_settings.device_view_mode == mode {
            return None;
        }
        self.config.app_settings.device_view_mode = mode;
        self.persist_config()
    }

    /// Use a theme while light or while dark, or that of the application.
    pub fn set_theme(&mut self, dark: bool, name: Option<String>) -> (r: Option<Save>)
        ensures
            edits(
                *old(self),
                (if dark {
                    settings_of(*old(self)).theme_dark
                } else {
                    settings_of(*old(self)).theme_light
                }) != name.deep_view(),
                with_settings(
                    old(self).deep_view(),
                    if dark {
                        AppSettingsModel {
                            theme_dark: name.deep_view(),
                            ..settings_of(*old(self))
                        }
                    } else {
                        AppSettingsModel {
                            theme_light: name.deep_view(),
                            ..settings_of(*old(self))
                        }
                    },
                ),
                quiet(),
                *final(self),
                r,
            ),
    {
        if dark {
            if self.config.app_settings.theme_dark.same(&name) {
                return None;
            }
            self.config.app_settings.theme_dark = name;
        } else {
            if self.config.app_settings.theme_light.same(&name) {
                return None;
            }
            self.config.app_settings.theme_light = name;
        }
        self.persist_config()
    }

    /// Wear an icon. Only one that is kept is worn, so that what is shown never
    /// outlives the choice; the agent hears of it too.
    pub fn set_app_icon(&mut self, icon: String) -> (r: Option<Save>)
        ensures
            edits(
                *old(self),
                settings_of(*old(self)).app_icon != icon@,
                with_settings(
                    old(self).deep_view(),
                    AppSettingsModel { app_icon: icon@, ..settings_of(*old(self)) },
                ),
                SaveModel {
                    reload: true,
                    then_do: ThenModel::Send(CommandModel::ApplyAppIcon(icon@)),
                },
                *final(self),
                r,
            ),
    {
        if self.config.app_settings.app_icon == icon {
            return None;
        }
        self.config.app_settings.app_icon = icon.clone();
        self.persist(Save { reload: true, then_do: Then::Send(Command::ApplyAppIcon(icon)) })
    }

    /// Use a language, or follow the system.
    pub fn set_language(&mut self, language: Option<String>) -> (r: Option<Save>)
        ensures
            edits(
                *old(self),
                settings_of(*old(self)).language != language.deep_view(),
                with_settings(
                    old(self).deep_view(),
                    AppSettingsModel {
                        language: language.deep_view(),
                        ..settings_of(*old(self))
                    },
                ),
                quiet(),
                *final(self),
                r,
            ),
    {
        if self.config.app_settings.language.same(&language) {
            return None;
        }
        self.config.app_settings.language = language;
        self.persist_config()
    }

    /// Record the answer to whether to look for updates, which is asked once.
    pub fn record_update_consent(&mut self, enabled: bool) -> (r: Option<Save>)
        ensures
            edits(
                *old(self),
                true,
                with_settings(
                    old(self).deep_view(),
                    AppSettingsModel {
                        check_for_updates: enabled,
                        update_prompt_seen: true,
                        ..settings_of(*old(self))
                    },
                ),
                quiet(),
                *final(self),
                r,
            ),
    {
        self.config.app_settings.check_for_updates = enabled;
        self.config.app_settings.update_prompt_seen = true;
        self.persist_config()
    }

    /// Whether a device is managed at all.
    pub fn device_enabled(&self, key: &String) -> (r: bool)
        ensures
            r == device_row(*self, key@).enabled,
    {
        self.config.row(key).enabled
    }

    /// Manage a device, or leave it alone.
    pub fn set_device_enabled(&mut self, key: &String, enabled: bool) -> (r: Option<Save>)
        ensures
            edits(
                *old(self),
                device_row(*old(self), key@).enabled != enabled,
                with_device(
                    old(self).deep_view(),
                    key@,
                    DeviceConfigModel { enabled, ..device_row(*old(self), key@) },
                ),
                reloading(),
                *final(self),
                r,
            ),
    {
        let mut row = self.config.row(key);
        if row.enabled == enabled {
            return None;
        }
        row.enabled = enabled;
        self.config.put_row(key, row);
        self.persist_and_reload()
    }

    /// The speed of the thumb wheel of a device: its own, and otherwise that of
    /// the application.
    pub fn device_thumbwheel_sensitivity(&self, key: &String) -> (r: u32)
        ensures
            r == match device_row(*self, key@).thumbwheel_sensitivity {
                Some(own) => own,
                None => settings_of(*self).thumbwheel_sensitivity,
            },
    {
        self.config.thumbwheel_sensitivity(key)
    }

    /// Have the thumb wheel of a device turn at this speed. A device that is
    /// set to the speed of the application has none of its own.
    pub fn set_device_thumbwheel_sensitivity(&mut self, key: &String, sensitivity: u32) -> (r: Option<
        Save,
    >)
        ensures
            edits(
                *old(self),
                device_row(*old(self), key@).thumbwheel_sensitivity != own_sensitivity(
                    *old(self),
                    sensitivity,
                ),
                with_device(
                    old(self).deep_view(),
                    key@,
                    DeviceConfigModel {
                        thumbwheel_sensitivity: own_sensitivity(*old(self), sensitivity),
                        ..device_row(*old(self), key@)
                    },
                ),
                reloading(),
                *final(self),
                r,
            ),
    {
        let own = if sensitivity != self.config.app_settings.thumbwheel_sensitivity {
            Some(sensitivity)
        } else {
            None
        };
        let mut row = self.config.row(key);
        if row.thumbwheel_sensitivity.same(&own) {
            return None;
        }
        row.thumbwheel_sensitivity = own;
        self.config.put_row(key, row);
        self.persist_and_reload()
    }

    /// Whether the wheel of the selected device is inverted.
    pub fn current_invert_scroll(&self) -> (r: bool)
        ensures
            r == match current_key(self.deep_view()) {
                Some(key) => device_row(*self, key).invert_scroll,
                None => false,
            },
    {
        match self.current_config_key() {
            Some(key) => self.config.row(&key).invert_scroll,
            None => false,
        }
    }

    /// Whether the selected device can invert its wheel.
    pub fn current_scroll_inversion_supported(&self) -> (r: bool)
        ensures
            r == can_invert(self.deep_view()),
    {
        match self.current_record() {
            Some(record) => match record.capabilities {
                Some(capabilities) => capabilities.scroll_inversion,
                None => false,
            },
            None => false,
        }
    }

    /// Invert the wheel of the selected device, or not. Nothing changes on a
    /// device that cannot, or that keeps no settings.
    pub fn commit_invert_scroll(&mut self, invert: bool) -> (r: Option<Save>)
        ensures
            edits(
                *old(self),
                can_invert(old(self).deep_view()) && current_key(old(self).deep_view()) is Some,
                with_device(
                    old(self).deep_view(),
                    current_key(old(self).deep_view())->0,
                    DeviceConfigModel {
                        invert_scroll: invert,
                        ..device_row(*old(self), current_key(old(self).deep_view())->0)
                    },
                ),
                reloading(),
                *final(self),
                r,
            ),
    {
        if !self.current_scroll_inversion_supported() {
            return None;
        }
        match self.current_config_key() {
            None => None,
            Some(key) => {
                let mut row = self.config.row(&key);
                row.invert_scroll = invert;
                self.config.put_row(&key, row);
                self.persist_and_reload()
            },
        }
    }

    /// The resolution of the wheel of the selected device, if it is set.
    pub fn current_scroll_resolution(&self) -> (r: Option<ScrollResolution>)
        ensures
            r == match current_key(self.deep_view()) {
                Some(key) => device_row(*self, key).scroll_resolution,
                None => None,
            },
    {
        match self.current_config_key() {
            Some(key) => self.config.scroll_resolution(&key),
            None => None,
        }
    }

    /// Whether the selected device has a wheel of high resolution.
    pub fn current_hires_wheel_supported(&self) -> (r: bool)
        ensures
            r == has_hires_wheel(self.deep_view()),
    {
        match self.current_record() {
            Some(record) => match record.capabilities {
                Some(capabilities) => capabilities.hires_wheel,
                None => false,
            },
            None => false,
        }
    }

    /// Set the resolution of the wheel of the selected device, or leave it to
    /// the device. Nothing changes on a device without such a wheel, or that
    /// keeps no settings.
    pub fn commit_scroll_resolution(&mut self, resolution: Option<ScrollResolution>) -> (r: Option<
        Save,
    >)
        ensures
            edits(
                *old(self),
                has_hires_wheel(old(self).deep_view()) && current_key(old(self).deep_view())
                    is Some,
                with_device(
                    old(self).deep_view(),
                    current_key(old(self).deep_view())->0,
                    DeviceConfigModel {
                        scroll_resolution: resolution,
                        ..device_row(*old(self), current_key(old(self).deep_view())->0)
                    },
                ),
                reloading(),
                *final(self),
                r,
            ),
    {
        match self.current_config_key() {
            None => None,
            Some(key) => {
                let supported = self.current_hires_wheel_supported();
                if !set_scroll_resolution_if_supported(
                    &mut self.config,
                    &key,
                    supported,
                    resolution,
                ) {
                    return None;
                }
                self.persist_and_reload()
            },
        }
    }

    /// The lighting of a device on a link, if it is set. A device that is not
    /// told apart well enough to keep settings has none, whatever an earlier
    /// configuration holds for its key. `transient` says whether the key is one
    /// of a unit that was not read.
    pub fn lighting_for(&self, key: &String, route_key: &String, transient: bool) -> (r: Option<
        Lighting,
    >)
        ensures
            r == shown_lighting(self.deep_view(), key@, route_key@, transient),
    {
        if transient {
            return None;
        }
        let mut i: usize = 0;
        while i < self.devices.records.len()
            invariant
                i <= self.devices.records@.len(),
                forall|k: int|
                    0 <= k < i ==> !((#[trigger] self.devices.records@[k]).config_key@ == key@
                        && !self.devices.records@[k].persistent),
            decreases self.devices.records@.len() - i,
        {
            let record = &self.devices.records[i];
            if record.config_key == *key && !record.persistent {
                proof {
                    assert(self.deep_view().devices.records[i as int].config_key == key@);
                }
                return None;
            }
            i = i + 1;
        }
        proof {
            assert forall|k: int|
                0 <= k < self.deep_view().devices.records.len() implies !((
            #[trigger] self.deep_view().devices.records[k]).config_key == key@
                && !self.deep_view().devices.records[k].persistent) by {
                assert(self.devices.records@[k].deep_view()
                    == self.deep_view().devices.records[k]);
            }
        }
        match self.config.devices.get(key) {
            Some(row) => row.effective_lighting(route_key),
            None => None,
        }
    }

    /// The lighting of the selected device on its link, or the default when
    /// none is stored or no device is selected. `transient` says whether its key
    /// is one of a unit that was not read.
    pub fn lighting(&self, transient: bool) -> (r: Lighting)
        ensures
            r == active_lighting(self.deep_view(), transient),
    {
        let stored = match self.current_record() {
            Some(record) => match record.persistent_config_key() {
                Some(key) => self.lighting_for(key, &record.route_key, transient),
                None => None,
            },
            None => None,
        };
        match stored {
            Some(lighting) => lighting,
            None => self.defaults.lighting,
        }
    }

    /// Light the selected device. The agent hears of it once it is kept; a
    /// device that keeps no settings is lit all the same.
    pub fn commit_lighting(&mut self, lighting: Lighting) -> (r: Option<Save>)
        ensures
            match current_of(old(self).deep_view().devices) {
                None => final(self).deep_view() == old(self).deep_view() && r is None,
                Some(record) => {
                    let m = old(self).deep_view();
                    let light = match record.route {
                        Some(route) => ThenModel::Send(
                            CommandModel::SetLighting(route, lighting),
                        ),
                        None => ThenModel::Done,
                    };
                    if record.persistent {
                        edits(
                            *old(self),
                            true,
                            with_device(
                                m,
                                record.config_key,
                                DeviceConfigModel {
                                    lighting: Some(lighting),
                                    ..row_of(m.config, record.config_key)
                                },
                            ),
                            SaveModel { reload: true, then_do: light },
                            *final(self),
                            r,
                        )
                    } else {
                        &&& final(self).deep_view() == crate::state::followed(m, light)
                        &&& r is None
                    }
                },
            },
    {
        let (key, route): (Option<String>, Option<DeviceRoute>) = match self.current_record() {
            None => {
                return None;
            },
            Some(record) => {
                let key = match record.persistent_config_key() {
                    Some(key) => Some(key.clone()),
                    None => None,
                };
                (key, record.route.duplicate())
            },
        };
        let then_do = match route {
            Some(route) => Then::Send(Command::SetLighting(route, lighting)),
            None => Then::Done,
        };
        match key {
            Some(key) => {
                self.config.set_lighting(&key, lighting);
                self.persist(Save { reload: true, then_do })
            },
            None => {
                self.follow(then_do);
                None
            },
        }
    }

    /// The ring of the selected device, and the default one where none is kept.
    pub fn current_action_ring(&self) -> (r: ActionRingConfig)
        ensures
            r.deep_view() == shown_ring(self.deep_view()),
    {
        match self.current_config_key() {
            Some(key) => match self.config.row(&key).action_ring {
                Some(ring) => ring,
                None => self.defaults.ring.duplicate(),
            },
            None => self.defaults.ring.duplicate(),
        }
    }

    /// Keep another ring for the selected device.
    fn commit_ring(&mut self, ring: ActionRingConfig) -> (r: Option<Save>)
        ensures
            edits(
                *old(self),
                current_key(old(self).deep_view()) is Some,
                with_ring(old(self).deep_view(), ring.deep_view()),
                reloading(),
                *final(self),
                r,
            ),
    {
        match self.current_config_key() {
            None => None,
            Some(key) => {
                let mut row = self.config.row(&key);
                row.action_ring = Some(ring);
                self.config.put_row(&key, row);
                self.persist_and_reload()
            },
        }
    }

    /// Put an action into a slot of the ring, or take it out.
    pub fn commit_action_ring_slot(&mut self, slot: ActionRingSlot, action: Option<Action>) -> (r: Option<
        Save,
    >)
        ensures
            ({
                let ring = shown_ring(old(self).deep_view());
                edits(
                    *old(self),
                    current_key(old(self).deep_view()) is Some,
                    with_ring(
                        old(self).deep_view(),
                        ActionRingConfigModel {
                            slots: ring.slots.insert(
                                slot.index,
                                RingSlotConfigModel {
                                    action: action.deep_view(),
                                    ..slot_of(ring, slot.index)
                                },
                            ),
                            ..ring
                        },
                    ),
                    reloading(),
                    *final(self),
                    r,
                )
            }),
    {
        let mut ring = self.current_action_ring();
        let mut entry = ring_slot(&ring, slot.index);
        entry.action = action;
        ring.slots.insert(slot.index, entry);
        self.commit_ring(ring)
    }

    /// Give a slot of the ring an icon, or that of its action.
    pub fn commit_action_ring_icon(&mut self, slot: ActionRingSlot, icon: Option<String>) -> (r: Option<
        Save,
    >)
        ensures
            ({
                let ring = shown_ring(old(self).deep_view());
                edits(
                    *old(self),
                    current_key(old(self).deep_view()) is Some,
                    with_ring(
                        old(self).deep_view(),
                        ActionRingConfigModel {
                            slots: ring.slots.insert(
                                slot.index,
                                RingSlotConfigModel {
                                    icon: icon.deep_view(),
                                    ..slot_of(ring, slot.index)
                                },
                            ),
                            ..ring
                        },
                    ),
                    reloading(),
                    *final(self),
                    r,
                )
            }),
    {
        let mut ring = self.current_action_ring();
        let mut entry = ring_slot(&ring, slot.index);
        entry.icon = icon;
        ring.slots.insert(slot.index, entry);
        self.commit_ring(ring)
    }

    /// Enable the ring of the selected device, or not.
    pub fn commit_action_ring_enabled(&mut self, enabled: bool) -> (r: Option<Save>)
        ensures
            edits(
                *old(self),
                current_key(old(self).deep_view()) is Some,
                with_ring(
                    old(self).deep_view(),
                    ActionRingConfigModel { enabled, ..shown_ring(old(self).deep_view()) },
                ),
                reloading(),
                *final(self),
                r,
            ),
    {
        let mut ring = self.current_action_ring();
        ring.enabled = enabled;
        self.commit_ring(ring)
    }

    /// Have the ring of the selected device be felt, or not.
    pub fn commit_action_ring_haptics(&mut self, enabled: bool) -> (r: Option<Save>)
        ensures
            edits(
                *old(self),
                current_key(old(self).deep_view()) is Some,
                with_ring(
                    old(self).deep_view(),
                    ActionRingConfigModel {
                        haptics: enabled,
                        ..shown_ring(old(self).deep_view())
                    },
                ),
                reloading(),
                *final(self),
                r,
            ),
    {
        let mut ring = self.current_action_ring();
        ring.haptics = enabled;
        self.commit_ring(ring)
    }
}

/// The speed of its own that a device is left with.
pub open spec fn own_sensitivity(state: AppState, sensitivity: u32) -> Option<u32> {
    if sensitivity != settings_of(state).thumbwheel_sensitivity {
        Some(sensitivity)
    } else {
        None
    }
}

/// Whether the selected device can invert its wheel.
pub open spec fn can_invert(m: StateModel) -> bool {
    match current_of(m.devices) {
        Some(record) => match record.capabilities {
            Some(capabilities) => capabilities.scroll_inversion,
            None => false,
        },
        None => false,
    }
}

/// Whether the selected device has a wheel of high resolution.
pub open spec fn has_hires_wheel(m: StateModel) -> bool {
    match current_of(m.devices) {
        Some(record) => match record.capabilities {
            Some(capabilities) => capabilities.hires_wheel,
            None => false,
        },
        None => false,
    }
}

/// Set the resolution of a wheel, or leave it to the device, where the device
/// has such a wheel.
pub fn set_scroll_resolution_if_supported(
    config: &mut Config,
    key: &String,
    supported: bool,
    resolution: Option<ScrollResolution>,
) -> (r: bool)
    ensures
        r == supported,
        final(config).deep_view() == (if supported {
            with_row(
                old(config).deep_view(),
                key@,
                DeviceConfigModel {
                    scroll_resolution: resolution,
                    ..row_of(old(config).deep_view(), key@)
                },
            )
        } else {
            old(config).deep_view()
        }),
{
    if !supported {
        return false;
    }
    let mut row = config.row(key);
    row.scroll_resolution = resolution;
    config.put_row(key, row);
    true
}

/// The lighting of the selected device: what is shown of what it stores, and
/// the default where that is nothing or no device is selected.
pub open spec fn active_lighting(m: StateModel, transient: bool) -> Lighting {
    match current_of(m.devices) {
        Some(record) => if record.persistent {
            match shown_lighting(m, record.config_key, record.route_key, transient) {
                Some(lighting) => lighting,
                None => m.defaults.lighting,
            }
        } else {
            m.defaults.lighting
        },
        None => m.defaults.lighting,
    }
}

/// The lighting that is shown for a device on a link. Of a unit that was not
/// read, and so of a `transient` key, none is.
pub open spec fn shown_lighting(
    m: StateModel,
    key: Seq<char>,
    route: Seq<char>,
    transient: bool,
) -> Option<Lighting> {
    if transient || exists|k: int|
        0 <= k < m.devices.records.len() && (#[trigger] m.devices.records[k]).config_key == key
            && !m.devices.records[k].persistent {
        None
    } else if m.config.devices.contains_key(key) {
        effective_lighting(m.config.devices[key], route)
    } else {
        None
    }
}

/// The ring of the selected device, and the default one where none is kept.
pub open spec fn shown_ring(m: StateModel) -> ActionRingConfigModel {
    match current_key(m) {
        Some(key) => match row_of(m.config, key).action_ring {
            Some(ring) => ring,
            None => m.defaults.ring,
        },
        None => m.defaults.ring,
    }
}

/// The state with another ring for the selected device.
pub open spec fn with_ring(m: StateModel, ring: ActionRingConfigModel) -> StateModel {
    let key = current_key(m)->0;
    with_device(
        m,
        key,
        DeviceConfigModel { action_ring: Some(ring), ..row_of(m.config, key) },
    )
}

/// A slot of a ring, empty where there is none.
pub open spec fn slot_of(ring: ActionRingConfigModel, index: usize) -> RingSlotConfigModel {
    if ring.slots.contains_key(index) {
        ring.slots[index]
    } else {
        RingSlotConfigModel { action: None, icon: None }
    }
}

/// A slot of a ring, empty where there is none.
fn ring_slot(ring: &ActionRingConfig, index: usize) -> (r: RingSlotConfig)
    ensures
        r.deep_view() == slot_of(ring.deep_view(), index),
{
    match ring.slots.get(&index) {
        Some(slot) => slot.duplicate(),
        None => RingSlotConfig { action: None, icon: None },
    }
}

/// Setting a device to the speed of the application leaves it to follow that
/// speed, whatever it becomes.
pub proof fn the_default_speed_is_no_override(before: AppState, later: u32)
    ensures
        own_sensitivity(before, settings_of(before).thumbwheel_sensitivity) is None,
        later != settings_of(before).thumbwheel_sensitivity ==> own_sensitivity(before, later)
            == Some(later),
{
}

/// A device whose unit was not read is shown with no lighting, even where an
/// earlier configuration holds some for its key.
pub proof fn transient_lighting_is_never_shown(m: StateModel, key: Seq<char>, route: Seq<char>)
    ensures
        shown_lighting(m, key, route, true) is None,
{
}

/// An edit that changes something counts, unless it may not be kept; then it is
/// taken back and the agent hears nothing. One that changes nothing is no edit.
pub proof fn an_edit_counts_unless_it_may_not_be_kept(
    before: AppState,
    changes: bool,
    edited: StateModel,
    save: SaveModel,
    after: AppState,
    r: Option<Save>,
)
    requires
        edits(before, changes, edited, save, after, r),
    ensures
        ({
            let m = before.deep_view();
            let now = after.deep_view();
            &&& !changes ==> now == m && r is None
            &&& changes && edited.config_persistence == ConfigPersistence::UserFile ==> now
                == edited && r is Some && r.deep_view() == Some(save)
            &&& changes && edited.config_persistence == ConfigPersistence::MemoryOnly ==> now.config
                == edited.config && now.persisted_config == edited.config && r is None
            &&& changes && edited.config_persistence is ReadOnly ==> now.config
                == edited.persisted_config && now.outbox == edited.outbox && r is None
            &&& changes && edited.config_persistence == ConfigPersistence::MemoryOnly && save.reload
                ==> now.outbox.len() > edited.outbox.len()
                && now.outbox[edited.outbox.len() as int] == CommandModel::ReloadConfig
        }),
{
    if changes {
        assert(after.deep_view() == persisted(edited, save));
    }
}

/// Settings of the application are changed in the configuration alone, and those of
/// a device in its own row alone.
pub proof fn settings_are_changed_where_they_are(
    m: StateModel,
    settings: AppSettingsModel,
    key: Seq<char>,
    row: DeviceConfigModel,
    other: Seq<char>,
)
    ensures
        with_settings(m, settings).config.app_settings == settings,
        with_settings(m, settings).config.devices == m.config.devices,
        with_settings(m, settings).config.selected_device == m.config.selected_device,
        with_settings(m, settings).config.keyboard == m.config.keyboard,
        with_settings(m, settings) == (StateModel {
            config: with_settings(m, settings).config,
            ..m
        }),
        with_device(m, key, row).config.devices.contains_key(key),
        with_device(m, key, row).config.devices[key] == row,
        with_device(m, key, row).config.devices.remove(key) == m.config.devices.remove(key),
        with_device(m, key, row).config.app_settings == m.config.app_settings,
        with_device(m, key, row).config.keyboard == m.config.keyboard,
        with_device(m, key, row).config.selected_device == m.config.selected_device,
        with_device(m, key, row) == (StateModel { config: with_device(m, key, row).config, ..m }),
        row_of(with_device(m, key, row).config, key) == row,
        other != key ==> row_of(with_device(m, key, row).config, other) == row_of(m.config, other),
{
    assert(with_device(m, key, row).config.devices.remove(key) =~= m.config.devices.remove(key));
}

/// A device turns at the speed that it was set to, whether it has one of its own or
/// follows the application.
pub proof fn a_device_turns_at_the_speed_it_was_set_to(
    state: AppState,
    row: DeviceConfigModel,
    sensitivity: u32,
)
    ensures
        ({
            let set = DeviceConfigModel {
                thumbwheel_sensitivity: own_sensitivity(state, sensitivity),
                ..row
            };
            match set.thumbwheel_sensitivity {
                Some(own) => own == sensitivity,
                None => state.deep_view().config.app_settings.thumbwheel_sensitivity
                    == sensitivity,
            }
        }),
{
}

/// A wheel can be inverted, and its resolution set, exactly where the selected
/// device says that it can.
pub proof fn a_wheel_can_what_the_device_says(m: StateModel)
    ensures
        can_invert(m) <==> (current_of(m.devices) matches Some(record)
            && record.capabilities matches Some(can) && can.scroll_inversion),
        has_hires_wheel(m) <==> (current_of(m.devices) matches Some(record)
            && record.capabilities matches Some(can) && can.hires_wheel),
{
}

/// Lighting that was set on a device is what is shown for it, on every link that
/// has none of its own, as long as the device keeps settings.
pub proof fn lighting_that_was_set_is_shown(
    m: StateModel,
    key: Seq<char>,
    route: Seq<char>,
    lighting: Lighting,
)
    requires
        forall|k: int|
            0 <= k < m.devices.records.len() && (#[trigger] m.devices.records[k]).config_key == key
                ==> m.devices.records[k].persistent,
    ensures
        ({
            let row = row_of(m.config, key);
            let set = with_device(m, key, DeviceConfigModel { lighting: Some(lighting), ..row });
            &&& !row.lighting_by_route.contains_key(route) ==> shown_lighting(
                set,
                key,
                route,
                false,
            ) == Some(lighting)
            &&& row.lighting_by_route.contains_key(route) ==> shown_lighting(
                set,
                key,
                route,
                false,
            ) == row.lighting_by_route[route]
            &&& !m.config.devices.contains_key(key) ==> shown_lighting(m, key, route, false) is None
        }),
{
}

/// A key that a device without a unit goes by has no lighting, whatever is kept.
pub proof fn an_unread_unit_has_no_lighting(
    m: StateModel,
    i: int,
    route: Seq<char>,
    transient: bool,
)
    requires
        0 <= i < m.devices.records.len(),
        !m.devices.records[i].persistent,
    ensures
        shown_lighting(m, m.devices.records[i].config_key, route, transient) is None,
{
}

/// The lighting of the selected device is what is shown for it on its own link; the
/// default stands in where there is none, and where nothing is selected.
pub proof fn the_default_lighting_stands_in(m: StateModel, transient: bool)
    ensures
        current_of(m.devices) is None ==> active_lighting(m, transient) == m.defaults.lighting,
        current_of(m.devices) matches Some(record) ==> {
            let shown = shown_lighting(m, record.config_key, record.route_key, transient);
            &&& record.persistent && shown is Some ==> Some(active_lighting(m, transient)) == shown
            &&& !record.persistent || shown is None ==> active_lighting(m, transient)
                == m.defaults.lighting
        },
{
}

/// A ring that is kept is the one that is shown, and every change of it leaves what
/// was not changed: the other slots, and the rest of the slot.
pub proof fn a_ring_is_shown_as_it_is_kept(
    m: StateModel,
    ring: ActionRingConfigModel,
    index: usize,
    other: usize,
    key: Seq<char>,
)
    requires
        current_key(m) == Some(key),
    ensures
        shown_ring(with_ring(m, ring)) == ring,
        with_ring(m, ring).config.devices[key] == (DeviceConfigModel {
            action_ring: Some(ring),
            ..row_of(m.config, key)
        }),
        with_ring(m, ring).config.devices.remove(key) == m.config.devices.remove(key),
        with_ring(m, ring) == (StateModel { config: with_ring(m, ring).config, ..m }),
        row_of(m.config, key).action_ring is None ==> shown_ring(m) == m.defaults.ring,
        row_of(m.config, key).action_ring matches Some(kept) ==> shown_ring(m) == kept,
        ring.slots.contains_key(index) ==> slot_of(ring, index) == ring.slots[index],
        !ring.slots.contains_key(index) ==> slot_of(ring, index).action is None && slot_of(
            ring,
            index,
        ).icon is None,
{
    assert(with_ring(m, ring).config.devices.remove(key) =~= m.config.devices.remove(key));
    assert(current_key(with_ring(m, ring)) == Some(key));
}

} // verus!
