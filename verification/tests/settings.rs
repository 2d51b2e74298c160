//! Changing and saving settings.

use openlogi::action::Action;
use openlogi::config::{
    ActionRingConfig, AppSettings, Appearance, AssetSourcePreference, Config, DeviceViewMode,
    Lighting, ScrollResolution,
};
use openlogi::controls::ButtonId;
use openlogi::device::{Capabilities, DeviceKind, DeviceRecord};
use openlogi::keyed::Table;
use openlogi::ring::ActionRingSlot;
use openlogi::state::{AppState, Command, ConfigPersistence, Defaults, Save};

fn settings() -> AppSettings {
    AppSettings {
        launch_at_login: false,
        show_in_menu_bar: true,
        check_for_updates: false,
        auto_install_updates: false,
        update_prompt_seen: false,
        appearance: Appearance::System,
        theme_light: None,
        theme_dark: None,
        app_icon: "default".into(),
        ui_radius: None,
        thumbwheel_sensitivity: 14,
        auto_download_assets: true,
        asset_source: AssetSourcePreference::Automatic,
        language: None,
        device_view_mode: DeviceViewMode::Grid,
    }
}

fn defaults() -> Defaults {
    let mut actions = Table::new();
    actions.insert(ButtonId::Back, Action::MouseBack);
    Defaults {
        actions,
        gestures: Table::new(),
        gesture_buttons: vec![],
        seeded_buttons: vec![],
        ring: ActionRingConfig { enabled: true, haptics: true, slots: Table::new() },
        lighting: Lighting { enabled: false, red: 9, green: 8, blue: 7 },
    }
}

fn device(kind: DeviceKind) -> DeviceRecord {
    DeviceRecord {
        config_key: "device-1".into(),
        inventory_key: "device-1".into(),
        record_key: "device-1".into(),
        model_key: "model".into(),
        display_name: "Device".into(),
        model_name: "Device".into(),
        codename: None,
        kind,
        persistent: true,
        online: true,
        slot: 1,
        route: None,
        route_key: "direct".into(),
        order: 0,
        battery: None,
        model_info: None,
        capabilities: Some(Capabilities {
            buttons: true,
            pointer: true,
            lighting: false,
            thumbwheel: true,
            scroll_inversion: true,
            hires_wheel: true,
        }),
        light_capabilities: None,
        driver_id: None,
        registry_model_id: None,
        asset: None,
    }
}

fn state(persistence: ConfigPersistence) -> AppState {
    let (mut state, save) = AppState::with_runtime(
        Config::empty(settings()),
        vec![device(DeviceKind::Mouse)],
        persistence,
        defaults(),
    );
    if let Some(save) = save {
        state.finish_save(save, Ok(()));
    }
    state.outbox.clear();
    state
}

fn key() -> String {
    "device-1".to_string()
}

/// A change is saved once, and a repeated one not at all.
fn saved(change: impl Fn(&mut AppState) -> Option<Save>, reloads: bool) {
    let mut state = state(ConfigPersistence::UserFile);
    let save = change(&mut state).expect("a change is saved");
    assert_eq!(save.reload, reloads);
    state.finish_save(save, Ok(()));
    assert_eq!(state.outbox.iter().any(|c| matches!(c, Command::ReloadConfig)), reloads);
    assert!(change(&mut state).is_none(), "nothing changes twice");
}

#[test]
fn changes_are_saved_once() {
    saved(|state| state.set_launch_at_login(true), true);
    saved(|state| state.set_show_in_menu_bar(false), true);
    saved(|state| state.set_check_for_updates(true), false);
    saved(|state| state.set_auto_install_updates(true), false);
    saved(|state| state.set_appearance(Appearance::Dark), false);
    saved(|state| state.set_ui_radius(Some(4)), false);
    saved(|state| state.set_thumbwheel_sensitivity(20), true);
    saved(|state| state.set_auto_download_assets(false), false);
    saved(|state| state.set_asset_source(AssetSourcePreference::OpenLogi), false);
    saved(|state| state.set_device_view_mode(DeviceViewMode::List), false);
    saved(|state| state.set_theme(true, Some("Night".into())), false);
    saved(|state| state.set_theme(false, Some("Day".into())), false);
    saved(|state| state.set_language(Some("de".into())), false);
    saved(|state| state.set_device_enabled(&key(), false), true);
    saved(|state| state.set_device_thumbwheel_sensitivity(&key(), 30), true);
}

#[test]
fn a_refused_write_rolls_back() {
    let mut state = state(ConfigPersistence::UserFile);
    let save = state.set_app_icon("retro".into()).expect("a change is saved");
    state.finish_save(save, Err("disk full".into()));
    assert_eq!(state.app_settings().app_icon, "default");
    assert_eq!(state.config_issue(), Some("disk full"));
    assert!(state.outbox.is_empty(), "no icon is worn that was not kept");
    let save = state.set_app_icon("retro".into()).expect("a change is saved");
    state.finish_save(save, Ok(()));
    assert_eq!(state.config_issue(), None);
    assert!(matches!(&state.outbox[1], Command::ApplyAppIcon(icon) if icon == "retro"));
}

#[test]
fn a_read_only_configuration_keeps_its_values() {
    let mut state = state(ConfigPersistence::ReadOnly("newer".into()));
    assert!(state.set_language(Some("de".into())).is_none());
    assert_eq!(state.language(), None);
    assert!(state.set_device_enabled(&key(), false).is_none());
    assert!(state.device_enabled(&key()));
}

#[test]
fn an_answer_about_updates_is_kept() {
    let mut state = state(ConfigPersistence::MemoryOnly);
    state.record_update_consent(false);
    assert!(state.app_settings().update_prompt_seen);
    assert!(!state.app_settings().check_for_updates);
}

#[test]
fn the_default_speed_is_no_override() {
    let mut state = state(ConfigPersistence::MemoryOnly);
    state.set_device_thumbwheel_sensitivity(&key(), 30);
    assert_eq!(state.device_thumbwheel_sensitivity(&key()), 30);
    state.set_device_thumbwheel_sensitivity(&key(), 14);
    state.set_thumbwheel_sensitivity(20);
    assert_eq!(state.device_thumbwheel_sensitivity(&key()), 20);
}

#[test]
fn scrolling_is_set_where_it_can_be() {
    let mut state = state(ConfigPersistence::MemoryOnly);
    assert!(!state.current_invert_scroll());
    state.commit_invert_scroll(true);
    assert!(state.current_invert_scroll());
    state.commit_scroll_resolution(Some(ScrollResolution::High));
    assert_eq!(state.current_scroll_resolution(), Some(ScrollResolution::High));
    let caps = Capabilities {
        scroll_inversion: false,
        hires_wheel: false,
        ..state.devices.records[0].capabilities.expect("known")
    };
    state.devices.records[0].capabilities = Some(caps);
    state.commit_invert_scroll(false);
    state.commit_scroll_resolution(None);
    let row = state.current_config();
    assert!(row.invert_scroll);
    assert_eq!(row.scroll_resolution, Some(ScrollResolution::High));
}

#[test]
fn the_ring_is_edited_slot_by_slot() {
    let mut state = state(ConfigPersistence::MemoryOnly);
    let slot = ActionRingSlot { index: 3 };
    state.commit_action_ring_slot(slot, Some(Action::Copy));
    state.commit_action_ring_icon(slot, Some("copy.svg".into()));
    state.commit_action_ring_enabled(false);
    state.commit_action_ring_haptics(false);
    let ring = state.current_action_ring();
    assert!(!ring.enabled && !ring.haptics);
    let entry = ring.slots.get(&3).expect("a slot");
    assert_eq!(entry.action, Some(Action::Copy));
    assert_eq!(entry.icon.as_deref(), Some("copy.svg"));
    state.commit_action_ring_slot(slot, None);
    let ring = state.current_action_ring();
    let entry = ring.slots.get(&3).expect("a slot");
    assert_eq!(entry.action, None);
    assert_eq!(entry.icon.as_deref(), Some("copy.svg"));
}

#[test]
fn keys_are_bound_and_unbound() {
    let mut state = state(ConfigPersistence::MemoryOnly);
    state.commit_keyboard_binding("F5".into(), Some(Action::Copy));
    assert_eq!(state.keyboard_bindings.get(&"F5".to_string()), Some(&Action::Copy));
    assert!(state.config.keyboard.contains(&"F5".to_string()));
    state.commit_keyboard_binding("F5".into(), None);
    assert_eq!(state.keyboard_bindings.len(), 0);
    assert_eq!(state.config.keyboard.len(), 0);
}

#[test]
fn the_picker_marks_what_is_bound() {
    let mut state = state(ConfigPersistence::MemoryOnly);
    assert_eq!(state.picked_action(ButtonId::Back), Some(Action::MouseBack));
    state.commit_binding(ButtonId::Back, Action::Copy);
    assert_eq!(state.picked_action(ButtonId::Back), Some(Action::Copy));
}

#[test]
fn cameras_remember_their_controls() {
    let mut state = state(ConfigPersistence::MemoryOnly);
    assert!(!state.has_camera());
    state.devices.records.push(device(DeviceKind::Camera));
    assert!(state.has_camera());
    let zoom = "zoom".to_string();
    let focus = "focus_auto".to_string();
    assert_eq!(state.camera_control(&key(), &zoom), None);
    state.commit_camera_control(&key(), &zoom, 120);
    state.commit_camera_auto(&key(), &focus, true);
    assert_eq!(state.camera_control(&key(), &zoom), Some(120));
    assert_eq!(state.camera_auto(&key(), &focus), Some(true));
    state.commit_camera_auto(&key(), &focus, false);
    assert_eq!(state.camera_auto(&key(), &focus), Some(false));
}

#[test]
fn camera_profiles_come_and_go() {
    let mut state = state(ConfigPersistence::MemoryOnly);
    let name = "Office".to_string();
    let mut controls = Table::new();
    controls.insert("zoom".to_string(), 110);
    state.save_camera_profile(&key(), &name, controls);
    state.set_camera_active_profile(&key(), Some(name.clone()));
    assert_eq!(state.camera_active_profile(&key()).as_deref(), Some("Office"));
    let profiles = state.camera_profiles(&key());
    assert_eq!(profiles.get(&name).and_then(|p| p.get(&"zoom".to_string())), Some(&110));
    state.delete_camera_profile(&key(), &name);
    assert_eq!(state.camera_profiles(&key()).len(), 0);
    state.set_camera_active_profile(&key(), None);
    assert_eq!(state.camera_active_profile(&key()), None);
}

#[test]
fn a_migration_is_done_once() {
    let mut state = state(ConfigPersistence::UserFile);
    let old = "camera-0x14200000".to_string();
    let new = "camera-serial".to_string();
    let capture = "0x14200000".to_string();
    state.commit_camera_control(&old, &"zoom".to_string(), 130);
    assert!(state.migrate_legacy_camera_key(&old, &capture).is_none(), "it is the same key");
    assert!(state.migrate_legacy_camera_key(&new, &capture).is_some());
    assert_eq!(state.camera_control(&new, &"zoom".to_string()), Some(130));
    assert!(!state.config.devices.contains(&old));
    assert!(state.migrate_legacy_camera_key(&new, &capture).is_none());
}
