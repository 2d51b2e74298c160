//! The state of the application: bindings, profiles, devices, and settings.

use openlogi::action::{Action, Binding};
use openlogi::bindings::{apply_thumbwheel_pair, ThumbwheelPair};
use openlogi::catalog::AssetTarget;
use openlogi::config::{
    ActionRingConfig, AppSettings, Appearance, AssetSourcePreference, Config, DeviceIdentity,
    DeviceViewMode, Lighting, ScrollResolution, SmartShiftMode, SmartShiftStatus,
};
use openlogi::controls::{ButtonId, GestureDirection};
use openlogi::device::{
    BatteryInfo, BatteryLevel, BatteryStatus, Capabilities, DeviceKey, DeviceKind,
    DeviceModelInfo, DeviceRecord, DeviceRoute, DeviceTransports,
};
use openlogi::keyed::Table;
use openlogi::load::{
    smartshift_read_is_current, smartshift_write_outcome, LazyDeviceData, Load,
    SmartShiftWriteStatus, WriteError, LOAD_MAX_ATTEMPTS,
};
use openlogi::settings::set_scroll_resolution_if_supported;
use openlogi::state::{
    AppState, Command, ConfigPersistence, Defaults, ForegroundApp, ForegroundApps, Then,
};

const DEFAULT_SENSITIVITY: u32 = 14;

/// Config key of the mouse [`mouse`] builds with a real unit id.
const KNOWN_MOUSE_KEY: &str = "direct:046d:b023:unit:a393cae0";

const SAFARI: &str = "com.apple.Safari";

fn key(text: &str) -> String {
    text.to_string()
}

fn settings() -> AppSettings {
    AppSettings {
        launch_at_login: false,
        show_in_menu_bar: true,
        check_for_updates: false,
        auto_install_updates: false,
        update_prompt_seen: false,
        appearance: Appearance::System,
        theme_light: None,
        theme_dark: None,
        app_icon: "default".into(),
        ui_radius: None,
        thumbwheel_sensitivity: DEFAULT_SENSITIVITY,
        auto_download_assets: true,
        asset_source: AssetSourcePreference::Automatic,
        language: None,
        device_view_mode: DeviceViewMode::Grid,
    }
}

fn config() -> Config {
    Config::empty(settings())
}

fn defaults() -> Defaults {
    let mut actions = Table::new();
    actions.insert(ButtonId::Back, Action::MouseBack);
    actions.insert(ButtonId::Forward, Action::MouseForward);
    actions.insert(ButtonId::MiddleClick, Action::MiddleClick);
    let mut gestures = Table::new();
    gestures.insert(GestureDirection::Up, Action::MissionControl);
    gestures.insert(GestureDirection::Down, Action::AppExpose);
    gestures.insert(GestureDirection::Left, Action::PreviousDesktop);
    gestures.insert(GestureDirection::Right, Action::NextDesktop);
    gestures.insert(GestureDirection::Click, Action::ShowDesktop);
    Defaults {
        actions,
        gestures,
        gesture_buttons: vec![ButtonId::GestureButton],
        seeded_buttons: vec![ButtonId::GestureButton],
        ring: ActionRingConfig { enabled: true, haptics: true, slots: Table::new() },
        lighting: Lighting { enabled: false, red: 9, green: 8, blue: 7 },
    }
}

fn mouse_capabilities() -> Capabilities {
    Capabilities {
        buttons: true,
        pointer: true,
        lighting: false,
        thumbwheel: true,
        scroll_inversion: false,
        hires_wheel: true,
    }
}

fn model(unit_id: u32) -> DeviceModelInfo {
    DeviceModelInfo {
        model_key: "2b034".into(),
        entity_count: 1,
        serial_number: None,
        unit_id,
        transports: DeviceTransports { usb: false, equad: false, bluetooth: false, btle: false },
        model_ids: vec![0xb034, 0, 0],
        extended_model_id: 2,
    }
}

/// A mouse on its own, as a probe that read that unit id reports it. One that
/// read none cannot be told apart from others of its model.
fn mouse_of(product_id: u16, unit_id: u32) -> DeviceRecord {
    let config_key = format!("direct:046d:{product_id:04x}:unit:{unit_id:08x}");
    DeviceRecord {
        inventory_key: config_key.clone(),
        record_key: config_key.clone(),
        config_key,
        model_key: "2b034".into(),
        display_name: "MX Master 3S".into(),
        model_name: "MX Master 3S".into(),
        codename: Some("MX Master 3S".into()),
        kind: DeviceKind::Mouse,
        persistent: unit_id != 0,
        online: true,
        slot: 0xff,
        route: Some(DeviceRoute::Direct { address: format!("046d:{product_id:04x}:{unit_id}") }),
        route_key: "direct".into(),
        order: 7,
        battery: None,
        model_info: Some(model(unit_id)),
        capabilities: Some(mouse_capabilities()),
        light_capabilities: None,
        driver_id: None,
        registry_model_id: None,
        asset: None,
    }
}

fn mouse(unit_id: u32) -> DeviceRecord {
    mouse_of(0xb023, unit_id)
}

fn state_of(config: Config, records: Vec<DeviceRecord>) -> AppState {
    AppState::with_runtime(config, records, ConfigPersistence::MemoryOnly, defaults()).0
}

/// A state holding the one persistent mouse, so per-device config has a key.
fn state_with_a_known_mouse() -> AppState {
    state_of(config(), vec![mouse(0xa393_cae0)])
}

fn app(id: &str, display_name: &str) -> ForegroundApp {
    ForegroundApp { id: id.to_string(), display_name: display_name.to_string() }
}

/// A known mouse with `app`'s profile open for editing.
fn state_editing(app: &str) -> AppState {
    let mut state = state_with_a_known_mouse();
    state.set_editing_app(Some(app.to_string()));
    assert_eq!(state.editing_app().as_deref(), Some(app), "scope did not take");
    state
}

fn volume() -> ThumbwheelPair {
    ThumbwheelPair { backward: Action::VolumeDown, forward: Action::VolumeUp }
}

fn cycle_dpi() -> ThumbwheelPair {
    ThumbwheelPair { backward: Action::CycleDpiPresets, forward: Action::CycleDpiPresets }
}

#[test]
fn read_only_config_rolls_back_mutations_and_does_not_reload_agent() {
    let (mut state, save) = AppState::with_runtime(
        config(),
        vec![],
        ConfigPersistence::ReadOnly("invalid config".into()),
        defaults(),
    );
    assert!(save.is_none());

    assert!(state.set_thumbwheel_sensitivity(50).is_none());

    assert_eq!(state.app_settings().thumbwheel_sensitivity, DEFAULT_SENSITIVITY);
    assert_eq!(state.config_issue(), Some("invalid config"));
    assert!(state.outbox.is_empty());
}

#[test]
fn agent_reload_error_stays_visible_until_a_successful_confirmation() {
    let mut state = state_of(config(), vec![]);
    assert!(state.apply_config_reload_result(Err("agent rejected config".into())));
    assert_eq!(state.config_issue(), Some("agent rejected config"));
    assert!(state.apply_config_reload_result(Ok(())));
    assert_eq!(state.config_issue(), None);
}

#[test]
fn thumbwheel_pair_updates_both_memory_and_config_entries() {
    let mut bindings = Table::new();
    let mut config = config();
    let device = key("2b034");

    assert!(apply_thumbwheel_pair(
        &mut bindings,
        &mut config,
        &Some(device.clone()),
        &None,
        volume(),
    ));
    assert_eq!(bindings.get(&ButtonId::ThumbwheelScrollDown), Some(&Action::VolumeDown));
    assert_eq!(bindings.get(&ButtonId::ThumbwheelScrollUp), Some(&Action::VolumeUp));
    let persisted = config.bindings_for(&device);
    assert_eq!(
        persisted.get(&ButtonId::ThumbwheelScrollDown),
        Some(&Binding::Single(Action::VolumeDown))
    );
    assert_eq!(
        persisted.get(&ButtonId::ThumbwheelScrollUp),
        Some(&Binding::Single(Action::VolumeUp))
    );
}

#[test]
fn transient_thumbwheel_pair_stays_in_memory_without_persistence() {
    let mut bindings = Table::new();
    let mut config = config();

    assert!(!apply_thumbwheel_pair(&mut bindings, &mut config, &None, &None, cycle_dpi()));
    assert_eq!(bindings.len(), 2);
    assert_eq!(config.bindings_for(&key("missing")).len(), 0);
}

#[test]
fn a_binding_committed_in_a_per_app_profile_leaves_the_global_one_alone() {
    let mut state = state_editing(SAFARI);
    state.commit_binding(ButtonId::Back, Action::Undo);

    let overrides = state
        .config
        .per_app_overrides(&key(KNOWN_MOUSE_KEY), &key(SAFARI))
        .expect("a profile");
    assert_eq!(overrides.len(), 1);
    assert_eq!(overrides.get(&ButtonId::Back), Some(&Action::Undo));
    assert_eq!(
        state.config.bindings_for(&key(KNOWN_MOUSE_KEY)).len(),
        0,
        "the device's global bindings must be untouched"
    );
}

#[test]
fn clearing_an_override_falls_back_to_the_global_binding() {
    let mut state = state_with_a_known_mouse();
    state.commit_binding(ButtonId::Back, Action::Copy);
    state.set_editing_app(Some(SAFARI.into()));
    state.commit_binding(ButtonId::Back, Action::Undo);
    assert_eq!(state.button_bindings.get(&ButtonId::Back), Some(&Action::Undo));

    state.clear_app_binding(ButtonId::Back);

    assert_eq!(
        state.button_bindings.get(&ButtonId::Back),
        Some(&Action::Copy),
        "the panel falls back to what the default profile binds"
    );
    assert!(
        state.config.per_app_overrides(&key(KNOWN_MOUSE_KEY), &key(SAFARI)).is_none(),
        "an emptied profile is pruned, not left behind"
    );
}

#[test]
fn clearing_a_thumbwheel_override_drops_both_directions() {
    let mut state = state_with_a_known_mouse();
    state.commit_thumbwheel_preset(volume());
    state.set_editing_app(Some(SAFARI.into()));
    state.commit_thumbwheel_preset(cycle_dpi());

    state.clear_app_thumbwheel();

    assert_eq!(
        state.button_bindings.get(&ButtonId::ThumbwheelScrollDown),
        Some(&Action::VolumeDown)
    );
    assert_eq!(
        state.button_bindings.get(&ButtonId::ThumbwheelScrollUp),
        Some(&Action::VolumeUp)
    );
    assert!(
        state.config.per_app_overrides(&key(KNOWN_MOUSE_KEY), &key(SAFARI)).is_none(),
        "both halves must be cleared so the empty profile is pruned"
    );
}

#[test]
fn gesture_mode_is_not_editable_from_inside_a_per_app_profile() {
    let mut state = state_editing(SAFARI);

    state.commit_gesture_mode(ButtonId::MiddleClick, true);

    let row = state.config.row(&key(KNOWN_MOUSE_KEY));
    assert!(
        !state.defaults.is_gesture_mode(&row, ButtonId::MiddleClick),
        "a per-app profile must not promote a button globally"
    );
    assert_eq!(
        state.current_gesture_maps().len(),
        0,
        "and no gesture menu is offered in that scope"
    );
}

#[test]
fn a_gesture_button_stays_one_when_the_scope_returns_to_the_default_profile() {
    let mut state = state_with_a_known_mouse();
    state.commit_gesture_mode(ButtonId::MiddleClick, true);
    let global = state.current_gesture_maps();
    assert!(global.contains(&ButtonId::MiddleClick));

    state.set_editing_app(Some(SAFARI.into()));
    assert_eq!(state.current_gesture_maps().len(), 0);
    // The device still has its gestures: only the open profile cannot show
    // them, which is what the device card must keep reporting.
    let count: usize = (0..global.len()).map(|i| global.value_at(i).len()).sum();
    assert_eq!(state.device_gesture_binding_count(), count);

    state.set_editing_app(None);
    assert_eq!(state.current_gesture_maps(), global);
}

#[test]
fn leaving_gesture_mode_gives_back_the_single_action() {
    let mut state = state_with_a_known_mouse();
    state.commit_binding(ButtonId::MiddleClick, Action::Copy);
    state.commit_gesture_mode(ButtonId::MiddleClick, true);
    state.commit_gesture_binding(ButtonId::MiddleClick, GestureDirection::Up, Action::Paste);
    let maps = state.current_gesture_maps();
    let map = maps.get(&ButtonId::MiddleClick).expect("a gesture map");
    assert_eq!(map.get(&GestureDirection::Click), Some(&Action::Copy));
    assert_eq!(map.get(&GestureDirection::Up), Some(&Action::Paste));
    state.commit_gesture_mode(ButtonId::MiddleClick, false);
    assert_eq!(state.button_bindings.get(&ButtonId::MiddleClick), Some(&Action::Copy));
}

#[test]
fn a_profile_belongs_to_the_device_it_was_opened_on() {
    // Overlays are per-device, so a scope must not follow the carousel onto
    // another mouse and silently edit a profile the user never opened.
    let mut state = state_of(config(), vec![mouse(0xa393_cae0), mouse_of(0xb037, 0x1122_3344)]);
    let other = state
        .devices
        .records
        .iter()
        .position(|record| record.config_key != KNOWN_MOUSE_KEY)
        .expect("the fixture pairs a second device");
    let known = state
        .devices
        .records
        .iter()
        .position(|record| record.config_key == KNOWN_MOUSE_KEY)
        .expect("the fixture pairs the known mouse");

    state.set_current_device(known);
    state.set_editing_app(Some(SAFARI.into()));

    state.set_current_device(other);
    assert_eq!(
        state.editing_app(),
        None,
        "another device falls back to its own global profile"
    );

    state.set_current_device(known);
    assert_eq!(
        state.editing_app().as_deref(),
        Some(SAFARI),
        "and returning restores the profile that was open here"
    );
}

#[test]
fn the_active_profile_is_the_default_until_the_app_in_front_is_overridden() {
    let mut state = state_with_a_known_mouse();
    let safari = app(SAFARI, "Safari");
    state.set_foreground(ForegroundApps { current: Some(safari.clone()), recent: vec![safari] });

    assert_eq!(
        state.active_profile_name(),
        None,
        "an app with no overrides runs the device's global bindings"
    );

    state.config.set_per_app_binding(
        &key(KNOWN_MOUSE_KEY),
        &key(SAFARI),
        ButtonId::Back,
        Some(Action::Undo),
    );
    assert_eq!(state.active_profile_name().as_deref(), Some("Safari"));
}

#[test]
fn the_profile_shown_is_the_apps_even_while_this_window_has_focus() {
    let mut state = state_with_a_known_mouse();
    state.config.set_per_app_binding(
        &key(KNOWN_MOUSE_KEY),
        &key(SAFARI),
        ButtonId::Back,
        Some(Action::Undo),
    );
    state.set_foreground(ForegroundApps {
        current: Some(app("org.openlogi.OpenLogi", "OpenLogi")),
        recent: vec![app(SAFARI, "Safari")],
    });

    assert_eq!(state.active_profile_name().as_deref(), Some("Safari"));
}

#[test]
fn a_host_with_no_readable_foreground_app_reports_the_default_profile() {
    let mut state = state_with_a_known_mouse();
    state.config.set_per_app_binding(
        &key(KNOWN_MOUSE_KEY),
        &key(SAFARI),
        ButtonId::Back,
        Some(Action::Undo),
    );
    // A pure-Wayland session with no usable backend, or a watcher that could
    // not start: the agent reports nothing and no profile can be in effect.
    assert!(!state.set_foreground(ForegroundApps { current: None, recent: vec![] }));
    assert_eq!(state.active_profile_name(), None);
}

#[test]
fn transient_identity_is_not_persisted_or_retained_after_resolution() {
    let mut state = state_of(config(), vec![mouse(0)]);
    let transient_key = key("direct:046d:b023:unit:00000000");

    assert_eq!(state.devices.records.len(), 1);
    assert!(state.config.device_identity(&transient_key).is_none());

    let merged = state.devices.merge_inventory_snapshot(&vec![mouse(0xa393_cae0)]);

    assert_eq!(merged.len(), 1);
    assert_eq!(merged[0].config_key, "direct:046d:b023:unit:a393cae0");
    assert!(merged[0].persistent);
}

#[test]
fn transient_probe_folds_into_its_known_card() {
    // A half-read probe (all-zero unit id) of the only known device with that
    // vid/pid must not evict the known card or appear beside it: the card
    // keeps its identity and takes the live volatile state.
    let mut state = state_with_a_known_mouse();
    assert_eq!(state.devices.records[0].config_key, KNOWN_MOUSE_KEY);

    let merged = state.devices.merge_inventory_snapshot(&vec![mouse(0)]);

    assert_eq!(merged.len(), 1, "no second card for the half-read probe");
    assert_eq!(merged[0].config_key, KNOWN_MOUSE_KEY);
    assert!(merged[0].persistent);
    assert!(merged[0].online, "the live probe supplies volatile state");
    assert!(merged[0].route.is_some(), "the live route is kept usable");
}

#[test]
fn transient_record_beside_its_live_device_is_dropped() {
    // Both a full and a half-read probe of the same wire product in one
    // snapshot: the transient record is probe noise, not a second device.
    let mut state = state_with_a_known_mouse();

    let both = vec![mouse(0xa393_cae0), mouse(0)];
    let merged = state.devices.merge_inventory_snapshot(&both);

    assert_eq!(merged.len(), 1);
    assert_eq!(merged[0].config_key, "direct:046d:b023:unit:a393cae0");
    assert!(merged[0].online);
}

#[test]
fn transient_probe_adopts_the_absent_sibling_of_a_live_twin() {
    // Two same-model devices; one probes complete, the other half-reads. The
    // half-read probe can only be the sibling, which keeps its card online and
    // routed.
    let mut state = state_of(config(), vec![mouse(0x0101_0101), mouse(0x0202_0202)]);

    let merged = state.devices.merge_inventory_snapshot(&vec![mouse(0x0101_0101), mouse(0)]);

    assert_eq!(merged.len(), 2, "no third card for the half-read probe");
    let Some(sibling) = merged
        .iter()
        .find(|r| r.config_key == "direct:046d:b023:unit:02020202")
    else {
        panic!("the sibling card must survive under its physical key");
    };
    assert!(sibling.online, "the half-read probe keeps the sibling online");
    assert!(sibling.route.is_some(), "the live route stays usable");
}

#[test]
fn ambiguous_transient_probe_is_not_adopted() {
    // Two same-model devices are known; a half-read probe could be either, so
    // neither card may steal it.
    let mut state = state_of(config(), vec![mouse(0x0101_0101), mouse(0x0202_0202)]);
    assert_eq!(state.devices.records.len(), 2);

    let merged = state.devices.merge_inventory_snapshot(&vec![mouse(0)]);

    assert_eq!(merged.len(), 3, "both known cards survive on grace");
    assert_eq!(
        merged.iter().filter(|r| !r.persistent).count(),
        1,
        "the transient card stays its own record"
    );
}

#[test]
fn a_missing_device_is_kept_for_two_snapshots() {
    let mut state = state_with_a_known_mouse();
    let kept = state.devices.merge_inventory_snapshot(&vec![]);
    assert_eq!(kept.len(), 1);
    let kept = state.devices.merge_inventory_snapshot(&vec![]);
    assert_eq!(kept.len(), 1);
    let gone = state.devices.merge_inventory_snapshot(&vec![]);
    assert!(gone.is_empty());
}

#[test]
fn historical_transient_lighting_is_not_exposed_without_a_live_record() {
    let transient_key = key("direct:046d:b023:unit:00000000");
    let mut config = config();
    config.set_lighting(
        &transient_key,
        Lighting { enabled: true, red: 255, green: 255, blue: 255 },
    );
    assert!(config.lighting(&transient_key).is_some());
    let state = state_of(config, vec![]);

    assert!(state.devices.records.is_empty());
    assert!(state.lighting_for(&transient_key, &key("direct"), true).is_none());
}

fn ratchet(threshold: u8) -> SmartShiftStatus {
    SmartShiftStatus {
        mode: SmartShiftMode::Ratchet,
        auto_disengage: threshold,
        tunable_torque: None,
    }
}

#[test]
fn smartshift_write_feedback_requires_the_written_value() {
    let expected = ratchet(12);
    assert_eq!(smartshift_write_outcome(expected, None), None);
    assert_eq!(
        smartshift_write_outcome(expected, Some(&Load::Ready(expected))),
        Some(SmartShiftWriteStatus::Confirmed)
    );
    assert_eq!(
        smartshift_write_outcome(expected, Some(&Load::Ready(ratchet(13)))),
        Some(SmartShiftWriteStatus::Failed)
    );
    assert_eq!(
        smartshift_write_outcome(
            expected,
            Some(&Load::<SmartShiftStatus>::Failed("timeout".to_string()))
        ),
        Some(SmartShiftWriteStatus::Failed)
    );
}

#[test]
fn stale_smartshift_reads_do_not_resolve_newer_writes() {
    let expected = ratchet(12);
    let applying = SmartShiftWriteStatus::Applying { expected, write_id: 2 };

    assert!(smartshift_read_is_current(Some(2), Some(&applying)));
    assert!(!smartshift_read_is_current(Some(1), Some(&applying)));
    assert!(!smartshift_read_is_current(None, Some(&applying)));
    assert!(!smartshift_read_is_current(Some(2), Some(&SmartShiftWriteStatus::Confirmed)));
    assert!(smartshift_read_is_current(None, None));
}

#[test]
fn a_written_wheel_is_confirmed_by_its_own_read() {
    let mut state = state_with_a_known_mouse();
    assert!(state.commit_smartshift(ratchet(12)).is_none());
    assert!(matches!(
        state.current_smartshift_write_status(),
        Some(SmartShiftWriteStatus::Applying { .. })
    ));
    let read = state.take_active_smartshift_confirm().expect("a read to confirm it");
    assert!(state.take_active_smartshift_confirm().is_none(), "it is taken once");
    state.finish_smartshift_read(read, Some(Ok(ratchet(12))));
    assert_eq!(
        state.current_smartshift_write_status(),
        Some(SmartShiftWriteStatus::Confirmed)
    );
    assert_eq!(state.current_smartshift_ready(), Some(ratchet(12)));
}

#[test]
fn a_wheel_that_reads_back_otherwise_failed() {
    let mut state = state_with_a_known_mouse();
    state.commit_smartshift(ratchet(12));
    let read = state.take_active_smartshift_confirm().expect("a read to confirm it");
    state.finish_smartshift_read(read, Some(Ok(ratchet(40))));
    assert_eq!(state.current_smartshift_write_status(), Some(SmartShiftWriteStatus::Failed));
}

#[test]
fn known_offline_device_is_an_asset_sync_target() {
    let mut remembered = mouse(0);
    remembered.display_name = "MX Anywhere 3S".into();
    remembered.codename = Some("MX Anywhere 3S".into());
    remembered.online = false;
    remembered.route = None;
    remembered.persistent = true;
    let model = model(0);
    let state = state_of(config(), vec![remembered]);

    assert_eq!(
        state.asset_models(),
        vec![AssetTarget::Hidpp { model, codename: Some("MX Anywhere 3S".to_string()) }]
    );
}

#[test]
fn identical_standalone_units_share_one_model_asset_target() {
    let light = |serial: &str| {
        let mut record = mouse(0x0101_0101);
        record.kind = DeviceKind::Light;
        record.config_key = format!("light:{serial}");
        record.inventory_key = record.config_key.clone();
        record.record_key = record.config_key.clone();
        record.model_info = None;
        record.codename = None;
        record.driver_id = Some("litra".into());
        record.registry_model_id = Some("8c900".into());
        record
    };
    let state = state_of(config(), vec![light("glow-superseded"), light("glow-second")]);

    assert_eq!(
        state.asset_models(),
        vec![AssetTarget::Standalone { registry_model_id: "8c900".into() }]
    );
}

#[test]
fn gui_state_saves_and_clears_supported_wheel_resolution() {
    let mut config = config();
    assert!(set_scroll_resolution_if_supported(
        &mut config,
        &key("mouse"),
        true,
        Some(ScrollResolution::Low),
    ));
    assert_eq!(config.scroll_resolution(&key("mouse")), Some(ScrollResolution::Low));

    assert!(set_scroll_resolution_if_supported(&mut config, &key("mouse"), true, None));
    assert_eq!(config.scroll_resolution(&key("mouse")), None);
}

#[test]
fn gui_state_ignores_unsupported_wheel_resolution() {
    let mut config = config();
    assert!(!set_scroll_resolution_if_supported(
        &mut config,
        &key("mouse"),
        false,
        Some(ScrollResolution::High),
    ));
    assert_eq!(config.scroll_resolution(&key("mouse")), None);
}

fn camera_controls(brightness: i32) -> Table<String, i32> {
    let mut controls = Table::new();
    controls.insert(key("brightness"), brightness);
    controls
}

#[test]
fn migrate_lifts_legacy_port_bound_camera_key() {
    let mut config = config();
    let model = key("camera:046d:0893");
    let legacy = key("camera-0x1123000046d0893");
    config.set_camera_controls(&legacy, camera_controls(42));
    let mut state = state_of(config, vec![]);

    state.migrate_legacy_camera_key(&model, &key("0x1123000046d0893"));

    assert_eq!(
        state
            .config
            .camera_controls(&model)
            .map(|c| *c.get(&key("brightness")).expect("a control")),
        Some(42)
    );
    assert!(state.config.camera_controls(&legacy).is_none());
}

#[test]
fn migrate_does_not_overwrite_existing_model_settings() {
    let mut config = config();
    let model = key("camera:046d:0893");
    let legacy = key("camera-0x1123000046d0893");
    config.set_camera_controls(&model, camera_controls(1));
    config.set_camera_controls(&legacy, camera_controls(99));
    let mut state = state_of(config, vec![]);

    state.migrate_legacy_camera_key(&model, &key("0x1123000046d0893"));

    assert_eq!(
        state
            .config
            .camera_controls(&model)
            .map(|c| *c.get(&key("brightness")).expect("a control")),
        Some(1)
    );
    assert_eq!(
        state
            .config
            .camera_controls(&legacy)
            .map(|c| *c.get(&key("brightness")).expect("a control")),
        Some(99)
    );
}

#[test]
fn gesture_maps_cover_every_gesture_mode_button() {
    // The display maps carry one entry per gesture-mode button: the dedicated
    // button's seeded default map plus a promoted button's stored map.
    let mut record = mouse(0x0102_0304);
    record.config_key = "2b042".into();
    record.inventory_key = "2b042".into();
    let mut state = state_of(config(), vec![record]);
    state.commit_gesture_mode(ButtonId::Back, true);

    let maps = state.current_gesture_maps();
    let dedicated = maps
        .get(&ButtonId::GestureButton)
        .expect("the dedicated button's default gesture mode must be shown");
    assert!(
        dedicated.contains(&GestureDirection::Up),
        "HID++ maps are shown seeded, matching watcher dispatch"
    );
    assert!(
        maps.contains(&ButtonId::Back),
        "a promoted OS-hook button gets its own menu simultaneously"
    );
}

fn mouse_with_battery(unit_id: u32, percentage: u8) -> DeviceRecord {
    let mut record = mouse(unit_id);
    record.battery = Some(BatteryInfo {
        percentage,
        level: BatteryLevel::Good,
        status: BatteryStatus::Discharging,
    });
    record
}

#[test]
fn a_battery_only_change_reaches_the_device_list() {
    let unit_id = 0x0102_0304;
    let mut state = state_of(config(), vec![mouse_with_battery(unit_id, 50)]);
    assert_eq!(
        state.devices.records[0].battery.as_ref().map(|b| b.percentage),
        Some(50)
    );

    let (changed, _) = state.refresh_inventories(&vec![mouse_with_battery(unit_id, 40)]);

    assert!(changed, "a battery change is a change");
    assert_eq!(
        state.devices.records[0].battery.as_ref().map(|b| b.percentage),
        Some(40),
        "the fresh reading must replace the stale one"
    );
}

#[test]
fn an_identical_snapshot_is_still_a_no_op() {
    let unit_id = 0x0102_0304;
    let mut state = state_of(config(), vec![mouse_with_battery(unit_id, 50)]);

    assert!(!state.refresh_inventories(&vec![mouse_with_battery(unit_id, 50)]).0);
}

#[test]
fn an_identical_snapshot_of_an_unread_unit_is_a_no_op() {
    let mut state = state_of(config(), vec![mouse(0)]);
    assert!(!state.refresh_inventories(&vec![mouse(0)]).0, "no known device could be it");
    assert_eq!(state.devices.records.len(), 1);

    let mut first = mouse(1);
    first.online = false;
    let mut second = mouse(2);
    second.online = false;
    let all = vec![mouse(0), first, second];
    let mut state = state_of(config(), all.clone());
    state.refresh_inventories(&all);
    let shown = state.devices.records.clone();
    assert_eq!(shown.len(), 3, "two known devices could be it");
    assert!(!state.refresh_inventories(&shown).0);
    assert_eq!(state.devices.records, shown);
}

#[test]
fn a_device_is_remembered_without_what_names_the_unit() {
    let state = state_with_a_known_mouse();
    let identity: DeviceIdentity = state
        .config
        .device_identity(&key(KNOWN_MOUSE_KEY))
        .expect("a persistent device is remembered");
    assert_eq!(identity.display_name, "MX Master 3S");
    let model = identity.model_info.expect("the model");
    assert_eq!(model.unit_id, 0);
    assert_eq!(model.serial_number, None);
}

#[test]
fn a_save_that_fails_leaves_what_was_saved() {
    let (mut state, first) = AppState::with_runtime(
        config(),
        vec![mouse(0xa393_cae0)],
        ConfigPersistence::UserFile,
        defaults(),
    );
    if let Some(save) = first {
        state.finish_save(save, Ok(()));
    }
    let save = state.set_thumbwheel_sensitivity(50).expect("something to write");
    state.finish_save(save, Err("disk full".into()));
    assert_eq!(state.app_settings().thumbwheel_sensitivity, DEFAULT_SENSITIVITY);
    assert!(state.config_issue().is_some());
}

#[test]
fn a_save_that_lands_reaches_the_agent() {
    let (mut state, first) = AppState::with_runtime(
        config(),
        vec![mouse(0xa393_cae0)],
        ConfigPersistence::UserFile,
        defaults(),
    );
    if let Some(save) = first {
        state.finish_save(save, Ok(()));
    }
    state.outbox.clear();
    let save = state.commit_binding(ButtonId::Back, Action::Copy).expect("something to write");
    assert!(save.reload);
    assert!(matches!(save.then_do, Then::Done));
    assert!(state.outbox.is_empty(), "nothing goes out before the file is written");
    state.finish_save(save, Ok(()));
    assert!(matches!(state.outbox.as_slice(), [Command::ReloadConfig]));
}

#[test]
fn a_device_speed_that_is_the_default_is_no_override() {
    let mut state = state_with_a_known_mouse();
    let mouse = key(KNOWN_MOUSE_KEY);
    state.set_device_thumbwheel_sensitivity(&mouse, 30);
    assert_eq!(state.device_thumbwheel_sensitivity(&mouse), 30);
    state.set_device_thumbwheel_sensitivity(&mouse, DEFAULT_SENSITIVITY);
    state.set_thumbwheel_sensitivity(20);
    assert_eq!(state.device_thumbwheel_sensitivity(&mouse), 20);
}

#[test]
fn reads_are_given_up_after_some_failures() {
    let mut reads: LazyDeviceData<u32> = LazyDeviceData::new();
    let device = DeviceKey::from("a");
    for attempt in 1..=LOAD_MAX_ATTEMPTS {
        assert!(reads.unqueried(&device));
        reads.mark_loading(&device);
        let error = WriteError::Transient { message: "timeout".into() };
        assert_eq!(reads.store(device.clone(), Err(error), false, true, true), None);
        assert_eq!(reads.unqueried(&device), attempt < LOAD_MAX_ATTEMPTS);
    }
    assert_eq!(reads.status(&device), Load::Failed("timeout".into()));
    reads.retry(&device);
    assert!(reads.unqueried(&device));
    assert_eq!(reads.store(device.clone(), Ok(7), false, true, true), Some(7));
    assert_eq!(reads.status(&device), Load::Ready(7));
}

#[test]
fn what_a_device_does_not_have_is_not_asked_for_again() {
    let mut reads: LazyDeviceData<u32> = LazyDeviceData::new();
    let device = DeviceKey::from("a");
    let error = WriteError::Transient { message: "no such feature".into() };
    reads.store(device.clone(), Err(error), true, true, true);
    assert_eq!(reads.status(&device), Load::Unsupported("no such feature".into()));
}
