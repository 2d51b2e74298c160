//! What the windows of the application show.

use openlogi::action::Action;
use openlogi::carousel::{Arrow, Carousel};
use openlogi::components::{
    chip_click, localize_placeholder, ChipClick, DynamicSpacing, Toggle, BASE_REM_SIZE_IN_PX,
};
use openlogi::config::{
    ActionRingConfig, AppSettings, Appearance, AssetSourcePreference, Config, DeviceViewMode,
    Lighting,
};
use openlogi::controls::{ButtonId, GestureDirection};
use openlogi::device::{
    BatteryInfo, BatteryLevel, BatteryStatus, Capabilities, DeviceInventory, DeviceKey,
    DeviceKind, DeviceModelInfo, DeviceRecord, DeviceRoute, DeviceTransports, PairedDevice,
    ReceiverInfo, ResolvedAsset,
};
use openlogi::diagnostics::{
    arch_label, asset_info, collect, connection_for, dpi_summary, redact_home, AssetSource,
    ConnectionKind, HostFacts, InventoryState,
};
use openlogi::glow::{GlowGeometry, GlowSeg};
use openlogi::home::{
    battery_icon, battery_needs_attention, battery_view, connection_icon_path, custom_name,
    device_card, device_count_label, keyboard_glow, BatteryIcon, CardTexts, DeviceCount,
    DeviceImage, Ring,
};
use openlogi::keyed::Table;
use openlogi::light_visual::{light_visual, LightSettings, LightVisual};
use openlogi::load::Load;
use openlogi::menu::{
    config_folder_url, device_menu_items, file_url, has_room, key_bindings, menus, opened_folder, MenuAction,
    MenuItem,
};
use openlogi::mouse_view::{
    binding_label_for_control, concerns_picture, leader_lines, localized_action_label, ActionText,
    BindingLabel, Label, LeaderLine, MouseControlId, MouseModelView, MouseWorkspaceData, Side,
    StateEvent,
};
use openlogi::picker::{
    action_icon_path, action_rows, direction_cell, grouped_catalog, plus_card, toggled_direction,
};
use openlogi::profile_scope::{
    add_app_content, application_initial, application_list_height, friendly_app_name,
    identity_for_application, preferred_identity_kind, profile_canvas_status,
    profile_matches_query, profile_scope_bar, profile_scope_content, remove_question, AppCatalogPicker, Application,
    ApplicationIdentity, CatalogLoad, Host, IdentityKind, ProfileChoice, ProfileSummary,
    RemoveQuestion,
};
use openlogi::runtime::{AgentLink, AgentStatus, AgentUpdate, CameraWatch, InventoryHealth, Runtime};
use openlogi::state::{
    AppState, ConfigPersistence, Defaults, DpiInfo, ForegroundApp, ForegroundApps,
};
use openlogi::updater::{
    asks_for_consent, checks_at_start, default_manifest_url, installs_by_itself,
    minisign_public_key, release_arch, release_format, UpdateStatus,
};

fn settings() -> AppSettings {
    AppSettings {
        launch_at_login: false,
        show_in_menu_bar: true,
        check_for_updates: false,
        auto_install_updates: true,
        update_prompt_seen: false,
        appearance: Appearance::System,
        theme_light: None,
        theme_dark: None,
        app_icon: "default".into(),
        ui_radius: None,
        thumbwheel_sensitivity: 14,
        auto_download_assets: true,
        asset_source: AssetSourcePreference::Automatic,
        language: Some("ja".into()),
        device_view_mode: DeviceViewMode::Grid,
    }
}

fn defaults() -> Defaults {
    let mut actions = Table::new();
    actions.insert(ButtonId::Back, Action::MouseBack);
    actions.insert(ButtonId::MiddleClick, Action::MiddleClick);
    actions.insert(ButtonId::ThumbwheelScrollUp, Action::HorizontalScrollRight);
    actions.insert(ButtonId::ThumbwheelScrollDown, Action::HorizontalScrollLeft);
    let mut gestures = Table::new();
    gestures.insert(GestureDirection::Up, Action::MissionControl);
    gestures.insert(GestureDirection::Click, Action::ShowDesktop);
    Defaults {
        actions,
        gestures,
        gesture_buttons: vec![ButtonId::GestureButton],
        seeded_buttons: vec![ButtonId::GestureButton],
        ring: ActionRingConfig { enabled: true, haptics: true, slots: Table::new() },
        lighting: Lighting { enabled: false, red: 9, green: 8, blue: 7 },
    }
}

fn transports(usb: bool, equad: bool, bluetooth: bool, btle: bool) -> DeviceTransports {
    DeviceTransports { usb, equad, bluetooth, btle }
}

fn model() -> DeviceModelInfo {
    DeviceModelInfo {
        model_key: "2b034".into(),
        entity_count: 1,
        serial_number: Some("2147LZ".into()),
        unit_id: 7,
        transports: transports(true, false, false, true),
        model_ids: vec![0xb034, 0, 0],
        extended_model_id: 2,
    }
}

fn record() -> DeviceRecord {
    DeviceRecord {
        config_key: "mouse-1".into(),
        inventory_key: "mouse-1".into(),
        record_key: "mouse-1".into(),
        model_key: "2b034".into(),
        display_name: "Desk mouse".into(),
        model_name: "MX Master 3S".into(),
        codename: None,
        kind: DeviceKind::Mouse,
        persistent: true,
        online: true,
        slot: 2,
        route: Some(DeviceRoute::Bolt { address: "1".into() }),
        route_key: "bolt".into(),
        order: 0,
        battery: Some(BatteryInfo {
            percentage: 15,
            level: BatteryLevel::Low,
            status: BatteryStatus::Discharging,
        }),
        model_info: Some(model()),
        capabilities: Some(Capabilities {
            buttons: true,
            pointer: true,
            lighting: false,
            thumbwheel: true,
            scroll_inversion: false,
            hires_wheel: false,
        }),
        light_capabilities: None,
        driver_id: None,
        registry_model_id: None,
        asset: None,
    }
}

fn state_of(records: Vec<DeviceRecord>) -> AppState {
    AppState::with_runtime(
        Config::empty(settings()),
        records,
        ConfigPersistence::MemoryOnly,
        defaults(),
    )
    .0
}

#[test]
fn profile_identifiers_have_a_readable_fallback() {
    assert_eq!(friendly_app_name("com.google.Chrome"), "Chrome");
    assert_eq!(friendly_app_name("exe:C:\\Tools\\Zed.exe"), "Zed");
}

#[test]
fn odd_profile_identifiers_stay_readable() {
    assert_eq!(friendly_app_name("exe:/usr/bin/zed/"), "zed");
    assert_eq!(friendly_app_name("exe:a.exe.exe"), "a");
    assert_eq!(friendly_app_name("exe://"), "//");
    assert_eq!(friendly_app_name("plain"), "plain");
    assert_eq!(friendly_app_name("org.example."), "example");
    assert_eq!(friendly_app_name("..."), "...");
    assert_eq!(friendly_app_name(""), "");
}

fn identity(kind: IdentityKind, value: &str) -> ApplicationIdentity {
    ApplicationIdentity { kind, value: value.into() }
}

fn application_with_identities(identities: Vec<ApplicationIdentity>) -> Application {
    Application { name: "Editor".into(), identities }
}

#[test]
fn observed_identity_wins_over_the_platform_default() {
    let application = application_with_identities(vec![
        identity(IdentityKind::LinuxWaylandAppId, "org.example.Editor"),
        identity(IdentityKind::LinuxStartupWmClass, "Editor"),
    ]);
    let observed = vec!["Editor".to_string()];

    assert_eq!(
        identity_for_application(&application, &observed, IdentityKind::LinuxWaylandAppId)
            .as_deref(),
        Some("Editor")
    );
}

#[test]
fn unobserved_application_uses_the_active_identity_namespace() {
    let application = application_with_identities(vec![
        identity(IdentityKind::LinuxWaylandAppId, "org.example.Editor"),
        identity(IdentityKind::LinuxStartupWmClass, "Editor"),
    ]);

    assert_eq!(
        identity_for_application(&application, &vec![], IdentityKind::LinuxWaylandAppId)
            .as_deref(),
        Some("org.example.Editor")
    );
}

#[test]
fn linux_desktop_id_keeps_apps_without_startup_class_available() {
    let application = application_with_identities(vec![identity(
        IdentityKind::LinuxDesktopId,
        "org.example.Editor",
    )]);

    assert_eq!(
        identity_for_application(&application, &vec![], IdentityKind::LinuxStartupWmClass)
            .as_deref(),
        Some("org.example.Editor")
    );
    assert_eq!(
        identity_for_application(&application, &vec![], IdentityKind::LinuxWaylandAppId),
        None
    );
}

#[test]
fn the_desktop_decides_which_names_are_matched() {
    let linux = |desktop: &str, session: Option<&str>, wayland: bool| Host::Linux {
        desktop: desktop.into(),
        session: session.map(str::to_string),
        wayland,
    };
    let class = IdentityKind::LinuxStartupWmClass;
    let app_id = IdentityKind::LinuxWaylandAppId;
    assert_eq!(preferred_identity_kind(&Host::MacOs, None), IdentityKind::MacBundleIdentifier);
    assert_eq!(
        preferred_identity_kind(&Host::Windows, Some(app_id)),
        IdentityKind::WindowsExecutablePath
    );
    assert_eq!(preferred_identity_kind(&linux("KDE", Some("wayland"), true), None), app_id);
    assert_eq!(preferred_identity_kind(&linux("KDE", Some("x11"), true), None), class);
    assert_eq!(preferred_identity_kind(&linux("KDE", None, false), None), class);
    assert_eq!(preferred_identity_kind(&linux("ubuntu:GNOME", None, true), None), class);
    assert_eq!(preferred_identity_kind(&linux("KDE", Some("x11"), true), Some(app_id)), app_id);
    assert_eq!(
        preferred_identity_kind(
            &linux("KDE", Some("wayland"), true),
            Some(IdentityKind::LinuxDesktopId)
        ),
        app_id
    );
}

fn app(id: &str, name: &str) -> ForegroundApp {
    ForegroundApp { id: id.into(), display_name: name.into() }
}

fn names(list: &[ProfileChoice]) -> Vec<&str> {
    list.iter().map(|choice| choice.name.as_str()).collect()
}

fn installed(name: &str, id: &str) -> Application {
    Application {
        name: name.into(),
        identities: vec![identity(IdentityKind::MacBundleIdentifier, id)],
    }
}

#[test]
fn the_profile_bar_lists_profiles_and_what_can_be_added() {
    let mut state = state_of(vec![record()]);
    let mouse = "mouse-1".to_string();
    for id in ["com.apple.Safari", "org.mozilla.firefox"] {
        state.config.set_per_app_binding(&mouse, &id.into(), ButtonId::Back, Some(Action::Undo));
    }
    state.set_foreground(ForegroundApps {
        current: None,
        recent: vec![app("com.apple.Safari", "safari"), app("dev.zed.Zed", "Zed")],
    });
    state.set_editing_app(Some("com.example.Draft".into()));

    let mut catalog = AppCatalogPicker::new(&Host::MacOs);
    let scope = profile_scope_bar(&state, &catalog).expect("a persistent device");
    assert!(scope.loading && !scope.failed);
    assert_eq!(names(&scope.profiles), ["Draft", "firefox", "safari"]);
    let (everywhere, tabs) = profile_scope_content(&scope);
    assert!(!everywhere);
    let tabs: Vec<_> = tabs.iter().map(|tab| (tab.initial, tab.selected)).collect();
    assert_eq!(tabs, [('D', true), ('f', false), ('s', false)]);
    assert_eq!(names(&scope.recent), ["Zed"]);
    assert!(scope.applications.is_empty());
    assert!(scope.options.is_none(), "a profile that is not saved has no options");

    catalog.discovered(
        &Host::MacOs,
        Some((
            vec![
                installed("mail", "com.apple.mail"),
                installed("Safari", "com.apple.Safari"),
                installed("Calendar", "com.apple.iCal"),
                installed("Mail", "com.example.mail"),
                installed("Mail again", "com.apple.mail"),
                installed("Draft", "com.example.Draft"),
            ],
            None,
        )),
    );
    let scope = profile_scope_bar(&state, &catalog).expect("a persistent device");
    assert_eq!(names(&scope.applications), ["Calendar", "mail", "Mail"]);

    state.set_editing_app(Some("com.apple.Safari".into()));
    let scope = profile_scope_bar(&state, &catalog).expect("a persistent device");
    assert_eq!(scope.options.map(|choice| choice.override_count), Some(1));

    catalog.discovered(&Host::MacOs, None);
    assert_eq!(catalog.load, CatalogLoad::Failed);
    assert!(profile_scope_bar(&state, &catalog).expect("a persistent device").failed);
    assert!(profile_scope_bar(&state_of(vec![]), &catalog).is_none());
}

#[test]
fn searching_finds_names_and_identifiers_whatever_their_case() {
    let mut state = state_of(vec![record()]);
    state.set_foreground(ForegroundApps { current: None, recent: vec![app("dev.zed.Zed", "Zed")] });
    let mut catalog = AppCatalogPicker::new(&Host::MacOs);
    catalog.discovered(
        &Host::MacOs,
        Some((vec![installed("Mail", "com.apple.mail"), installed("Notes", "com.apple.Notes")], None)),
    );
    let scope = profile_scope_bar(&state, &catalog).expect("a persistent device");

    let content = add_app_content(&scope, &catalog);
    assert!(!content.show_applications);
    assert_eq!(names(&content.recent), ["Zed"]);

    catalog.search = "  APPLE.n ".into();
    let content = add_app_content(&scope, &catalog);
    assert!(content.show_applications);
    assert!(content.recent.is_empty());
    assert_eq!(names(&content.applications), ["Notes"]);
    assert_eq!(content.list_height, 44);
    assert!(!content.say_no_matches);

    catalog.search = "nothing".into();
    assert!(add_app_content(&scope, &catalog).say_no_matches);

    catalog.clear_search();
    catalog.toggle();
    let content = add_app_content(&scope, &catalog);
    assert!(content.show_applications);
    assert_eq!(content.list_height, 88);
}

#[test]
fn profiles_are_described_by_their_overrides() {
    let mut state = state_of(vec![record()]);
    let status = |state: &AppState| profile_canvas_status(state).expect("a persistent device");
    assert_eq!(status(&state), (ProfileSummary::Everywhere, None));
    state.set_editing_app(Some("com.apple.Safari".into()));
    assert_eq!(status(&state).0, ProfileSummary::NoOverrides { app: "Safari".into() });
    state.commit_binding(ButtonId::Back, Action::Undo);
    assert_eq!(status(&state).0, ProfileSummary::OneOverride { app: "Safari".into() });
    state.commit_binding(ButtonId::Forward, Action::Redo);
    assert_eq!(status(&state).0, ProfileSummary::Overrides { app: "Safari".into(), count: 2 });
    state.set_foreground(ForegroundApps {
        current: None,
        recent: vec![app("com.apple.Safari", "Safari Browser")],
    });
    assert_eq!(status(&state).1.as_deref(), Some("Safari Browser"));
    state.remove_editing_app_profile();
    assert_eq!(status(&state), (ProfileSummary::Everywhere, None));
}

#[test]
fn small_parts_of_the_profile_bar() {
    assert_eq!(application_initial("  Zed"), 'Z');
    assert_eq!(application_initial(" \t"), '?');
    assert_eq!(application_list_height(0), 0);
    assert_eq!(application_list_height(5), 220);
    assert_eq!(application_list_height(60), 264);
    let mut choice = ProfileChoice {
        app: "com.apple.Safari".into(),
        name: "Safari".into(),
        override_count: 1,
        persisted: true,
    };
    assert!(profile_matches_query(&choice, ""));
    assert!(profile_matches_query(&choice, "fari"));
    assert!(!profile_matches_query(&choice, "Fari"), "a query is in lower case");
    assert_eq!(remove_question(&choice), RemoveQuestion::OneOverride { app: "Safari".into() });
    choice.override_count = 0;
    assert_eq!(
        remove_question(&choice),
        RemoveQuestion::Overrides { app: "Safari".into(), count: 0 }
    );
}

#[test]
fn active_thumbwheel_directions_highlight_the_paired_control() {
    assert_eq!(
        MouseControlId::from_active_button(ButtonId::ThumbwheelScrollUp),
        MouseControlId::ThumbwheelRotation
    );
    assert_eq!(
        MouseControlId::from_active_button(ButtonId::ThumbwheelScrollDown),
        MouseControlId::ThumbwheelRotation
    );
}

#[test]
fn selecting_another_control_closes_the_action_picker() {
    let mut view = MouseModelView::new();
    view.selected = Some(MouseControlId::Button(ButtonId::Back));
    view.action_picker_open = true;

    view.select(MouseControlId::Button(ButtonId::Forward));

    assert!(!view.action_picker_open);
}

#[test]
fn the_picture_of_another_device_starts_from_nothing() {
    let mut view = MouseModelView::new();
    view.show_device(Some("a".into()));
    view.select(MouseControlId::Button(ButtonId::Back));
    view.set_gesture_selected_dir(Some(GestureDirection::Up));
    view.toggle_action_picker();
    view.set_control_hovered(MouseControlId::ThumbwheelRotation, true);
    view.set_control_hovered(MouseControlId::Button(ButtonId::Back), false);
    assert_eq!(view.highlight(None), Some(MouseControlId::ThumbwheelRotation));
    view.show_device(Some("a".into()));
    assert!(view.action_picker_open);
    assert_eq!(view.gesture_selected_dir(), Some(GestureDirection::Up));
    view.close_action_picker();
    assert!(!view.action_picker_open);
    view.show_device(Some("b".into()));
    assert_eq!(
        view,
        MouseModelView { current_device_key: Some("b".into()), ..MouseModelView::new() }
    );
    let active = Some(MouseControlId::Button(ButtonId::Back));
    assert_eq!(view.highlight(active), active);
}

#[test]
fn cards_say_what_controls_do() {
    let mut state = state_of(vec![record()]);
    state.commit_gesture_mode(ButtonId::MiddleClick, true);
    let data = MouseWorkspaceData::read(&state, Some(ButtonId::ThumbwheelScrollUp), false);
    assert_eq!(data.device_key.as_deref(), Some("mouse-1"));
    assert_eq!(data.active, Some(MouseControlId::ThumbwheelRotation));
    assert!(data.thumbwheel);
    let gesturing = data.gesture_buttons();
    assert_eq!(gesturing, [ButtonId::MiddleClick, ButtonId::GestureButton]);

    let label = |control| {
        binding_label_for_control(control, &data.bindings, &defaults().actions, &gesturing)
    };
    let gestures = label(MouseControlId::Button(ButtonId::MiddleClick));
    assert_eq!(gestures, BindingLabel::Directions);
    assert_eq!(gestures.icon(None), "action-icons/move.svg");
    let back = label(MouseControlId::Button(ButtonId::Back));
    assert_eq!(back, BindingLabel::Action(Action::MouseBack));
    assert_eq!(back.icon(None), "action-icons/circle-arrow-left.svg");
    let wheel = label(MouseControlId::ThumbwheelRotation);
    assert_eq!(
        wheel,
        BindingLabel::Wheel {
            backward: Action::HorizontalScrollLeft,
            forward: Action::HorizontalScrollRight,
        }
    );
    assert_eq!(wheel.icon(None), "action-icons/chevrons-right.svg");
    assert_eq!(wheel.icon(Some("mine.svg")), "mine.svg");
}

#[test]
fn a_profile_hides_the_gestures_it_overrides() {
    let mut state = state_of(vec![record()]);
    state.set_editing_app(Some("com.apple.Safari".into()));
    state.commit_binding(ButtonId::GestureButton, Action::Copy);
    let data = MouseWorkspaceData::read(&state, None, false);
    assert_eq!(data.editing_app.as_deref(), Some("Safari"));
    assert!(data.gesture_buttons().is_empty());
}

#[test]
fn only_changes_of_the_selected_device_show_in_its_picture() {
    let state = state_of(vec![record()]);
    let mine = DeviceKey::from("mouse-1");
    let other = DeviceKey::from("mouse-2");
    assert!(concerns_picture(&StateEvent::BindingsChanged(mine.clone()), &state));
    assert!(!concerns_picture(&StateEvent::BindingsChanged(other.clone()), &state));
    assert!(concerns_picture(&StateEvent::LightingChanged(mine.clone()), &state));
    assert!(!concerns_picture(&StateEvent::DpiChanged(mine), &state));
    assert!(concerns_picture(&StateEvent::DeviceSelected(other), &state));
    assert!(concerns_picture(&StateEvent::InventoryChanged, &state));
    assert!(!concerns_picture(&StateEvent::SettingsChanged, &state));
}

#[test]
fn a_picture_shows_what_stands_out() {
    let state = state_of(vec![record()]);
    let data = MouseWorkspaceData::read(&state, Some(ButtonId::ThumbwheelScrollDown), false);
    let back = MouseControlId::Button(ButtonId::Back);
    let gesture = MouseControlId::Button(ButtonId::GestureButton);
    let wheel = MouseControlId::ThumbwheelRotation;
    let labels = vec![
        Label { id: back, side: Side::Left },
        Label { id: gesture, side: Side::Right },
        Label { id: wheel, side: Side::Right },
    ];
    let spots = vec![wheel, back];
    let mut view = MouseModelView::new();
    view.select(gesture);
    view.render(&defaults(), &data, &labels, &spots);
    assert_eq!(view.selected, None, "another device is shown");
    view.select(gesture);
    let picture = view.render(&defaults(), &data, &labels, &spots);
    let cards: Vec<_> = picture.cards.iter().map(|c| (c.highlighted, c.selected)).collect();
    assert_eq!(cards, [(false, false), (true, true), (true, false)]);
    assert_eq!(picture.cards[0].binding, BindingLabel::Action(Action::MouseBack));
    assert_eq!(picture.cards[1].binding, BindingLabel::Directions);
    let dots: Vec<_> = picture.dots.iter().map(|d| d.highlighted).collect();
    assert_eq!(dots, [true, false]);
    view.set_control_hovered(back, true);
    let picture = view.render(&defaults(), &data, &labels, &spots);
    assert!(picture.cards[0].highlighted && picture.cards[2].highlighted);
    assert!(picture.lines[0].highlighted && !picture.lines[1].highlighted);
    let mut rebound = data.clone();
    rebound.bindings.insert(ButtonId::Back, Action::Copy);
    let picture = view.render(&defaults(), &rebound, &labels, &spots);
    assert_eq!(picture.cards[0].binding, BindingLabel::Action(Action::Copy));
}

#[test]
fn actions_are_named() {
    assert_eq!(
        localized_action_label(&Action::SetDpiPreset(1)),
        ActionText::DpiPreset("2".into())
    );
    assert_eq!(
        localized_action_label(&Action::CustomShortcut("Ctrl+K".into())),
        ActionText::Shortcut("Ctrl+K".into())
    );
    assert_eq!(localized_action_label(&Action::Copy), ActionText::Named);
}

#[test]
fn lines_lead_from_spots_to_cards() {
    let back = MouseControlId::Button(ButtonId::Back);
    let forward = MouseControlId::Button(ButtonId::Forward);
    let labels = vec![
        Label { id: forward, side: Side::Left },
        Label { id: MouseControlId::ThumbwheelRotation, side: Side::Right },
        Label { id: back, side: Side::Right },
    ];
    let lines = leader_lines(&labels, &vec![back, forward, back], Some(forward));
    assert_eq!(
        lines,
        [
            LeaderLine { label: 0, hotspot: 1, highlighted: true },
            LeaderLine { label: 2, hotspot: 0, highlighted: false },
        ]
    );
}

#[test]
fn gesture_action_catalog_includes_actions_ring() {
    let catalog = vec![
        (1u8, Action::LeftClick),
        (2u8, Action::MissionControl),
        (1u8, Action::RightClick),
        (2u8, Action::ShowActionsRing),
    ];
    let actions = grouped_catalog(&catalog)
        .into_iter()
        .flat_map(|(_, actions)| actions)
        .collect::<Vec<_>>();
    assert!(actions.contains(&Action::ShowActionsRing));
    assert_eq!(
        actions,
        [
            Action::LeftClick,
            Action::RightClick,
            Action::MissionControl,
            Action::ShowActionsRing,
        ]
    );
}

#[test]
fn rows_are_counted_through_and_the_bound_one_is_marked() {
    let sections = vec![vec![Action::Copy, Action::Paste], vec![Action::Undo]];
    let rows = action_rows(&sections, &Some(Action::Undo));
    let ids: Vec<_> = rows.iter().map(|row| (row.section, row.id, row.selected)).collect();
    assert_eq!(ids, [(0, 0, false), (0, 1, false), (1, 2, true)]);
    assert_eq!(rows[1].icon, "action-icons/clipboard-paste.svg");
    assert!(action_rows(&sections, &None).iter().all(|row| !row.selected));
    assert_eq!(action_icon_path(&Action::Nothing), "action-icons/ban.svg");
}

#[test]
fn unbound_movements_do_nothing_but_click() {
    let mut state = state_of(vec![record()]);
    state.commit_gesture_mode(ButtonId::Back, true);
    state.commit_gesture_binding(ButtonId::Back, GestureDirection::Left, Action::Copy);
    let cells = plus_card(&state, ButtonId::Back, Some(GestureDirection::Left));
    let shown: Vec<_> = cells.iter().map(|cell| cell.direction).collect();
    assert_eq!(
        shown,
        [
            GestureDirection::Up,
            GestureDirection::Left,
            GestureDirection::Click,
            GestureDirection::Right,
            GestureDirection::Down,
        ]
    );
    assert!(cells[1].active && !cells[0].active);
    assert_eq!(cells[1].action, Action::Copy);
    assert_eq!(cells[2].action, Action::MouseBack);
    let fresh = direction_cell(&state, ButtonId::Forward, GestureDirection::Up, None);
    assert_eq!(fresh.action, Action::Nothing);
    assert!(!fresh.is_default);
    assert_eq!(fresh.id, 10);
    let seeded = direction_cell(&state, ButtonId::GestureButton, GestureDirection::Up, None);
    assert_eq!(seeded.action, Action::MissionControl);
    assert!(seeded.is_default);
    let up = GestureDirection::Up;
    assert_eq!(toggled_direction(None, up), Some(up));
    assert_eq!(toggled_direction(Some(up), up), None);
    assert_eq!(toggled_direction(Some(GestureDirection::Down), up), Some(up));
}

fn texts() -> CardTexts<'static> {
    CardTexts { kind: "Mouse", route: "Logi Bolt", channel: "Channel" }
}

#[test]
fn a_card_says_what_there_is_to_say() {
    let card = device_card(&record(), true, true, texts(), false);
    assert_eq!(card.ring, Ring::Accent);
    assert!(!card.dimmed && card.say_active && card.can_rename);
    assert_eq!(card.subtitle, "MX Master 3S · Mouse");
    assert_eq!(card.link, "Logi Bolt · Channel 2");
    assert_eq!(card.link_icon, "action-icons/bolt.svg");
    assert_eq!(card.image, DeviceImage::ChipMark);
    let battery = card.battery.expect("a battery");
    assert_eq!(battery.percentage.as_deref(), Some("15%"));
    assert!(battery.warn && battery.say_low && !battery.last_known);

    let mut plain = record();
    plain.display_name = plain.model_name.clone();
    plain.kind = DeviceKind::Camera;
    plain.route = None;
    plain.online = false;
    plain.battery = None;
    let card = device_card(&plain, false, true, texts(), false);
    assert_eq!(card.ring, Ring::Disabled);
    assert!(card.dimmed);
    assert_eq!(card.subtitle, "Mouse");
    assert_eq!(card.link, "Logi Bolt");
    assert_eq!(card.link_icon, "action-icons/usb.svg");
    assert_eq!(card.image, DeviceImage::CameraMark);
    assert!(card.battery.is_none());
    assert_eq!(custom_name(&plain), "");
    assert_eq!(custom_name(&record()), "Desk mouse");
}

#[test]
fn links_are_marked_by_what_can_carry_them() {
    let direct = Some(DeviceRoute::Direct { address: "1".into() });
    let icon = |t| connection_icon_path(&direct, t);
    assert_eq!(icon(None), "action-icons/bluetooth.svg");
    assert_eq!(icon(Some(transports(false, false, false, false))), "action-icons/bluetooth.svg");
    assert_eq!(icon(Some(transports(true, false, false, false))), "action-icons/usb.svg");
    assert_eq!(icon(Some(transports(false, true, false, false))), "action-icons/usb.svg");
    assert_eq!(icon(Some(transports(true, false, false, true))), "action-icons/bluetooth.svg");
    let unifying = Some(DeviceRoute::Unifying { address: "1".into() });
    assert_eq!(connection_icon_path(&unifying, None), "action-icons/unifying.svg");
    let raw = Some(DeviceRoute::RawHid { address: "1".into() });
    assert_eq!(connection_icon_path(&raw, None), "action-icons/usb.svg");
}

#[test]
fn batteries_ask_for_attention_only_when_they_drain() {
    let battery = |percentage, level, status| BatteryInfo { percentage, level, status };
    let low = battery(20, BatteryLevel::Low, BatteryStatus::Discharging);
    assert!(battery_needs_attention(&low));
    assert_eq!(battery_icon(&low), BatteryIcon::Low);
    let fine = battery(21, BatteryLevel::Good, BatteryStatus::Discharging);
    assert!(!battery_needs_attention(&fine));
    assert_eq!(battery_icon(&fine), BatteryIcon::Medium);
    let charging = battery(3, BatteryLevel::Critical, BatteryStatus::ChargingSlow);
    assert!(!battery_needs_attention(&charging));
    assert_eq!(battery_icon(&charging), BatteryIcon::Charging);
    let broken = battery(50, BatteryLevel::Good, BatteryStatus::Error);
    assert_eq!(battery_icon(&broken), BatteryIcon::Warning);
    let view = battery_view(&charging, false, true);
    assert_eq!(view.percentage, None);
    assert!(view.last_known && !view.say_low);
    assert_eq!(device_count_label(1), DeviceCount::One);
    assert_eq!(device_count_label(0), DeviceCount::Many(0));
}

#[test]
fn a_lit_keyboard_glows() {
    let glow = GlowGeometry {
        width: 2,
        height: 1,
        segments: vec![GlowSeg { col: 1, row: 0, len: 1 }],
    };
    let mut keyboard = record();
    keyboard.kind = DeviceKind::Keyboard;
    keyboard.asset = Some(ResolvedAsset {
        depot: "mx_keys".into(),
        hero_image_path: Some("hero.png".into()),
        glow: Some(glow.clone()),
    });
    let mut state = state_of(vec![keyboard.clone()]);
    assert_eq!(keyboard_glow(&state, &keyboard, false), None, "it is not lit");
    state.commit_lighting(Lighting { enabled: true, red: 1, green: 2, blue: 3 });
    assert_eq!(keyboard_glow(&state, &keyboard, false), Some((glow, (1, 2, 3))));
    assert_eq!(keyboard_glow(&state, &keyboard, true), None);
    assert_eq!(state.lighting(false), Lighting { enabled: true, red: 1, green: 2, blue: 3 });
    assert_eq!(state.lighting(true), defaults().lighting, "nothing of it is shown");
    assert_eq!(state_of(vec![]).lighting(false), defaults().lighting);
    assert_eq!(state_of(vec![record()]).lighting(false), defaults().lighting);
    assert_eq!(
        device_card(&keyboard, true, false, texts(), false).image,
        DeviceImage::Photo("hero.png".into())
    );
    let mut mouse = keyboard.clone();
    mouse.kind = DeviceKind::Mouse;
    assert_eq!(keyboard_glow(&state, &mouse, false), None);
    state.commit_lighting(Lighting { enabled: false, red: 1, green: 2, blue: 3 });
    assert_eq!(keyboard_glow(&state, &keyboard, false), None);
}

#[test]
fn lights_are_drawn_as_they_are_set() {
    let settings = LightSettings { brightness_percent: 140, temperature_kelvin: Some(9000) };
    assert_eq!(light_visual(true, false, true, settings), LightVisual::Product { dimmed: true });
    assert_eq!(
        light_visual(false, true, true, settings),
        LightVisual::Drawn {
            dimmed: false,
            powered: true,
            kelvin: 6500,
            brightness_percent: 100,
        }
    );
    let unset = LightSettings { brightness_percent: 30, temperature_kelvin: None };
    assert_eq!(
        light_visual(false, false, true, unset),
        LightVisual::Drawn { dimmed: true, powered: false, kelvin: 4600, brightness_percent: 30 }
    );
}

#[test]
fn menus_tell_the_devices() {
    let device = |items: &[MenuItem]| {
        items
            .iter()
            .filter_map(|item| match item {
                MenuItem::Note { title } => Some(title.clone()),
                _ => None,
            })
            .collect::<Vec<_>>()
    };
    assert_eq!(
        device(&device_menu_items(&vec![], &vec![], "Charging")),
        ["No devices connected"]
    );
    let mut charging = record();
    charging.record_key = "other".into();
    let mut wired = record();
    wired.battery = None;
    let records = vec![record(), charging, wired];
    assert_eq!(
        device(&device_menu_items(&records, &vec!["other".into()], "Charging")),
        ["Desk mouse · 15%", "Desk mouse · Charging", "Desk mouse"]
    );
    let all = menus(true, &records, &vec![], "Charging");
    let titles: Vec<_> = all.iter().map(|menu| menu.name.as_str()).collect();
    assert_eq!(titles, ["OpenLogi", "Edit", "View", "Device", "Window", "Help"]);
    assert!(all[0].items.contains(&MenuItem::Services));
    assert!(!menus(false, &records, &vec![], "Charging")[0].items.contains(&MenuItem::Services));
    assert_eq!(key_bindings(true).len(), 13);
    assert_eq!(key_bindings(false).len(), 11);
    assert!(key_bindings(false)
        .iter()
        .any(|k| k.keystroke == "alt-left" && k.action == MenuAction::NavigateBack && k.main_surface));
}

#[test]
fn folders_have_urls() {
    assert_eq!(file_url("config/openlogi"), None);
    if std::path::Path::new("/etc").is_absolute() {
        assert_eq!(file_url("/tmp/a b").as_deref(), Some("file:///tmp/a%20b"));
        assert_eq!(file_url("/").as_deref(), Some("file:///"));
        assert_eq!(
            file_url("/\u{e9}/a-_.~!$&'()*+,;=@[]^|z").as_deref(),
            Some("file:///%C3%A9/a-_.~!$&'()*+,;=@[]^|z")
        );
        assert_eq!(
            file_url("/\"#%<>?`{}\u{7f}").as_deref(),
            Some("file:///%22%23%25%3C%3E%3F%60%7B%7D%7F")
        );
        assert_eq!(
            config_folder_url(Some("/etc/openlogi".into())).as_deref(),
            Some("file:///etc/openlogi")
        );
    }
    assert_eq!(config_folder_url(Some(String::new())), None);
    assert_eq!(config_folder_url(None), None);
    let long = "a".repeat(0x400_0000);
    assert!(has_room(&format!("/{long}")));
    assert!(has_room("//server/share"));
    assert!(!has_room(&format!("//{long}")));
    assert!(!has_room(&format!("\\\\{long}")));
    assert_eq!(opened_folder(&None, Some("file:///".into())), None);
    let path = Some("/".to_string());
    assert_eq!(opened_folder(&path, Some("file:///".into())).as_deref(), Some("file:///"));
    assert_eq!(opened_folder(&path, None), None);
}

fn host() -> HostFacts {
    HostFacts {
        gui_version: "1.0.0".into(),
        build_profile: "release".into(),
        protocol: 9,
        os: "linux".into(),
        os_version: None,
        arch: "aarch64".into(),
        system_locale: Some("en-US".into()),
        running_from_bundle: false,
    }
}

fn status() -> AgentStatus {
    AgentStatus {
        agent_version: "1.0.1".into(),
        protocol_version: 9,
        inventory: InventoryHealth::Ready,
        accessibility_granted: true,
        hook_installed: true,
        launch_at_login: false,
    }
}

#[test]
fn a_report_names_the_model_and_not_the_unit() {
    let mut state = state_of(vec![record()]);
    state.store_inventory_snapshot(&vec![DeviceInventory {
        receiver: ReceiverInfo {
            name: "Bolt".into(),
            vendor_id: 0x046d,
            product_id: 0xc548,
            unique_id: Some("uid".into()),
        },
        paired: vec![PairedDevice {
            slot: 2,
            codename: Some("MX3S".into()),
            wpid: Some(0xb034),
            kind: DeviceKind::Mouse,
            online: true,
            battery: None,
            model_info: Some(model()),
            capabilities: None,
        }],
    }]);
    state.dpi_reads.set_ready(
        DeviceKey::from("mouse-1"),
        DpiInfo { current: 1600, min: 200, max: 8000, steps: 157 },
    );
    let assets = asset_info(false, true, 12, true, "/home/me/.cache/openlogi", &Some("/home/me".into()));
    assert_eq!(assets.source, AssetSource::UserCache);
    assert_eq!(assets.cache_path, "~/.cache/openlogi");
    let report = collect(Some(&state), Some(&status()), &host(), assets);
    assert_eq!(report.receivers.len(), 1);
    assert_eq!(report.receivers[0].product_id, 0xc548);
    let device = &report.devices[0];
    assert_eq!(device.config_key, "2b034");
    assert_eq!(device.codename.as_deref(), Some("MX3S"));
    assert_eq!(device.connection, ConnectionKind::BoltReceiver);
    assert_eq!(device.dpi.as_deref(), Some("1600 dpi (range 200–8000, 157 steps)"));
    assert_eq!(device.model_ids.as_deref(), Some(&[0xb034, 0, 0][..]));
    assert_eq!(report.app.arch, "arm64");
    assert_eq!(report.app.inventory, Some(InventoryState::Ready));
    assert_eq!(report.app.ui_language.as_deref(), Some("ja"));
    assert_eq!(report.app.configured_device_count, Some(1));
}

#[test]
fn a_report_without_state_or_agent_is_empty() {
    let assets = asset_info(true, false, 0, false, "/var/cache", &None);
    assert_eq!(assets.source, AssetSource::Bundle);
    let report = collect(None, None, &host(), assets);
    assert!(report.receivers.is_empty() && report.devices.is_empty());
    assert_eq!(report.app.agent_version, None);
    assert_eq!(report.app.show_in_menu_bar, None);
    assert!(!report.app.accessibility_granted);
}

#[test]
fn parts_of_a_report() {
    assert_eq!(arch_label("x86_64"), "x86_64");
    assert_eq!(redact_home("/home/me", &Some("/home/me".into())), "~");
    assert_eq!(redact_home("/opt/x", &Some("/home/me".into())), "/opt/x");
    let al = Some("/home/al".to_string());
    assert_eq!(redact_home("/home/al/.cache/openlogi", &al), "~/.cache/openlogi");
    assert_eq!(redact_home("/home/alice/.cache", &al), "/home/alice/.cache");
    assert_eq!(redact_home("/home/al\\x", &al), "/home/al\\x");
    assert_eq!(redact_home("/home/al/x", &Some("/home/al/".into())), "~/x");
    assert_eq!(redact_home("/etc", &Some("/".into())), "/etc");
    assert_eq!(redact_home("/etc", &Some(String::new())), "/etc");
    let windows = Some("C:\\Users\\al".to_string());
    assert_eq!(redact_home("C:\\Users\\al\\x", &windows), "~\\x");
    assert_eq!(dpi_summary(None), None);
    assert_eq!(dpi_summary(Some(&Load::Unknown)), None);
    assert_eq!(dpi_summary(Some(&Load::Loading)).as_deref(), Some("querying…"));
    assert_eq!(
        dpi_summary(Some(&Load::Unsupported("x".into()))).as_deref(),
        Some("unsupported")
    );
    assert_eq!(dpi_summary(Some(&Load::Failed("x".into()))).as_deref(), Some("read failed"));
    let direct = Some(DeviceRoute::Direct { address: "1".into() });
    assert_eq!(
        connection_for(&direct, Some(transports(true, false, true, false))),
        ConnectionKind::BluetoothDirect
    );
    assert_eq!(
        connection_for(&direct, Some(transports(true, false, false, false))),
        ConnectionKind::Wired
    );
    assert_eq!(connection_for(&direct, None), ConnectionKind::Unknown);
    assert_eq!(connection_for(&None, None), ConnectionKind::Unknown);
}

#[test]
fn carousel_arrows_move_by_one() {
    let row = Carousel::new().len(3).selected(1).render_row(Some(1)).expect("cards");
    assert_eq!(row.scroll_to, None);
    assert_eq!(
        row.arrows,
        Some((Arrow { target: 0, disabled: false }, Arrow { target: 2, disabled: false }))
    );
}

#[test]
fn carousel_clamps_selection_before_navigating() {
    let row = Carousel::new().len(3).selected(usize::MAX).render_row(None).expect("cards");
    assert_eq!(row.selected, 2);
    assert_eq!(row.scroll_to, Some(3));
    assert_eq!(
        row.arrows,
        Some((Arrow { target: 1, disabled: false }, Arrow { target: 2, disabled: true }))
    );
    assert!(Carousel::new().render_row(None).is_none());
    assert_eq!(Carousel::new().len(1).render_row(Some(0)).expect("a card").arrows, None);
}

#[test]
fn a_toggle_asks_its_owner() {
    let toggle = Toggle::new();
    assert_eq!(toggle.press(), Some(true));
    assert_eq!(toggle.shown_label(), "Off");
    let on = toggle.selected(true);
    assert!(on.is_selected());
    assert_eq!(on.press(), Some(false));
    assert_eq!(on.shown_label(), "On");
    assert_eq!(on.clone().disabled(true).press(), None);
    assert_eq!(on.label(Some("Glow".into())).shown_label(), "Glow");
}

#[test]
fn localize_placeholder_restamps_only_on_change() {
    let mut placeholder = "old".to_string();
    assert!(!localize_placeholder(&mut placeholder, &"old".to_string()));
    assert!(localize_placeholder(&mut placeholder, &"new".to_string()));
    assert_eq!(placeholder, "new");
}

#[test]
fn a_chip_is_removed_by_its_mark_only() {
    assert_eq!(chip_click(true, true), ChipClick::Remove);
    assert_eq!(chip_click(true, false), ChipClick::Apply);
    assert_eq!(chip_click(false, true), ChipClick::Apply);
}

#[test]
fn tokens_preserve_their_baseline_pixel_values() {
    let cases = [
        (DynamicSpacing::Base12, 12.),
        (DynamicSpacing::Base16, 16.),
        (DynamicSpacing::Base20, 20.),
    ];

    for (spacing, expected) in cases {
        let rems = spacing.base_pixels() as f32 / BASE_REM_SIZE_IN_PX as f32;
        assert_eq!(rems * BASE_REM_SIZE_IN_PX as f32, expected);
    }
}

#[test]
fn updates_are_looked_for_as_asked() {
    assert_eq!(minisign_public_key(Some("  key\n")).as_deref(), Some("key"));
    assert_eq!(minisign_public_key(Some(" \n")), None);
    assert_eq!(minisign_public_key(None), None);
    assert_eq!(release_arch("aarch64"), "arm64");
    assert_eq!(release_format("macos"), "dmg");
    assert_eq!(release_format("windows"), "msi");
    assert_eq!(release_format("linux"), "tar.gz");
    let settings = settings();
    assert!(installs_by_itself(Some(&settings), UpdateStatus::Available));
    assert!(!installs_by_itself(Some(&settings), UpdateStatus::Downloading));
    assert!(!installs_by_itself(None, UpdateStatus::Available));
    assert!(!checks_at_start(&settings));
    assert!(asks_for_consent(&settings));
    assert!(default_manifest_url().starts_with("https://"));
}

fn runtime() -> Runtime {
    Runtime {
        cameras: CameraWatch { cams: vec![], misses: 0 },
        agent_link: AgentLink::Connecting,
        listed: vec![],
        auto_sync: true,
    }
}

#[test]
fn only_a_complete_inventory_is_merged() {
    let mut state = state_of(vec![]);
    let mut runtime = runtime();
    let scanning = AgentStatus { inventory: InventoryHealth::Scanning, ..status() };
    let after =
        runtime.apply_snapshot(&mut state, scanning.clone(), vec![record()], &vec![], false);
    assert!(state.devices.records.is_empty());
    assert!(after.repaint && !after.rebuild_menu, "the agent answered");
    let again = runtime.apply_snapshot(&mut state, scanning, vec![record()], &vec![], false);
    assert!(!again.repaint);

    let after = runtime.apply_snapshot(&mut state, status(), vec![record()], &vec![], false);
    assert_eq!(state.devices.records.len(), 1);
    assert!(after.rebuild_menu);
    assert_eq!(after.fetch.map(|targets| targets.len()), Some(1));
}

#[test]
fn what_the_agent_says_of_itself_is_shown_once() {
    let mut state = state_of(vec![]);
    let mut runtime = runtime();
    assert!(runtime.on_agent_update(&mut state, AgentUpdate::Unreachable));
    assert!(!runtime.on_agent_update(&mut state, AgentUpdate::Unreachable));
    assert!(runtime.on_agent_update(&mut state, AgentUpdate::OutdatedGui));
    assert!(runtime.on_agent_update(&mut state, AgentUpdate::PairingUndeliverable));
    let refused = AgentUpdate::ConfigReloadResult(Err("no".into()));
    assert!(runtime.on_agent_update(&mut state, refused));
    assert_eq!(state.config_issue(), Some("no"));
    assert!(!runtime.on_agent_update(
        &mut state,
        AgentUpdate::LightCommandResult { changed: false }
    ));
    assert!(runtime.on_sync_finished(&mut state, false, vec![]).is_none());
    assert!(runtime.on_sync_finished(&mut state, true, vec![record()]).expect("shown").repaint);
    assert_eq!(runtime.on_asset_command(&state).len(), 1);
}
