//! Probing devices and capturing their controls.

use openlogi::capture::{
    thumbwheel_input, CaptureAccum, RawControlEvent, SwipeQuery, SwipeReply, ThumbwheelEvent,
};
use openlogi::capture::{handle_reprog, swipe_query};
use openlogi::controls::{
    divert_change, divertable_standard_buttons, is_divertable, keyboard_key_button, supports_raw_xy,
    undivert_change, ButtonId, CaptureStop, CapturedInput, CidReporting, ControlInfo, GestureDirection,
    GestureError, GestureSources, WheelResolution,
};
use openlogi::device::{
    BatteryInfo, BatteryLevel, BatteryStatus, Capabilities, DeviceKey, DeviceKind, ReceiverInfo,
};
use openlogi::keyboard::{
    arm_keys, key_reporting, no_controls, KeyReporting, KeyboardEvent, KeyboardSession,
    KeyboardStep,
};
use openlogi::probe::{
    assemble_bolt_probe, assemble_unifying_probe, blank, bolt_receiver, codename_request,
    codename_request_unifying, connections_by_slot,
    needs_ping, parse_codename, parse_codename_unifying, preferred_direct_codename, probe_direct,
    probe_unifying_slot, read_bolt_slot_identity, receiver_uid, resolve_device_kind, seen,
    walk_bolt_slot, CacheKey, CacheOutcome, DeviceConnection, NodeInfo, NodeProbe,
    PairingInformation, ProbedFeatures, UnifyingReading, DIRECT_DEVICE_INDEX,
};
use openlogi::session::{
    arm_plan, channel_of, plain_capture_spec, release_slot, restore, ArmFailure, ArmKind, ArmedControls,
    CaptureSession, CaptureSpec, Divert, PingOutcome, SessionEvent, SessionStep,
    LIVENESS_PING_STRIKES,
};
use openlogi::text::{
    chars_of, contains_text, decimal, ends_with, same_text, starts_with, text_before,
    text_of, trim,
};

const GESTURE: u16 = 0x00c3;
const PANEL: u16 = 0x01a0;
const DPI: u16 = 0x00fd;
const BACK: u16 = 0x0053;

fn ids() -> GestureSources {
    GestureSources { gesture_button: GESTURE, haptic_panel: PANEL }
}

fn control(cid: u16, divertable: bool, raw_xy: bool) -> ControlInfo {
    ControlInfo { cid, divertable, raw_xy }
}

fn controls() -> Vec<ControlInfo> {
    vec![
        control(GESTURE, true, true),
        control(PANEL, true, false),
        control(DPI, true, false),
        control(BACK, true, false),
        control(0x0056, false, false),
    ]
}

fn reporting(diverted: bool, raw_xy: bool) -> CidReporting {
    CidReporting { diverted, raw_xy, remap: 0 }
}

#[test]
fn only_what_can_be_diverted_is_armed() {
    let controls = controls();
    assert!(is_divertable(&controls, BACK));
    assert!(!is_divertable(&controls, 0x0056));
    assert!(!is_divertable(&controls, 0x9999));
    assert!(supports_raw_xy(&controls, GESTURE));
    assert!(!supports_raw_xy(&controls, PANEL));
    let spec = CaptureSpec {
        capture_thumbwheel: true,
        divert_gesture_sources: vec![GESTURE, PANEL],
        divert_buttons: vec![
            (BACK, ButtonId::Back),
            (0x0056, ButtonId::Forward),
            (GESTURE, ButtonId::GestureButton),
        ],
    };
    let plan = arm_plan(&spec, &controls, &vec![DPI, 0x9999]);
    let shape: Vec<_> = plan.iter().map(|divert| (divert.cid, divert.raw_xy())).collect();
    assert_eq!(shape, [(GESTURE, true), (DPI, false), (BACK, false)]);
    assert!(matches!(plan[2].kind, ArmKind::Button(ButtonId::Back)));
    let plain = plain_capture_spec(&ids(), false, false);
    assert!(!plain.capture_thumbwheel);
    assert!(plain.divert_gesture_sources.is_empty());
    let buttons = divertable_standard_buttons();
    assert!(buttons.iter().any(|&(cid, button)| cid == BACK && button == ButtonId::Back));
}

#[test]
fn disarming_hands_back_what_was_found() {
    let mut armed = ArmedControls::new();
    assert!(armed.is_idle());
    let gesture = Divert { cid: GESTURE, kind: ArmKind::Gesture };
    armed.record(gesture, reporting(false, true));
    let back = Divert { cid: BACK, kind: ArmKind::Button(ButtonId::Back) };
    armed.record(back, reporting(true, false));
    armed.record_thumbwheel(WheelResolution { native: 1, diverted: 8 });
    assert!(!armed.is_idle());
    let (writes, wheel) = armed.disarm();
    assert!(wheel);
    let cids: Vec<_> = writes.iter().map(|(cid, _)| *cid).collect();
    assert_eq!(cids, [GESTURE, BACK]);
    assert_eq!(writes[0].1.diverted, undivert_change(reporting(false, true)).diverted);
    assert_eq!(writes[0].1.diverted, Some(false));
    assert_eq!(divert_change(reporting(false, false), true).diverted, Some(true));
    assert_eq!(divert_change(reporting(false, false), true).raw_xy, Some(true));
}

#[test]
fn a_failed_arming_leaves_nothing_diverted() {
    let mut armed = ArmedControls::new();
    armed.record(Divert { cid: GESTURE, kind: ArmKind::Gesture }, reporting(false, true));
    let failure = ArmFailure::Control { cid: DPI, original: reporting(true, false) };
    let (writes, wheel) = armed.abandon(failure);
    let cids: Vec<_> = writes.iter().map(|(cid, change)| (*cid, change.diverted)).collect();
    assert_eq!(cids, [(DPI, Some(false)), (GESTURE, Some(false))]);
    assert!(!wheel);
    let (writes, wheel) = armed.abandon(ArmFailure::Thumbwheel);
    assert_eq!(writes.len(), 1);
    assert!(wheel);
    assert!(!armed.abandon(ArmFailure::Unread).1);
}

fn no_reply() -> SwipeReply {
    SwipeReply { click: false, direction: None }
}

fn buttons(cids: &[u16]) -> RawControlEvent {
    RawControlEvent::DivertedButtons(cids.to_vec())
}

#[test]
fn edges_become_inputs() {
    let mut acc = CaptureAccum::new();
    let gestures = vec![GESTURE, PANEL];
    let standard = vec![(BACK, ButtonId::Back)];
    let mut step = |event: RawControlEvent, reply: SwipeReply| {
        handle_reprog(&mut acc, event, &ids(), &gestures, &vec![DPI], &standard, reply)
    };
    let output = step(buttons(&[BACK, DPI, GESTURE]), no_reply());
    assert!(output.begin_swipe);
    assert_eq!(
        output.inputs,
        [
            CapturedInput::ButtonDown(ButtonId::GestureButton),
            CapturedInput::ButtonDown(ButtonId::DpiToggle),
            CapturedInput::ButtonDown(ButtonId::Back),
        ]
    );
    let held = step(buttons(&[GESTURE, BACK, DPI]), no_reply());
    assert!(!held.begin_swipe);
    assert!(held.inputs.is_empty());
    let swipe = step(
        RawControlEvent::RawXy { dx: 40, dy: 0 },
        SwipeReply { click: false, direction: Some(GestureDirection::Right) },
    );
    assert_eq!(
        swipe.inputs,
        [CapturedInput::Gesture(ButtonId::GestureButton, GestureDirection::Right)]
    );
    let released = step(buttons(&[]), SwipeReply { click: true, direction: None });
    assert_eq!(
        released.inputs,
        [
            CapturedInput::Gesture(ButtonId::GestureButton, GestureDirection::Click),
            CapturedInput::ButtonUp(ButtonId::GestureButton),
            CapturedInput::ButtonUp(ButtonId::DpiToggle),
            CapturedInput::ButtonUp(ButtonId::Back),
        ]
    );
}

#[test]
fn presses_and_releases_of_a_button_take_turns() {
    let mut acc = CaptureAccum::new();
    let gestures = vec![GESTURE];
    let standard = vec![(BACK, ButtonId::Back)];
    let mut sent = Vec::new();
    let reports: [&[u16]; 7] =
        [&[], &[BACK], &[BACK, BACK], &[BACK, GESTURE], &[GESTURE], &[], &[BACK]];
    for cids in reports {
        let output =
            handle_reprog(&mut acc, buttons(cids), &ids(), &gestures, &vec![], &standard, no_reply());
        sent.extend(output.inputs.into_iter().filter(|input| {
            matches!(
                input,
                CapturedInput::ButtonDown(ButtonId::Back) | CapturedInput::ButtonUp(ButtonId::Back)
            )
        }));
    }
    assert_eq!(
        sent,
        [
            CapturedInput::ButtonDown(ButtonId::Back),
            CapturedInput::ButtonUp(ButtonId::Back),
            CapturedInput::ButtonDown(ButtonId::Back),
        ]
    );
}

#[test]
fn keys_of_devices_compare_as_texts() {
    let key = |text: &str| DeviceKey::from(text.to_string());
    assert!(key("2b042") == key("2b042"));
    assert!(key("2b042") != key("2B042"));
    assert!(key("10") < key("9"));
    assert!(key("a") < key("ab"));
    assert_eq!(key("b").cmp(&key("a")), std::cmp::Ordering::Greater);
    assert_eq!(key("b").partial_cmp(&key("b")), Some(std::cmp::Ordering::Equal));
    let held = key("2b042");
    let borrowed: &str = std::borrow::Borrow::borrow(&held);
    assert_eq!(borrowed, "2b042");
}

#[test]
fn motion_counts_while_one_source_is_held() {
    let mut acc = CaptureAccum::new();
    let motion = RawControlEvent::RawXy { dx: 3, dy: -4 };
    assert_eq!(swipe_query(&acc, &motion), SwipeQuery::Nothing);
    let gestures = vec![GESTURE, PANEL];
    let press = |acc: &mut CaptureAccum, cids: &[u16]| {
        handle_reprog(acc, buttons(cids), &ids(), &gestures, &vec![], &vec![], no_reply())
    };
    press(&mut acc, &[GESTURE]);
    assert_eq!(swipe_query(&acc, &motion), SwipeQuery::Accumulate { dx: 3, dy: -4 });
    assert_eq!(swipe_query(&acc, &buttons(&[])), SwipeQuery::End);
    press(&mut acc, &[GESTURE, PANEL]);
    assert_eq!(swipe_query(&acc, &motion), SwipeQuery::Nothing, "two sources are held");
}

#[test]
fn the_first_report_of_the_panel_is_not_motion() {
    let mut acc = CaptureAccum::new();
    let gestures = vec![PANEL];
    let motion = || RawControlEvent::RawXy { dx: 9, dy: 9 };
    let step = |acc: &mut CaptureAccum, event: RawControlEvent| {
        handle_reprog(acc, event, &ids(), &gestures, &vec![], &vec![], no_reply())
    };
    step(&mut acc, buttons(&[PANEL]));
    assert_eq!(swipe_query(&acc, &motion()), SwipeQuery::Nothing);
    step(&mut acc, motion());
    assert_eq!(swipe_query(&acc, &motion()), SwipeQuery::Accumulate { dx: 9, dy: 9 });
}

#[test]
fn the_wheel_scrolls_and_clicks() {
    let resolution = WheelResolution { native: 1, diverted: 8 };
    let event = |rotation, rolling, single_tap| ThumbwheelEvent { rotation, rolling, single_tap };
    assert!(matches!(
        thumbwheel_input(event(5, true, false), resolution),
        Some(CapturedInput::Scroll { increments: 5, .. })
    ));
    assert_eq!(
        thumbwheel_input(event(0, false, true), resolution),
        Some(CapturedInput::ButtonPulse(ButtonId::Thumbwheel))
    );
    assert_eq!(thumbwheel_input(event(0, false, false), resolution), None);
}

#[test]
fn one_lost_ping_is_forgiven() {
    let mut session = CaptureSession::start(ArmedControls::new(), ids());
    assert!(!CaptureSession::listens_to(true));
    assert!(CaptureSession::listens_to(false));
    let silent = || SessionEvent::Ping(PingOutcome::Silent);
    for _ in 1..LIVENESS_PING_STRIKES {
        assert!(matches!(session.on_event(silent()), SessionStep::Wait));
    }
    assert!(matches!(
        session.on_event(SessionEvent::Ping(PingOutcome::Answered)),
        SessionStep::Wait
    ));
    for _ in 1..LIVENESS_PING_STRIKES {
        assert!(matches!(session.on_event(silent()), SessionStep::Wait));
    }
    assert!(matches!(session.on_event(silent()), SessionStep::Stop { channel_dead: true }));
    assert!(matches!(
        session.on_event(SessionEvent::Shutdown(CaptureStop::Graceful)),
        SessionStep::Stop { channel_dead: false }
    ));
    assert!(matches!(
        session.on_event(SessionEvent::Shutdown(CaptureStop::Revoked)),
        SessionStep::Stop { channel_dead: true }
    ));
}

#[test]
fn a_session_reports_and_puts_back() {
    let mut armed = ArmedControls::new();
    armed.record(Divert { cid: GESTURE, kind: ArmKind::Gesture }, reporting(false, false));
    armed.record_thumbwheel(WheelResolution { native: 1, diverted: 8 });
    let mut session = CaptureSession::start(armed, ids());
    assert_eq!(session.query(&buttons(&[GESTURE])), SwipeQuery::Nothing);
    let output = session.on_controls(buttons(&[GESTURE]), no_reply());
    assert_eq!(output.inputs, [CapturedInput::ButtonDown(ButtonId::GestureButton)]);
    let tap = ThumbwheelEvent { rotation: 0, rolling: false, single_tap: true };
    assert_eq!(
        session.on_thumbwheel(tap),
        Some(CapturedInput::ButtonPulse(ButtonId::Thumbwheel))
    );
    let (writes, wheel) = session.finish(false);
    assert_eq!(writes.len(), 1);
    assert!(wheel);
    let (writes, wheel) = session.finish(true);
    assert!(writes.is_empty() && !wheel, "a dead channel is not written to");
}

#[test]
fn slots_and_channels_are_given_up() {
    assert_eq!(release_slot(Some(3), 3), None);
    assert_eq!(release_slot(Some(4), 3), Some(4));
    assert_eq!(release_slot(None, 3), None);
    assert!(restore::<u8>(Ok(()), "wheel").is_none());
    assert!(restore::<u8>(Err(1), "wheel").expect("a warning").contains("wheel"));
    assert!(matches!(channel_of(Ok(Some(7u8))), Ok(7)));
    assert!(matches!(channel_of::<u8>(Ok(None)), Err(GestureError::DeviceNotFound)));
    assert!(matches!(
        channel_of::<u8>(Err("busy".into())),
        Err(GestureError::Hid(message)) if message == "busy"
    ));
    for error in [
        GestureError::Hid("busy".into()),
        GestureError::DeviceNotFound,
        GestureError::DeviceUnreachable(2),
        GestureError::Hidpp("bad".into()),
        no_controls(),
    ] {
        assert!(!error.message().is_empty());
    }
}

#[test]
fn a_held_key_is_one_press() {
    assert_eq!(keyboard_key_button(0x9999), None);
    assert_eq!(keyboard_key_button(0x0108), Some(ButtonId::KeyEmoji));
    let wanted = vec![(10, ButtonId::KeyMute), (11, ButtonId::KeyEmoji), (12, ButtonId::KeySearch)];
    let armed = arm_keys(
        &wanted,
        &vec![control(10, true, false), control(11, false, false), control(12, true, false)],
    );
    assert_eq!(armed, [(10, ButtonId::KeyMute), (12, ButtonId::KeySearch)]);
    assert_eq!(key_reporting(true), KeyReporting { diverted: true, raw_xy: false });
    assert_eq!(key_reporting(false), KeyReporting { diverted: false, raw_xy: false });
    let mut session = KeyboardSession::start(armed, true);
    assert_eq!(session.armed_cids(), [10, 12]);
    assert_eq!(
        session.on_report(&vec![10]),
        [CapturedInput::ButtonPressed(ButtonId::KeyMute)]
    );
    assert_eq!(
        session.on_report(&vec![12, 10]),
        [CapturedInput::ButtonPressed(ButtonId::KeySearch)]
    );
    assert!(session.on_report(&vec![]).is_empty());
    assert_eq!(session.on_report(&vec![10]).len(), 1);
}

#[test]
fn a_reconnected_keyboard_is_armed_again() {
    let mut session = KeyboardSession::start(vec![(10, ButtonId::KeyMute)], true);
    session.on_report(&vec![10]);
    assert!(matches!(session.on_event(KeyboardEvent::Reconnected), KeyboardStep::Rearm));
    assert!(matches!(
        session.on_event(KeyboardEvent::AnnouncementsEnded),
        KeyboardStep::WaitForShutdown
    ));
    assert!(matches!(session.on_event(KeyboardEvent::Shutdown), KeyboardStep::Stop));
}

fn receiver() -> ReceiverInfo {
    ReceiverInfo {
        name: "Logi Bolt Receiver".into(),
        vendor_id: 0x046d,
        product_id: 0xc548,
        unique_id: None,
    }
}

fn info() -> NodeInfo {
    NodeInfo { id: "node".into(), name: "Mouse".into(), vendor_id: 0x046d, product_id: 0xb034 }
}

fn capabilities(buttons: bool) -> Capabilities {
    Capabilities {
        buttons,
        pointer: false,
        lighting: false,
        thumbwheel: false,
        scroll_inversion: false,
        hires_wheel: false,
    }
}

fn battery() -> BatteryInfo {
    BatteryInfo { percentage: 50, level: BatteryLevel::Good, status: BatteryStatus::Discharging }
}

fn pairing(unit_id: u32) -> PairingInformation {
    PairingInformation { unit_id, kind: DeviceKind::Mouse, online: false }
}

#[test]
fn a_bolt_shortfall_is_no_answer() {
    let identity = read_bolt_slot_identity(1, Some(pairing(9)), None, Some("MX".into()))
        .expect("an occupied slot");
    let slot = || walk_bolt_slot(&identity, None, &None);
    let complete = assemble_bolt_probe(receiver(), Some(1), vec![slot()]);
    assert!(complete.healthy && complete.complete);
    let short = assemble_bolt_probe(receiver(), Some(2), vec![slot()]);
    assert!(!short.healthy && !short.complete);
    assert_eq!(short.inventory.expect("what was read").paired.len(), 1);
    assert!(!assemble_bolt_probe(receiver(), None, vec![slot()]).healthy);
    let named = bolt_receiver(&info(), Some("uid".into()));
    assert_eq!(named.name, "Logi Bolt Receiver");
    assert_eq!(named.unique_id.as_deref(), Some("uid"));
}

#[test]
fn a_unifying_shortfall_is_an_answer() {
    let probe = assemble_unifying_probe(receiver(), Some(2), Some(vec![]));
    assert!(probe.healthy && !probe.complete);
    let probe = assemble_unifying_probe(receiver(), None, Some(vec![]));
    assert!(!probe.healthy && !probe.complete);
    let failed = assemble_unifying_probe(receiver(), Some(2), None);
    assert!(!failed.healthy && failed.inventory.is_none() && failed.outcomes.is_empty());
    assert!(NodeProbe::failed().inventory.is_none());
}

#[test]
fn bolt_slots_prefer_live_events() {
    assert!(read_bolt_slot_identity(1, None, None, None).is_none());
    let event = DeviceConnection { index: 1, kind: DeviceKind::Keyboard, wpid: 5, online: true };
    let live = read_bolt_slot_identity(1, Some(pairing(0)), Some(event), None).expect("a slot");
    assert!(live.online && live.id.is_none());
    assert_eq!(live.register_kind, DeviceKind::Keyboard);
    assert_eq!(live.wpid, Some(5));
    let asleep = read_bolt_slot_identity(2, Some(pairing(7)), None, None).expect("a slot");
    assert!(!asleep.online);
    assert_eq!(asleep.id, Some(CacheKey::Bolt { unit_id: 7 }));
    let cached = ProbedFeatures { battery: Some(battery()), ..ProbedFeatures::default() };
    let (device, outcome) = walk_bolt_slot(&asleep, None, &Some(cached));
    assert_eq!(device.battery, Some(battery()));
    assert_eq!(device.kind, DeviceKind::Mouse);
    assert_eq!(outcome, CacheOutcome::Seen(CacheKey::Bolt { unit_id: 7 }));
    assert_eq!(seen(None), CacheOutcome::Unkeyed);
    assert_eq!(
        resolve_device_kind(Some(DeviceKind::Unknown), DeviceKind::Light),
        DeviceKind::Light
    );
    assert_eq!(
        resolve_device_kind(Some(DeviceKind::Mouse), DeviceKind::Keyboard),
        DeviceKind::Mouse
    );
}

#[test]
fn the_last_word_on_a_slot_counts() {
    let event = |index, online| DeviceConnection { index, kind: DeviceKind::Mouse, wpid: 1, online };
    let kept = connections_by_slot(&vec![event(3, true), event(1, true), event(3, false)]);
    let shape: Vec<_> = kept.iter().map(|c| (c.index, c.online)).collect();
    assert_eq!(shape, [(1, true), (3, false)]);
}

#[test]
fn unifying_devices_are_there_when_they_answer() {
    let event = DeviceConnection { index: 2, kind: DeviceKind::Mouse, wpid: 7, online: true };
    let key = || CacheKey::UnifyingSlot { receiver_uid: "r".into(), slot: 2 };
    assert!(needs_ping(&CacheOutcome::Seen(key())));
    assert!(!needs_ping(&CacheOutcome::Update(key())));
    let reading = |outcome, answered_ping| {
        Some(UnifyingReading { probe: ProbedFeatures::default(), outcome, answered_ping })
    };
    let slot = |reading| probe_unifying_slot(event, None, "r", reading, &None);
    assert!(slot(reading(CacheOutcome::Fresh(key()), false)).0.online);
    assert!(slot(reading(CacheOutcome::Seen(key()), true)).0.online);
    assert!(!slot(reading(CacheOutcome::Seen(key()), false)).0.online);
    let (device, outcome) = slot(None);
    assert!(!device.online);
    assert_eq!(device.wpid, Some(7));
    assert_eq!(outcome, CacheOutcome::Seen(key()));
    assert_eq!(receiver_uid(&None, 0xc52b), "pid:c52b");
    assert_eq!(receiver_uid(&None, 0x0a), "pid:000a");
    assert_eq!(receiver_uid(&Some("u".into()), 1), "u");
}

#[test]
fn a_direct_verdict_rests_on_a_walk() {
    let fresh = || CacheOutcome::Fresh(CacheKey::Direct { node: "node".into() });
    let unread = probe_direct(&info(), ProbedFeatures::default(), fresh());
    assert!(unread.inventory.is_none() && !unread.healthy);
    assert_eq!(
        unread.outcomes,
        [CacheOutcome::Seen(CacheKey::Direct { node: "node".into() })]
    );
    let walked = |buttons| ProbedFeatures {
        capabilities: Some(capabilities(buttons)),
        marketing_name: Some("MX Master 2S".into()),
        ..ProbedFeatures::default()
    };
    let rejected = probe_direct(&info(), walked(false), fresh());
    assert!(rejected.inventory.is_none() && rejected.healthy);
    assert_eq!(rejected.outcomes, [CacheOutcome::Unkeyed]);
    let found = probe_direct(&info(), walked(true), fresh());
    let inventory = found.inventory.expect("a device");
    assert_eq!(inventory.paired[0].slot, DIRECT_DEVICE_INDEX);
    assert_eq!(inventory.paired[0].codename.as_deref(), Some("MX Master 2S"));
    assert_eq!(found.outcomes, [fresh()]);
}

#[test]
fn names_are_read_from_registers() {
    assert_eq!(parse_codename_unifying(b"\x40\x0cMX Master 2S").as_deref(), Some("MX Master 2S"));
    assert_eq!(parse_codename_unifying(b"\x40\xffMX").as_deref(), Some("MX"));
    assert_eq!(parse_codename_unifying(b"\x40\x01\xff"), None);
    assert_eq!(parse_codename_unifying(b"\x40"), None);
    assert_eq!(parse_codename(b"\x61\x01\x05MX 3S........").as_deref(), Some("MX 3S"));
    assert_eq!(parse_codename(b"\x61\x01\xffMX Master 3S.").as_deref(), Some("MX Master 3S."));
    assert_eq!(parse_codename(b"\x61\x01\x01\xff............"), None);
    assert_eq!(codename_request(2), [0x62, 1, 0]);
    assert_eq!(codename_request_unifying(2), [0x41, 0, 0]);
    assert_eq!(preferred_direct_codename(Some("MX"), "Mouse"), "MX");
    assert_eq!(preferred_direct_codename(Some(" \t"), "Mouse"), "Mouse");
    assert_eq!(preferred_direct_codename(None, "Mouse"), "Mouse");
    assert!(blank("\u{3000} "));
    assert!(!blank(" a "));
}

#[test]
fn texts_are_told_apart_character_by_character() {
    assert_eq!(chars_of("aé"), ['a', 'é']);
    assert_eq!(text_of(&vec!['a', 'é', 'b'], 1, 3), "éb");
    assert!(same_text("é", "é") && !same_text("é", "e"));
    assert!(text_before("Z", "a") && text_before("a", "aa") && !text_before("a", "a"));
    assert!(starts_with("file", "fi") && !starts_with("fi", "file"));
    assert!(ends_with("file", "le") && !ends_with("le", "file"));
    assert!(contains_text("file", "il") && contains_text("file", "") && !contains_text("file", "if"));
    assert_eq!(trim("\u{2003} a b\n"), "a b");
    assert_eq!(decimal(0), "0");
    assert_eq!(decimal(u64::MAX), "18446744073709551615");
}
