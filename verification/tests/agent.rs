//! Talking to the agent.

use openlogi::camera::{PermissionPoll, PERMISSION_TICKS_MAX};
use openlogi::ipc::{
    agent_locations, check_version, handle, helper_bundle, light_result, log_apply,
    pairing_command_result, reload_result, reply_disconnected, rpc_result, spawn_agent,
    AgentCommand, Answer, ConnectFailure, Launch, LightCommand, LightFailure, ObserveLoop,
    PairingFailure, Report, Woken, SPAWN_RETRY_PERIOD_MS, UNREACHABLE_AFTER_MS,
};

#[test]
fn a_reload_that_never_reached_the_agent_is_reported() {
    // The config file is already written by the time the reload is dispatched,
    // so dropping this result silently would leave the window showing settings
    // the agent is not running.
    let Report::Reload(Err(error)) = reply_disconnected(AgentCommand::ReloadConfig) else {
        panic!("a reload that never reached the agent must be reported as failed");
    };
    assert!(!error.is_empty(), "the notice needs a reason");
}

#[test]
fn helper_bundle_resolves_only_the_packaged_layout() {
    let packaged =
        "/Applications/OpenLogi.app/Contents/Library/LoginItems/OpenLogi Agent.app/Contents/MacOS/openlogi-agent";
    assert_eq!(
        helper_bundle(packaged).as_deref(),
        Some("/Applications/OpenLogi.app/Contents/Library/LoginItems/OpenLogi Agent.app")
    );
    let dev =
        "/Users/me/OpenLogi/target/dev/OpenLogi.app/Contents/Library/LoginItems/OpenLogi Agent Dev.app/Contents/MacOS/openlogi-agent";
    assert_eq!(
        helper_bundle(dev).as_deref(),
        Some("/Users/me/OpenLogi/target/dev/OpenLogi.app/Contents/Library/LoginItems/OpenLogi Agent Dev.app")
    );
    assert_eq!(helper_bundle("target/debug/openlogi-agent"), None);
}

#[test]
fn doubled_slashes_and_dots_name_no_directory() {
    let bundle = |path: &str| {
        let found = helper_bundle(path)?;
        let names: Vec<_> = found.split('/').filter(|name| !name.is_empty()).collect();
        Some((found.starts_with('/'), names.join("/")))
    };
    let app = Some((true, "x/Agent.app".to_string()));
    assert_eq!(bundle("/x//Agent.app/Contents//MacOS/agent"), app);
    assert_eq!(bundle("/x/Agent.app/Contents/MacOS/agent/"), app);
    assert_eq!(bundle("/x/Agent.app/Contents/./MacOS/agent/."), app);
    assert_eq!(bundle("./Agent.app/a:b/MacOS/agent"), Some((false, "./Agent.app".to_string())));
    assert_eq!(bundle("/x.app/../Contents/MacOS/agent"), None, "that ends in no name");
    assert_eq!(bundle("x/.app/Contents/MacOS/agent"), None, "that has no extension");
    assert_eq!(bundle("Contents/MacOS/"), None);
    assert_eq!(
        spawn_agent(Some("/x/Agent.app/Contents//MacOS/agent".into()), true),
        Launch::Bundle("/x/Agent.app".into())
    );
}

#[test]
fn a_packaged_agent_is_launched_through_its_bundle() {
    let packaged = "/x/Agent.app/Contents/MacOS/openlogi-agent".to_string();
    assert_eq!(
        spawn_agent(Some(packaged.clone()), true),
        Launch::Bundle("/x/Agent.app".into())
    );
    assert_eq!(spawn_agent(Some(packaged.clone()), false), Launch::Binary(packaged));
    let bare = "target/debug/openlogi-agent".to_string();
    assert_eq!(spawn_agent(Some(bare.clone()), true), Launch::Binary(bare));
    assert_eq!(spawn_agent(None, true), Launch::NotFound);
    let windows = agent_locations(false, ".exe");
    assert_eq!(windows.len(), 1);
    assert_eq!(windows[0].relative, "openlogi-agent.exe");
    assert!(!windows[0].above);
    let mac = agent_locations(true, "");
    assert_eq!(mac.len(), 4);
    assert!(mac[1..].iter().all(|location| location.above));
}

#[test]
fn an_agent_of_another_version_is_not_used() {
    assert_eq!(check_version(3, 3), Ok(()));
    assert_eq!(check_version(2, 3), Err(ConnectFailure::Unreachable));
    assert_eq!(check_version(4, 3), Err(ConnectFailure::NewerAgent));
}

#[test]
fn a_heartbeat_shows_nothing_new() {
    let mut observing = ObserveLoop::new(0);
    let steps = observing.wake(Woken::Connected, 10);
    assert_eq!(steps.observe, Some(0));
    assert!(!steps.launch);
    let steps = observing.wake(Woken::Observed { generation: 4 }, 20);
    assert!(steps.deliver);
    assert_eq!(steps.observe, Some(4));
    let steps = observing.wake(Woken::Observed { generation: 4 }, 30);
    assert!(!steps.deliver);
    assert_eq!(observing.seen, 4);
}

#[test]
fn a_dropped_connection_starts_over() {
    let mut observing = ObserveLoop::new(0);
    observing.wake(Woken::Connected, 0);
    observing.wake(Woken::Observed { generation: 4 }, 0);
    let steps = observing.wake(Woken::Dropped, 5);
    assert!(steps.launch, "no launch was tried yet");
    assert!(!observing.connected);
    let steps = observing.wake(Woken::Connected, 6);
    assert_eq!(steps.observe, Some(0));
    observing.wake(Woken::Observed { generation: 1 }, 7);
    observing.wake(Woken::HandlingFailed, 8);
    assert_eq!(observing.seen, 0);
    observing.wake(Woken::Handled { connected: true }, 9);
    assert!(observing.connected);
}

#[test]
fn an_outage_is_told_once_and_launches_are_apart() {
    let mut observing = ObserveLoop::new(0);
    let missing = Woken::NotConnected { failure: ConnectFailure::Unreachable };
    let first = observing.wake(missing, 1);
    assert!(first.launch && !first.tell_unreachable);
    let soon = observing.wake(missing, UNREACHABLE_AFTER_MS - 1);
    assert!(!soon.launch && !soon.tell_unreachable);
    let late = observing.wake(missing, UNREACHABLE_AFTER_MS);
    assert!(late.tell_unreachable && !late.launch);
    let again = observing.wake(missing, SPAWN_RETRY_PERIOD_MS + 1);
    assert!(again.launch && !again.tell_unreachable);
}

#[test]
fn an_outdated_application_is_told_once() {
    let mut observing = ObserveLoop::new(0);
    let newer = Woken::NotConnected { failure: ConnectFailure::NewerAgent };
    assert!(observing.wake(newer, 1).tell_outdated);
    assert!(!observing.wake(newer, 2).tell_outdated);
    observing.wake(Woken::Connected, 3);
    observing.wake(Woken::Observed { generation: 1 }, 3);
    observing.wake(Woken::Dropped, 4);
    assert!(observing.wake(newer, 5).tell_outdated);
}

#[test]
fn commands_without_an_agent_are_answered() {
    assert_eq!(reply_disconnected(AgentCommand::ReadDpi), Report::ReadUnavailable);
    assert_eq!(reply_disconnected(AgentCommand::ReadSmartShift), Report::ReadUnavailable);
    assert_eq!(
        reply_disconnected(AgentCommand::SetLightManualPower {
            enabled: true,
            key: "k".into(),
            request_id: 5,
        }),
        Report::Light {
            key: "k".into(),
            request_id: 5,
            command: LightCommand::Power(true),
            result: Err(LightFailure::AgentUnavailable),
        }
    );
    assert_eq!(
        reply_disconnected(AgentCommand::PairDevice),
        Report::Pairing(PairingFailure::AgentRestarted)
    );
    assert_eq!(reply_disconnected(AgentCommand::SetDpi), Report::Silent);
    assert_eq!(reply_disconnected(AgentCommand::CancelPairing), Report::Silent);
}

#[test]
fn answers_are_reported() {
    assert_eq!(reload_result(Answer::Accepted), Ok(()));
    assert_eq!(reload_result(Answer::Refused("bad".into())), Err("bad".into()));
    assert_eq!(
        reload_result(Answer::Lost("eof".into())),
        Err("saved, but the agent could not be reached to apply it: eof".into())
    );
    assert_eq!(log_apply(&Answer::Refused("x".into())), Ok(()));
    assert_eq!(log_apply(&Answer::Lost("x".into())), Err(()));
    assert_eq!(rpc_result::<u8, &str>(Ok(3)), Ok(3));
    assert_eq!(rpc_result::<u8, &str>(Err("gone")), Err(()));
    assert_eq!(
        pairing_command_result(Answer::Refused("busy".into())),
        Report::Pairing(PairingFailure::Refused("busy".into()))
    );
    assert_eq!(pairing_command_result(Answer::Accepted), Report::Silent);
    assert_eq!(
        light_result("k".into(), 2, LightCommand::TemperatureKelvin(4000), Answer::Lost("x".into())),
        Report::Light {
            key: "k".into(),
            request_id: 2,
            command: LightCommand::TemperatureKelvin(4000),
            result: Err(LightFailure::AgentUnavailable),
        }
    );
    let command = AgentCommand::SetLight {
        command: LightCommand::BrightnessPercent(5),
        key: "k".into(),
        request_id: 1,
    };
    let (report, lost) = handle(command, Answer::Refused("no".into()));
    assert!(!lost);
    assert!(matches!(report, Report::Light { result: Err(LightFailure::Device(_)), .. }));
    let (report, lost) = handle(AgentCommand::ReloadConfig, Answer::Lost("eof".into()));
    assert!(lost);
    assert!(matches!(report, Report::Reload(Err(_))));
}

#[test]
fn a_camera_permission_is_looked_for_until_it_is_there() {
    let mut poll = PermissionPoll::request(None);
    assert!(!poll.tick(true));
    assert_eq!(PermissionPoll::request(Some(poll)), poll, "a look-out goes on");
    assert!(poll.tick(false));
    assert_eq!(PermissionPoll::request(Some(poll)).ticks, 0);
    let mut poll = PermissionPoll::request(None);
    let mut looks = 1;
    while !poll.tick(true) {
        looks += 1;
    }
    assert_eq!(looks, PERMISSION_TICKS_MAX);
}
