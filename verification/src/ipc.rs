//! Talking to the agent: when to connect, when to give up, and what to report.

use vstd::prelude::*;

use crate::text::{concat, same_text};

verus! {

/// The least time between two launches of the agent, in milliseconds.
pub const SPAWN_RETRY_PERIOD_MS: u64 = 30_000;

/// How long to wait before connecting is tried again, in milliseconds.
pub const RECONNECT_DELAY_MS: u64 = 250;

/// How long there may be no connection before the agent counts as unreachable,
/// in milliseconds.
pub const UNREACHABLE_AFTER_MS: u64 = 15_000;

/// Why there is no usable connection.
#[derive(Clone, Copy, Debug, PartialEq, Eq, Structural)]
pub enum ConnectFailure {
    /// The agent is not there, or is older and will be replaced.
    Unreachable,
    /// The agent is newer than this application.
    NewerAgent,
}

/// Whether an agent that speaks a version of the protocol can be used.
pub fn check_version(agent: u32, own: u32) -> (r: Result<(), ConnectFailure>)
    ensures
        r == (if agent == own {
            Ok::<(), ConnectFailure>(())
        } else if agent < own {
            Err(ConnectFailure::Unreachable)
        } else {
            Err(ConnectFailure::NewerAgent)
        }),
{
    if agent == own {
        Ok(())
    } else if agent < own {
        Err(ConnectFailure::Unreachable)
    } else {
        Err(ConnectFailure::NewerAgent)
    }
}

/// What happened. Times are in milliseconds of a clock that never goes back.
#[derive(Clone, Copy, Debug, PartialEq, Eq, Structural)]
pub enum Woken {
    /// The agent told its state.
    Observed { generation: u64 },
    /// The connection dropped.
    Dropped,
    /// A command was handled; the connection is as said.
    Handled { connected: bool },
    /// A command found the connection dropped.
    HandlingFailed,
    /// Connecting was tried, and worked.
    Connected,
    /// Connecting was tried, and did not work.
    NotConnected { failure: ConnectFailure },
}

/// What to do about it.
#[derive(Clone, Copy, Debug, PartialEq, Eq, Structural)]
pub struct Steps {
    /// The state is new, and is to be shown.
    pub deliver: bool,
    /// The agent is to be asked for what is newer than this.
    pub observe: Option<u64>,
    /// It is to be said that the agent is unreachable.
    pub tell_unreachable: bool,
    /// It is to be said that this application is outdated.
    pub tell_outdated: bool,
    /// The agent is to be launched.
    pub launch: bool,
}

/// What is known of the connection.
#[derive(Clone, Copy, Debug, PartialEq, Eq, Structural)]
pub struct ObserveLoop {
    pub connected: bool,
    /// The newest state that was seen; zero for none.
    pub seen: u64,
    pub started: u64,
    pub connected_since: Option<u64>,
    pub last_launch: Option<u64>,
    pub told_unreachable: bool,
    pub told_outdated: bool,
}

/// The time from `earlier` to `now`.
pub open spec fn elapsed(earlier: u64, now: u64) -> int {
    if now >= earlier {
        now - earlier
    } else {
        0
    }
}

fn since(earlier: u64, now: u64) -> (r: u64)
    ensures
        r == elapsed(earlier, now),
{
    if now >= earlier {
        now - earlier
    } else {
        0
    }
}

/// The connection once something happened, before what a missing connection
/// calls for.
pub open spec fn woken(m: ObserveLoop, event: Woken, now: u64) -> ObserveLoop {
    match event {
        Woken::Observed { generation } => ObserveLoop {
            seen: generation,
            connected_since: Some(now),
            told_unreachable: false,
            told_outdated: false,
            ..m
        },
        Woken::Dropped => ObserveLoop { connected: false, seen: 0, connected_since: None, ..m },
        Woken::Handled { connected } => ObserveLoop { connected, ..m },
        Woken::HandlingFailed => ObserveLoop {
            connected: false,
            seen: 0,
            connected_since: None,
            ..m
        },
        Woken::Connected => ObserveLoop { connected: true, ..m },
        Woken::NotConnected { failure } => if failure == ConnectFailure::NewerAgent {
            ObserveLoop { told_outdated: true, ..m }
        } else {
            m
        },
    }
}

/// Whether it is time to say that the agent is unreachable.
pub open spec fn is_unreachable(m: ObserveLoop, now: u64) -> bool {
    !m.connected && !m.told_unreachable && elapsed(
        match m.connected_since {
            Some(t) => t,
            None => m.started,
        },
        now,
    ) >= UNREACHABLE_AFTER_MS
}

/// Whether it is time to launch the agent.
pub open spec fn is_launch_due(m: ObserveLoop, now: u64) -> bool {
    !m.connected && match m.last_launch {
        Some(t) => elapsed(t, now) >= SPAWN_RETRY_PERIOD_MS,
        None => true,
    }
}

/// The connection once everything is settled.
pub open spec fn after_wake(m: ObserveLoop, event: Woken, now: u64) -> ObserveLoop {
    let next = woken(m, event, now);
    ObserveLoop {
        told_unreachable: next.told_unreachable || is_unreachable(next, now),
        last_launch: if is_launch_due(next, now) {
            Some(now)
        } else {
            next.last_launch
        },
        ..next
    }
}

/// What to do about what happened.
pub open spec fn steps_for(m: ObserveLoop, event: Woken, now: u64) -> Steps {
    let next = woken(m, event, now);
    Steps {
        deliver: event matches Woken::Observed { generation } && generation != m.seen,
        observe: match event {
            Woken::Observed { generation } => if m.connected {
                Some(generation)
            } else {
                None
            },
            Woken::Connected => Some(m.seen),
            _ => None,
        },
        tell_unreachable: is_unreachable(next, now),
        tell_outdated: event == (Woken::NotConnected { failure: ConnectFailure::NewerAgent })
            && !m.told_outdated,
        launch: is_launch_due(next, now),
    }
}

impl ObserveLoop {
    /// Nothing was connected yet.
    pub fn new(now: u64) -> (r: ObserveLoop)
        ensures
            r == (ObserveLoop {
                connected: false,
                seen: 0,
                started: now,
                connected_since: None,
                last_launch: None,
                told_unreachable: false,
                told_outdated: false,
            }),
    {
        ObserveLoop {
            connected: false,
            seen: 0,
            started: now,
            connected_since: None,
            last_launch: None,
            told_unreachable: false,
            told_outdated: false,
        }
    }

    /// Take note of what happened, and say what to do about it.
    pub fn wake(&mut self, event: Woken, now: u64) -> (r: Steps)
        ensures
            *final(self) == after_wake(*old(self), event, now),
            r == steps_for(*old(self), event, now),
    {
        let mut steps = Steps {
            deliver: false,
            observe: None,
            tell_unreachable: false,
            tell_outdated: false,
            launch: false,
        };
        match event {
            Woken::Observed { generation } => {
                self.connected_since = Some(now);
                self.told_unreachable = false;
                self.told_outdated = false;
                if generation != self.seen {
                    self.seen = generation;
                    steps.deliver = true;
                }
                if self.connected {
                    steps.observe = Some(self.seen);
                }
            },
            Woken::Dropped => {
                self.connected = false;
                self.seen = 0;
                self.connected_since = None;
            },
            Woken::Handled { connected } => {
                self.connected = connected;
            },
            Woken::HandlingFailed => {
                self.connected = false;
                self.seen = 0;
                self.connected_since = None;
            },
            Woken::Connected => {
                self.connected = true;
                steps.observe = Some(self.seen);
            },
            Woken::NotConnected { failure } => {
                if failure == ConnectFailure::NewerAgent {
                    steps.tell_outdated = !self.told_outdated;
                    self.told_outdated = true;
                }
            },
        }
        if !self.connected {
            let down_since: u64 = match self.connected_since {
                Some(t) => t,
                None => self.started,
            };
            if !self.told_unreachable && since(down_since, now) >= UNREACHABLE_AFTER_MS {
                self.told_unreachable = true;
                steps.tell_unreachable = true;
            }
            let due = match self.last_launch {
                Some(t) => since(t, now) >= SPAWN_RETRY_PERIOD_MS,
                None => true,
            };
            if due {
                self.last_launch = Some(now);
                steps.launch = true;
            }
        }
        steps
    }
}

/// That the agent is unreachable is said once, until it tells its state again.
pub proof fn an_outage_is_told_once(m: ObserveLoop, event: Woken, now: u64)
    requires
        m.told_unreachable,
        !(event is Observed),
    ensures
        !steps_for(m, event, now).tell_unreachable,
        after_wake(m, event, now).told_unreachable,
{
}

/// Two launches of the agent are never closer than the least time between them.
pub proof fn launches_are_apart(m: ObserveLoop, event: Woken, now: u64, launched: u64)
    requires
        m.last_launch == Some(launched),
        steps_for(m, event, now).launch,
    ensures
        now - launched >= SPAWN_RETRY_PERIOD_MS,
{
}

/// A connection that dropped asks for the whole state when it is back: the
/// agent that answers then may count from anew.
pub proof fn a_reconnect_asks_for_everything(m: ObserveLoop, dropped: u64, back: u64)
    ensures
        steps_for(after_wake(m, Woken::Dropped, dropped), Woken::Connected, back).observe == Some(
            0u64,
        ),
{
}

/// The same state told twice is shown once.
pub proof fn a_heartbeat_shows_nothing(m: ObserveLoop, generation: u64, first: u64, second: u64)
    ensures
        !steps_for(
            after_wake(m, Woken::Observed { generation }, first),
            Woken::Observed { generation },
            second,
        ).deliver,
{
}

/// A change of a light.
#[derive(Clone, Copy, Debug, PartialEq, Eq, Structural)]
pub enum LightCommand {
    Power(bool),
    BrightnessPercent(u8),
    TemperatureKelvin(u16),
}

/// A command for the agent.
#[derive(Clone, Debug, PartialEq, Eq)]
pub enum AgentCommand {
    SetDpi,
    SetLighting,
    SetLight { command: LightCommand, key: String, request_id: u64 },
    SetLightManualPower { enabled: bool, key: String, request_id: u64 },
    SetSmartShift,
    ReadDpi,
    ReadSmartShift,
    ReloadConfig,
    RequestAccessibilityPrompt,
    StartPairing,
    PairDevice,
    CancelPairing,
}

/// Why a pairing does not happen.
#[derive(Clone, Debug, PartialEq, Eq)]
pub enum PairingFailure {
    /// The agent is not there.
    AgentRestarted,
    /// The agent refused, for a reason.
    Refused(String),
}

/// Why a light did not change.
#[derive(Clone, Debug, PartialEq, Eq)]
pub enum LightFailure {
    /// The agent is not there.
    AgentUnavailable,
    /// The device refused, for a reason.
    Device(String),
}

/// What is reported of a command.
#[derive(Debug, PartialEq, Eq)]
pub enum Report {
    /// Nothing.
    Silent,
    /// To whoever waits for a reading: that the agent is not there. That is no
    /// lasting refusal, so the reading is tried again.
    ReadUnavailable,
    /// How a change of a light ended.
    Light {
        key: String,
        request_id: u64,
        command: LightCommand,
        result: Result<(), LightFailure>,
    },
    /// That a pairing does not happen.
    Pairing(PairingFailure),
    /// Whether the agent took the configuration.
    Reload(Result<(), String>),
}

/// How a request to the agent ended: with an answer, with a refusal, or with
/// the connection dropped.
#[derive(Debug, PartialEq, Eq)]
pub enum Answer {
    Accepted,
    Refused(String),
    Lost(String),
}

/// Why a saved configuration was not applied while no agent runs.
pub open spec fn not_running_text() -> Seq<char> {
    "saved, but the agent is not running, so it has not been applied yet"@
}

/// The start of what a dropped connection says of a saved configuration.
pub open spec fn not_reached_text() -> Seq<char> {
    "saved, but the agent could not be reached to apply it: "@
}

/// Report a command that could not be sent at all, since the agent is not
/// there. A configuration that was saved is on disk already, so that it was not
/// applied has to be said.
pub fn reply_disconnected(command: AgentCommand) -> (r: Report)
    ensures
        match command {
            AgentCommand::ReadDpi => r is ReadUnavailable,
            AgentCommand::ReadSmartShift => r is ReadUnavailable,
            AgentCommand::SetLight { command, key, request_id } => r == (Report::Light {
                key,
                request_id,
                command,
                result: Err(LightFailure::AgentUnavailable),
            }),
            AgentCommand::SetLightManualPower { enabled, key, request_id } => r == (
            Report::Light {
                key,
                request_id,
                command: LightCommand::Power(enabled),
                result: Err(LightFailure::AgentUnavailable),
            }),
            AgentCommand::StartPairing => r == Report::Pairing(PairingFailure::AgentRestarted),
            AgentCommand::PairDevice => r == Report::Pairing(PairingFailure::AgentRestarted),
            AgentCommand::ReloadConfig => r matches Report::Reload(Err(message)) && message@
                == not_running_text(),
            _ => r is Silent,
        },
{
    match command {
        AgentCommand::ReadDpi => Report::ReadUnavailable,
        AgentCommand::ReadSmartShift => Report::ReadUnavailable,
        AgentCommand::SetLight { command, key, request_id } => Report::Light {
            key,
            request_id,
            command,
            result: Err(LightFailure::AgentUnavailable),
        },
        AgentCommand::SetLightManualPower { enabled, key, request_id } => Report::Light {
            key,
            request_id,
            command: LightCommand::Power(enabled),
            result: Err(LightFailure::AgentUnavailable),
        },
        AgentCommand::StartPairing => Report::Pairing(PairingFailure::AgentRestarted),
        AgentCommand::PairDevice => Report::Pairing(PairingFailure::AgentRestarted),
        AgentCommand::ReloadConfig => Report::Reload(
            Err(
                "saved, but the agent is not running, so it has not been applied yet".to_owned(),
            ),
        ),
        AgentCommand::SetDpi => Report::Silent,
        AgentCommand::SetLighting => Report::Silent,
        AgentCommand::SetSmartShift => Report::Silent,
        AgentCommand::RequestAccessibilityPrompt => Report::Silent,
        AgentCommand::CancelPairing => Report::Silent,
    }
}

/// Whether a change that is sent off and forgotten found the connection dropped.
/// A refusal is no matter of the connection.
pub fn log_apply(answer: &Answer) -> (r: Result<(), ()>)
    ensures
        r is Err <==> *answer is Lost,
{
    match answer {
        Answer::Lost(_) => Err(()),
        _ => Ok(()),
    }
}

/// Hand on an answer, or that the connection dropped.
pub fn rpc_result<T, E>(answer: Result<T, E>) -> (r: Result<T, ()>)
    ensures
        match answer {
            Ok(value) => r == Ok::<T, ()>(value),
            Err(_) => r is Err,
        },
{
    match answer {
        Ok(value) => Ok(value),
        Err(_) => Err(()),
    }
}

/// What is reported of a pairing command.
pub open spec fn pairing_report(answer: Answer) -> Report {
    match answer {
        Answer::Refused(reason) => Report::Pairing(PairingFailure::Refused(reason)),
        _ => Report::Silent,
    }
}

/// What is reported of a command to a light.
pub open spec fn light_report(
    key: String,
    request_id: u64,
    command: LightCommand,
    answer: Answer,
) -> Report {
    Report::Light {
        key,
        request_id,
        command,
        result: match answer {
            Answer::Accepted => Ok(()),
            Answer::Refused(reason) => Err(LightFailure::Device(reason)),
            Answer::Lost(_) => Err(LightFailure::AgentUnavailable),
        },
    }
}

/// Whether a result tells how a reload went.
pub open spec fn reloads(answer: Answer, result: Result<(), String>) -> bool {
    match answer {
        Answer::Accepted => result is Ok,
        Answer::Refused(reason) => result == Err::<(), String>(reason),
        Answer::Lost(error) => result matches Err(message) && message@ == not_reached_text()
            + error@,
    }
}

/// What the answer to a pairing command reports. One that was accepted shows in
/// the state of the agent; one that was refused never will.
pub fn pairing_command_result(answer: Answer) -> (r: Report)
    ensures
        r == pairing_report(answer),
{
    match answer {
        Answer::Refused(reason) => Report::Pairing(PairingFailure::Refused(reason)),
        _ => Report::Silent,
    }
}

/// What the answer to a change of a light reports.
pub fn light_result(key: String, request_id: u64, command: LightCommand, answer: Answer) -> (r:
    Report)
    ensures
        r == light_report(key, request_id, command, answer),
{
    let result = match answer {
        Answer::Accepted => Ok(()),
        Answer::Refused(reason) => Err(LightFailure::Device(reason)),
        Answer::Lost(_) => Err(LightFailure::AgentUnavailable),
    };
    Report::Light { key, request_id, command, result }
}

/// What the answer to a reload reports. A connection that dropped is no refusal,
/// but the configuration on disk was not applied all the same.
pub fn reload_result(answer: Answer) -> (r: Result<(), String>)
    ensures
        reloads(answer, r),
{
    match answer {
        Answer::Accepted => Ok(()),
        Answer::Refused(reason) => Err(reason),
        Answer::Lost(error) => Err(
            concat("saved, but the agent could not be reached to apply it: ", error.as_str()),
        ),
    }
}

/// What the answer to a command reports, and whether it found the connection
/// dropped. Whoever waits for a reading gets that reading instead.
pub fn handle(command: AgentCommand, answer: Answer) -> (r: (Report, bool))
    ensures
        r.1 == (answer is Lost),
        match command {
            AgentCommand::SetLight { command, key, request_id } => r.0 == light_report(
                key,
                request_id,
                command,
                answer,
            ),
            AgentCommand::SetLightManualPower { enabled, key, request_id } => r.0 == light_report(
                key,
                request_id,
                LightCommand::Power(enabled),
                answer,
            ),
            AgentCommand::ReloadConfig => r.0 matches Report::Reload(result) && reloads(
                answer,
                result,
            ),
            AgentCommand::StartPairing => r.0 == pairing_report(answer),
            AgentCommand::PairDevice => r.0 == pairing_report(answer),
            AgentCommand::CancelPairing => r.0 == pairing_report(answer),
            _ => r.0 is Silent,
        },
{
    let lost = match &answer {
        Answer::Lost(_) => true,
        _ => false,
    };
    let report = match command {
        AgentCommand::SetLight { command, key, request_id } => light_result(
            key,
            request_id,
            command,
            answer,
        ),
        AgentCommand::SetLightManualPower { enabled, key, request_id } => light_result(
            key,
            request_id,
            LightCommand::Power(enabled),
            answer,
        ),
        AgentCommand::ReloadConfig => Report::Reload(reload_result(answer)),
        AgentCommand::StartPairing => pairing_command_result(answer),
        AgentCommand::PairDevice => pairing_command_result(answer),
        AgentCommand::CancelPairing => pairing_command_result(answer),
        _ => Report::Silent,
    };
    (report, lost)
}

/// Where the last `/` of a path is, or `-1`.
pub open spec fn last_slash(path: Seq<char>) -> int
    decreases path.len(),
{
    if path.len() == 0 {
        -1
    } else if path.last() == '/' {
        path.len() - 1
    } else {
        last_slash(path.drop_last())
    }
}

/// Where the last `.` of a text is, or `-1`.
pub open spec fn last_dot(text: Seq<char>) -> int
    decreases text.len(),
{
    if text.len() == 0 {
        -1
    } else if text.last() == '.' {
        text.len() - 1
    } else {
        last_dot(text.drop_last())
    }
}

/// The last component of a path.
pub open spec fn file_name(path: Seq<char>) -> Seq<char> {
    path.skip(last_slash(path) + 1)
}

/// A path that reads the same on every host: components with single slashes
/// between them, none of which is special.
pub open spec fn is_plain(path: Seq<char>) -> bool
    decreases path.len(),
{
    let name = file_name(path);
    let slash = last_slash(path);
    &&& name.len() > 0
    &&& name != "."@
    &&& name != ".."@
    &&& forall|i: int| 0 <= i < path.len() ==> #[trigger] path[i] != '\\' && path[i] != ':'
    &&& 0 < slash < path.len() ==> is_plain(path.take(slash))
}

/// A plain path, or nothing, or the root.
pub open spec fn is_simple(path: Seq<char>) -> bool {
    is_plain(path) || path.len() == 0 || path == "/"@
}

/// What is left of a simple path without its last component.
pub open spec fn parent_text(path: Seq<char>) -> Option<Seq<char>> {
    let slash = last_slash(path);
    if path.len() == 0 || path == "/"@ {
        None
    } else if slash < 0 {
        Some(Seq::empty())
    } else if slash == 0 {
        Some("/"@)
    } else {
        Some(path.take(slash))
    }
}

/// The extension of a simple path: what follows the last dot of its last
/// component, unless that is the first character.
pub open spec fn extension_text(path: Seq<char>) -> Option<Seq<char>> {
    let name = file_name(path);
    if path.len() == 0 || path == "/"@ || last_dot(name) <= 0 {
        None
    } else {
        Some(name.skip(last_dot(name) + 1))
    }
}

/// Whether only slashes part the components of a path, on every host: it holds
/// no backslash and begins with neither a drive nor two slashes.
pub open spec fn parts_at_slashes(path: Seq<char>) -> bool {
    &&& !path.contains('\\')
    &&& !(path.len() > 1 && path[1] == ':' && ('a' <= path[0] <= 'z' || 'A' <= path[0] <= 'Z'))
    &&& !(path.len() > 1 && path[0] == '/' && path[1] == '/')
}

/// The components of a path.
pub ghost struct PathParts {
    /// Whether it begins at the root.
    pub rooted: bool,
    /// The names below it.
    pub names: Seq<Seq<char>>,
}

impl PathParts {
    /// Without the last names.
    pub open spec fn up(self, levels: int) -> PathParts {
        PathParts { rooted: self.rooted, names: self.names.take(self.names.len() - levels) }
    }

    /// What follows the last dot of the last name, unless that dot begins it or
    /// the name stands for the directory above.
    pub open spec fn extension(self) -> Option<Seq<char>> {
        if self.names.len() == 0 || self.names.last() == ".."@ || last_dot(self.names.last()) <= 0 {
            None
        } else {
            Some(self.names.last().skip(last_dot(self.names.last()) + 1))
        }
    }

    /// The bundle that a binary is packaged in: its third ancestor, if that is an
    /// application.
    pub open spec fn bundle(self) -> Option<PathParts> {
        if self.names.len() >= 3 && self.up(3).extension() == Some("app"@) {
            Some(self.up(3))
        } else {
            None
        }
    }
}

/// The names in a path: what stands between its slashes. Doubled and trailing
/// slashes add none, and neither does a single dot, except at the beginning of a
/// relative path.
pub open spec fn names_of(path: Seq<char>) -> Seq<Seq<char>>
    decreases path.len(),
{
    let slash = last_slash(path);
    let before = if 0 < slash < path.len() {
        names_of(path.take(slash))
    } else {
        Seq::empty()
    };
    if file_name(path).len() == 0 || (file_name(path) == "."@ && slash >= 0) {
        before
    } else {
        before.push(file_name(path))
    }
}

/// The components of a path that is parted at slashes.
pub open spec fn parts_of(path: Seq<char>) -> PathParts {
    PathParts { rooted: path.len() > 0 && path[0] == '/', names: names_of(path) }
}

/// `std::path::Path::parent`: the path without its final component, and `None`
/// for one that is empty or ends in a root. The text is told of a simple path,
/// and the components of every path that is parted at slashes: how many slashes
/// and dots are left between those is unsaid, and so is what becomes of paths
/// that are read differently on different hosts.
#[verifier::external_body]
fn path_parent(path: &str) -> (r: Option<String>)
    ensures
        is_simple(path@) ==> r.deep_view() == parent_text(path@),
        parts_at_slashes(path@) ==> (r is Some <==> names_of(path@).len() > 0),
        parts_at_slashes(path@) && r is Some ==> parts_at_slashes(r->0@) && parts_of(r->0@)
            == parts_of(path@).up(1),
{
    std::path::Path::new(path).parent().map(|p| p.to_string_lossy().into_owned())
}

/// `std::path::Path::extension`: what follows the last dot of the file name,
/// and `None` where there is no file name, no dot, or only one that begins it.
/// Paths that are read differently on different hosts are left unsaid.
#[verifier::external_body]
pub(crate) fn path_extension(path: &str) -> (r: Option<String>)
    ensures
        parts_at_slashes(path@) ==> r.deep_view() == parts_of(path@).extension(),
{
    std::path::Path::new(path).extension().map(|e| e.to_string_lossy().into_owned())
}

/// The bundle that a binary is packaged in: its third ancestor, if that is an
/// application.
pub open spec fn bundle_text(path: Seq<char>) -> Option<Seq<char>> {
    match parent_text(path) {
        Some(one) => match parent_text(one) {
            Some(two) => match parent_text(two) {
                Some(three) => if extension_text(three) == Some("app"@) {
                    Some(three)
                } else {
                    None
                },
                None => None,
            },
            None => None,
        },
        None => None,
    }
}

proof fn lemma_parent_is_simple(path: Seq<char>)
    requires
        is_simple(path),
    ensures
        parent_text(path) matches Some(up) ==> is_simple(up),
{
    let slash = last_slash(path);
    lemma_last_slash(path);
    if is_plain(path) && 0 < slash {
        assert(is_plain(path.take(slash)));
    }
}

proof fn lemma_last_slash(path: Seq<char>)
    ensures
        -1 <= last_slash(path) < path.len(),
        last_slash(path) >= 0 ==> path[last_slash(path)] == '/',
        forall|i: int| last_slash(path) < i < path.len() ==> #[trigger] path[i] != '/',
    decreases path.len(),
{
    if path.len() > 0 && path.last() != '/' {
        let rest = path.drop_last();
        lemma_last_slash(rest);
        assert forall|i: int| last_slash(path) < i < path.len() implies #[trigger] path[i]
            != '/' by {
            if i < rest.len() {
                assert(rest[i] == path[i]);
            }
        }
    }
}

proof fn lemma_plain_begins_with_one_slash(path: Seq<char>)
    requires
        is_plain(path),
    ensures
        !(path.len() > 1 && path[0] == '/' && path[1] == '/'),
    decreases path.len(),
{
    let slash = last_slash(path);
    lemma_last_slash(path);
    if path.len() > 1 && path[1] == '/' {
        assert(is_plain(path.take(slash)));
        if slash == 1 {
            let first = path.take(1);
            lemma_last_slash(first);
            if path[0] == '/' {
                assert(first[0] == '/');
            }
        } else {
            lemma_plain_begins_with_one_slash(path.take(slash));
        }
    }
}

/// A simple path is parted at slashes, and its extension is that of its last
/// name.
proof fn lemma_simple_parts(path: Seq<char>)
    requires
        is_simple(path),
    ensures
        parts_at_slashes(path),
        parts_of(path).extension() == extension_text(path),
{
    reveal_strlit("/");
    lemma_last_slash(path);
    if is_plain(path) {
        lemma_plain_begins_with_one_slash(path);
        assert(names_of(path).last() == file_name(path));
    } else if path.len() > 0 {
        assert(file_name(path).len() == 0);
    }
}

/// A directory, if its extension says that it is an application.
pub fn bundle_at(directory: String, extension: Option<String>) -> (r: Option<String>)
    ensures
        r == (if extension.deep_view() == Some("app"@) {
            Some(directory)
        } else {
            None
        }),
{
    match extension {
        Some(extension) => if same_text(extension.as_str(), "app") {
            Some(directory)
        } else {
            None
        },
        None => None,
    }
}

/// The bundle that a binary is packaged in, if it is.
pub fn helper_bundle(path: &str) -> (r: Option<String>)
    ensures
        is_simple(path@) ==> r.deep_view() == bundle_text(path@),
        parts_at_slashes(path@) ==> (r is Some <==> parts_of(path@).bundle() is Some),
        parts_at_slashes(path@) && r is Some ==> parts_at_slashes(r->0@) && Some(
            parts_of(r->0@),
        ) == parts_of(path@).bundle(),
{
    proof {
        if is_simple(path@) {
            lemma_parent_is_simple(path@);
        }
    }
    let one = match path_parent(path) {
        Some(one) => one,
        None => {
            return None;
        },
    };
    proof {
        if is_simple(path@) {
            lemma_parent_is_simple(one@);
        }
    }
    let two = match path_parent(one.as_str()) {
        Some(two) => two,
        None => {
            return None;
        },
    };
    proof {
        if is_simple(path@) {
            lemma_parent_is_simple(two@);
        }
    }
    let three = match path_parent(two.as_str()) {
        Some(three) => three,
        None => {
            return None;
        },
    };
    proof {
        if is_simple(path@) {
            lemma_simple_parts(three@);
        }
        if parts_at_slashes(path@) {
            assert(parts_of(path@).up(1).up(1).up(1).names =~= parts_of(path@).up(3).names);
        }
    }
    let extension = path_extension(three.as_str());
    bundle_at(three, extension)
}

/// How the agent is launched.
#[derive(Clone, Debug, PartialEq, Eq)]
pub enum Launch {
    /// There is no binary to launch.
    NotFound,
    /// The packaged helper is handed to the system, so that it is granted
    /// permissions of its own.
    Bundle(String),
    /// The binary is run.
    Binary(String),
}

/// How the agent is launched, given where its binary is and whether the host
/// knows bundles.
pub fn spawn_agent(binary: Option<String>, knows_bundles: bool) -> (r: Launch)
    ensures
        match binary {
            None => r is NotFound,
            Some(path) => {
                &&& !knows_bundles ==> r == Launch::Binary(path)
                &&& is_simple(path@) ==> if knows_bundles && bundle_text(path@) is Some {
                    r matches Launch::Bundle(bundle) && bundle@ == bundle_text(path@)->0
                } else {
                    r == Launch::Binary(path)
                }
                &&& parts_at_slashes(path@) ==> if knows_bundles && parts_of(path@).bundle() is Some {
                    r matches Launch::Bundle(bundle) && parts_at_slashes(bundle@) && Some(
                        parts_of(bundle@),
                    ) == parts_of(path@).bundle()
                } else {
                    r == Launch::Binary(path)
                }
            },
        },
{
    match binary {
        None => Launch::NotFound,
        Some(path) => if knows_bundles {
            match helper_bundle(path.as_str()) {
                Some(bundle) => Launch::Bundle(bundle),
                None => Launch::Binary(path),
            }
        } else {
            Launch::Binary(path)
        },
    }
}

/// Where the binary of the agent may be.
#[derive(Clone, Debug, PartialEq, Eq)]
pub struct AgentLocation {
    /// Whether it is below the directory above that of this application, and
    /// not beside it.
    pub above: bool,
    pub relative: String,
}

impl DeepView for AgentLocation {
    type V = (bool, Seq<char>);

    open spec fn deep_view(&self) -> (bool, Seq<char>) {
        (self.above, self.relative@)
    }
}

/// Where the binary of the agent may be, the first one to be looked for first.
pub open spec fn locations(knows_bundles: bool, suffix: Seq<char>) -> Seq<(bool, Seq<char>)> {
    let beside = (false, "openlogi-agent"@ + suffix);
    if knows_bundles {
        seq![
            beside,
            (
                true,
                "Library/LoginItems/OpenLogi Agent Dev.app/Contents/MacOS/openlogi-agent"@,
            ),
            (true, "Library/LoginItems/OpenLogi Agent.app/Contents/MacOS/openlogi-agent"@),
            (true, "Library/LoginItems/OpenLogiAgent.app/Contents/MacOS/openlogi-agent"@),
        ]
    } else {
        seq![beside]
    }
}

/// Where the binary of the agent may be: beside this application, or, on a host
/// that knows bundles, in a helper of the bundle. `suffix` is what the names of
/// binaries end in.
pub fn agent_locations(knows_bundles: bool, suffix: &str) -> (r: Vec<AgentLocation>)
    ensures
        r.deep_view() == locations(knows_bundles, suffix@),
{
    let mut r: Vec<AgentLocation> = Vec::new();
    r.push(AgentLocation { above: false, relative: concat("openlogi-agent", suffix) });
    if knows_bundles {
        r.push(
            AgentLocation {
                above: true,
                relative:
                    "Library/LoginItems/OpenLogi Agent Dev.app/Contents/MacOS/openlogi-agent".to_owned(),
            },
        );
        r.push(
            AgentLocation {
                above: true,
                relative:
                    "Library/LoginItems/OpenLogi Agent.app/Contents/MacOS/openlogi-agent".to_owned(),
            },
        );
        r.push(
            AgentLocation {
                above: true,
                relative:
                    "Library/LoginItems/OpenLogiAgent.app/Contents/MacOS/openlogi-agent".to_owned(),
            },
        );
    }
    proof {
        assert(r.deep_view() =~= locations(knows_bundles, suffix@));
    }
    r
}

/// A saved configuration that the agent did not take is never told as taken,
/// whether the agent refused it or was not reached.
pub proof fn a_lost_reload_is_a_failure(answer: Answer, result: Result<(), String>)
    requires
        reloads(answer, result),
    ensures
        result is Ok <==> answer is Accepted,
        answer matches Answer::Refused(reason) ==> result == Err::<(), String>(reason),
{
}

/// A notice is delivered exactly when it is news, and the next one is asked for from
/// there. Any notice ends an outage, so that the next one is told again.
pub proof fn news_is_delivered_once(m: ObserveLoop, generation: u64, now: u64)
    ensures
        ({
            let steps = steps_for(m, Woken::Observed { generation }, now);
            let after = after_wake(m, Woken::Observed { generation }, now);
            &&& steps.deliver <==> generation != m.seen
            &&& after.seen == generation
            &&& after.connected == m.connected
            &&& m.connected ==> steps.observe == Some(generation) && !after.told_unreachable
                && !steps.launch && !steps.tell_unreachable
            &&& !after.told_outdated && !steps.tell_outdated
            &&& after.connected_since == Some(now)
        }),
        !steps_for(m, Woken::Dropped, now).deliver,
        !steps_for(m, Woken::Connected, now).deliver,
        !steps_for(m, Woken::HandlingFailed, now).deliver,
{
}

/// A connection that drops, or over which a command could not be handled, is gone,
/// and everything is asked for anew over the next one. One that is made is used from
/// where the last notice was.
pub proof fn a_lost_connection_starts_over(m: ObserveLoop, now: u64)
    ensures
        !after_wake(m, Woken::Dropped, now).connected,
        after_wake(m, Woken::Dropped, now).seen == 0,
        after_wake(m, Woken::Dropped, now).connected_since is None,
        !after_wake(m, Woken::HandlingFailed, now).connected,
        after_wake(m, Woken::HandlingFailed, now).seen == 0,
        after_wake(m, Woken::Connected, now).connected,
        steps_for(m, Woken::Connected, now).observe == Some(m.seen),
        steps_for(m, Woken::Dropped, now).observe is None,
        forall|connected: bool|
            (#[trigger] after_wake(m, Woken::Handled { connected }, now)).connected == connected,
{
}

/// While there is no connection, the agent is launched at once and then every half
/// minute, and an outage is told once it has lasted a quarter of a minute. While
/// there is one, neither happens.
pub proof fn an_outage_is_noticed(m: ObserveLoop, failure: ConnectFailure, now: u64)
    requires
        m.started <= now,
        m.connected_since matches Some(t) ==> t <= now,
        m.last_launch matches Some(t) ==> t <= now,
    ensures
        ({
            let steps = steps_for(m, Woken::NotConnected { failure }, now);
            let after = after_wake(m, Woken::NotConnected { failure }, now);
            let down_since = match m.connected_since {
                Some(t) => t,
                None => m.started,
            };
            &&& steps.launch <==> !m.connected && (m.last_launch is None || now - m.last_launch->0
                >= 30_000)
            &&& steps.launch ==> after.last_launch == Some(now)
            &&& !steps.launch ==> after.last_launch == m.last_launch
            &&& steps.tell_unreachable <==> !m.connected && !m.told_unreachable && now - down_since
                >= 15_000
            &&& after.told_unreachable <==> m.told_unreachable || steps.tell_unreachable
            &&& steps.tell_outdated <==> failure is NewerAgent && !m.told_outdated
            &&& after.told_outdated <==> m.told_outdated || failure is NewerAgent
            &&& !steps.deliver && steps.observe is None
        }),
{
}

/// What is told of a command for a light is told for that light, command and
/// request; it went well exactly if it was accepted, and a refusal is told with its
/// reason.
pub proof fn a_light_is_told_how_its_command_went(
    key: String,
    request_id: u64,
    command: LightCommand,
    answer: Answer,
)
    ensures
        light_report(key, request_id, command, answer) matches Report::Light {
            key: k,
            request_id: id,
            command: c,
            result,
        } && k == key && id == request_id && c == command && (result is Ok <==> answer is Accepted)
            && (answer is Lost <==> result == Err::<(), LightFailure>(
            LightFailure::AgentUnavailable,
        )) && (answer matches Answer::Refused(reason) ==> result == Err::<(), LightFailure>(
            LightFailure::Device(reason),
        )),
{
}

/// Pairing is told of exactly when the agent refused it, with the reason.
pub proof fn a_refused_pairing_is_told(answer: Answer)
    ensures
        pairing_report(answer) is Silent <==> !(answer is Refused),
        answer matches Answer::Refused(reason) ==> pairing_report(answer) == Report::Pairing(
            PairingFailure::Refused(reason),
        ),
{
}

proof fn lemma_last_slash_is(path: Seq<char>, at: int)
    requires
        -1 <= at < path.len(),
        at >= 0 ==> path[at] == '/',
        forall|i: int| at < i < path.len() ==> #[trigger] path[i] != '/',
    ensures
        last_slash(path) == at,
{
    lemma_last_slash(path);
    let slash = last_slash(path);
    if slash < at {
        assert(path[at] != '/');
    }
    if at < slash {
        assert(path[slash] != '/');
    }
}

/// A name behind a slash is one more name of a path. A trailing slash, and a single
/// dot behind one, are none.
pub proof fn a_name_behind_a_slash_is_one_more(path: Seq<char>, name: Seq<char>)
    requires
        !name.contains('/'),
        name.len() > 0,
        name != "."@,
    ensures
        names_of(path + seq!['/'] + name) == names_of(path).push(name),
        names_of(path + seq!['/']) == names_of(path),
        names_of(path + seq!['/'] + "."@) == names_of(path),
        names_of(Seq::empty()).len() == 0,
{
    reveal_strlit(".");
    let slash = path.len() as int;
    let joined = path + seq!['/'] + name;
    let trailing = path + seq!['/'];
    let dotted = path + seq!['/'] + "."@;
    assert forall|i: int| slash < i < joined.len() implies #[trigger] joined[i] != '/' by {
        assert(joined[i] == name[i - slash - 1]);
        assert(name.contains(name[i - slash - 1]));
    }
    lemma_last_slash_is(joined, slash);
    assert(file_name(joined) =~= name);
    assert(joined.take(slash) =~= path);
    lemma_last_slash_is(trailing, slash);
    assert(file_name(trailing).len() == 0);
    assert(trailing.take(slash) =~= path);
    lemma_last_slash_is(dotted, slash);
    assert(file_name(dotted) =~= "."@);
    assert(dotted.take(slash) =~= path);
    lemma_last_slash(Seq::<char>::empty());
    assert(file_name(Seq::<char>::empty()).len() == 0);
    if path.len() == 0 {
        assert(path =~= Seq::empty());
    }
}

proof fn lemma_last_dot_is(text: Seq<char>, at: int)
    requires
        0 <= at < text.len(),
        text[at] == '.',
        forall|i: int| at < i < text.len() ==> #[trigger] text[i] != '.',
    ensures
        last_dot(text) == at,
    decreases text.len(),
{
    if at < text.len() - 1 {
        let rest = text.drop_last();
        assert(text.last() != '.');
        assert forall|i: int| at < i < rest.len() implies #[trigger] rest[i] != '.' by {
            assert(rest[i] == text[i]);
        }
        lemma_last_dot_is(rest, at);
    }
}

/// A binary three levels inside of an application is packaged in it, wherever that
/// is and whatever the levels are called.
pub proof fn a_helper_is_found_in_its_application(
    rooted: bool,
    above: Seq<Seq<char>>,
    stem: Seq<char>,
    a: Seq<char>,
    b: Seq<char>,
    c: Seq<char>,
)
    requires
        stem.len() > 0,
    ensures
        (PathParts {
            rooted,
            names: above.push(stem + ".app"@).push(a).push(b).push(c),
        }).bundle() == Some(PathParts { rooted, names: above.push(stem + ".app"@) }),
        (PathParts { rooted, names: above.push(stem + ".app"@) }).extension() == Some("app"@),
{
    reveal_strlit(".app");
    reveal_strlit("app");
    reveal_strlit("..");
    let name = stem + ".app"@;
    let parts = PathParts { rooted, names: above.push(name).push(a).push(b).push(c) };
    assert(parts.up(3).names =~= above.push(name));
    lemma_last_dot_is(name, stem.len() as int);
    assert(name.skip(last_dot(name) + 1) =~= "app"@);
    assert(name != ".."@) by {
        assert(name.len() > 4);
    }
}

/// A binary that is packaged in something is packaged in what its third ancestor is,
/// and only in an application.
pub proof fn only_an_application_packages(parts: PathParts)
    ensures
        parts.bundle() matches Some(bundle) ==> {
            &&& parts.names.len() >= 3
            &&& bundle.rooted == parts.rooted
            &&& bundle.names == parts.names.take(parts.names.len() - 3)
            &&& bundle.extension() == Some("app"@)
        },
        parts.names.len() < 3 ==> parts.bundle() is None,
{
}

/// The binary beside the application is looked for first, under the suffix of the
/// host; helpers of the bundle are looked for only where the host knows bundles.
pub proof fn the_binary_beside_is_looked_for_first(knows_bundles: bool, suffix: Seq<char>)
    ensures
        locations(knows_bundles, suffix)[0] == (false, "openlogi-agent"@ + suffix),
        !knows_bundles ==> locations(knows_bundles, suffix).len() == 1,
        knows_bundles ==> locations(knows_bundles, suffix).len() == 4,
        forall|i: int|
            1 <= i < locations(knows_bundles, suffix).len() ==> (
            #[trigger] locations(knows_bundles, suffix)[i]).0,
{
}

} // verus!
