//! Opening and closing rings on request, and delivering the overlay's commands
//! to the agent.

use vstd::prelude::*;

use crate::ring::{
    ActionRingInvocation, ClickAwaySession, OverlayCommand, RingModel, RingView, WindowFate,
};

verus! {

/// What a request does to the window that is kept between rings.
#[derive(Clone, Copy, Debug, PartialEq, Eq, Structural)]
pub enum WarmStep {
    /// The request closed the ring: report the command, give the window up.
    Dismissed { report: OverlayCommand, fate: WindowFate },
    /// The ring is installed; the window has to be shown at the pointer, and
    /// the outcome handed to [`finish_warm`].
    Show { session_id: u64 },
}

/// What follows an attempt to show the window.
#[derive(Clone, Copy, Debug, PartialEq, Eq, Structural)]
pub enum ShowOutcome {
    /// The ring is up: close it when its display time is over.
    Shown,
    /// The window could not be shown: report the command, and give the window
    /// up unless it was closed meanwhile.
    Failed { report: OverlayCommand, fate: Option<WindowFate> },
}

/// A request arrived for the window that is kept between rings. One without
/// slots is the second press that closes the ring, whichever is open.
pub fn handle_warm_invocation(
    view: &mut RingView,
    invocation: ActionRingInvocation,
    live: &mut ClickAwaySession,
) -> (r: WarmStep)
    ensures
        invocation.slots@.len() == 0 ==> {
            &&& r == (WarmStep::Dismissed {
                report: OverlayCommand::Cancel { session_id: invocation.session_id },
                fate: if old(view)@.session() is Some {
                    old(view)@.fate()
                } else {
                    WindowFate::Hide
                },
            })
            &&& final(view)@ == (if old(view)@.session() is Some {
                old(view)@.closed()
            } else {
                old(view)@
            })
            &&& final(live)@ == 0
        },
        invocation.slots@.len() > 0 ==> {
            &&& r == (WarmStep::Show { session_id: invocation.session_id })
            &&& final(view)@ == (RingModel {
                invocation: Some(invocation),
                hovered: None,
                persistent: old(view)@.persistent,
            })
            &&& final(live)@ == old(live)@
        },
{
    let session_id = invocation.session_id;
    if invocation.slots.len() == 0 {
        let report = OverlayCommand::Cancel { session_id };
        let fate = match view.current_session() {
            Some(open) => match view.dismiss(open, live) {
                Some(fate) => fate,
                None => WindowFate::Hide,
            },
            None => {
                live.clear();
                WindowFate::Hide
            },
        };
        return WarmStep::Dismissed { report, fate };
    }
    view.install(invocation);
    WarmStep::Show { session_id }
}

/// The native window was shown at the pointer, or could not be.
pub fn finish_warm(
    view: &mut RingView,
    session_id: u64,
    shown: bool,
    live: &mut ClickAwaySession,
) -> (r: ShowOutcome)
    ensures
        shown ==> r is Shown && final(view)@ == old(view)@ && final(live)@ == session_id,
        !shown ==> {
            let open = old(view)@.session() == Some(session_id);
            &&& r == (ShowOutcome::Failed {
                report: OverlayCommand::Cancel { session_id },
                fate: if open {
                    Some(old(view)@.fate())
                } else {
                    None
                },
            })
            &&& final(view)@ == (if open {
                old(view)@.closed()
            } else {
                old(view)@
            })
            &&& final(live)@ == (if open {
                0
            } else {
                old(live)@
            })
        },
{
    if shown {
        live.set(session_id);
        ShowOutcome::Shown
    } else {
        let fate = view.dismiss(session_id, live);
        ShowOutcome::Failed { report: OverlayCommand::Cancel { session_id }, fate }
    }
}

/// What a request does where every ring gets a window of its own.
#[derive(Clone, Copy, Debug, PartialEq, Eq, Structural)]
pub enum ColdStep {
    /// Close every window and report the command.
    CloseAll { report: OverlayCommand },
    /// Open a window for the ring and hand the outcome to [`finish_cold`].
    Open { session_id: u64 },
}

/// A request arrived where every ring gets a window of its own.
pub fn handle_cold_invocation(
    invocation: &ActionRingInvocation,
    live: &mut ClickAwaySession,
) -> (r: ColdStep)
    ensures
        invocation.slots@.len() == 0 ==> r == (ColdStep::CloseAll {
            report: OverlayCommand::Cancel { session_id: invocation.session_id },
        }) && final(live)@ == 0,
        invocation.slots@.len() > 0 ==> r == (ColdStep::Open { session_id: invocation.session_id })
            && final(live)@ == old(live)@,
{
    if invocation.slots.len() == 0 {
        live.clear();
        ColdStep::CloseAll { report: OverlayCommand::Cancel { session_id: invocation.session_id } }
    } else {
        ColdStep::Open { session_id: invocation.session_id }
    }
}

/// The window of the ring opened, or could not. Returns whether the windows
/// of the rings before it have to be closed.
pub fn finish_cold(session_id: u64, opened: bool, live: &mut ClickAwaySession) -> (r: bool)
    ensures
        r == opened,
        final(live)@ == (if opened {
            session_id
        } else {
            old(live)@
        }),
{
    if opened {
        live.set(session_id);
    }
    opened
}

/// The command that stays pending when `next` is produced while `current`
/// still waits: the newer one, except that a hover never displaces the command
/// that ends its own session.
pub open spec fn spec_coalesce(current: OverlayCommand, next: OverlayCommand) -> OverlayCommand {
    if next is Hover && current.spec_is_terminal() && next.spec_session()
        == current.spec_session() {
        current
    } else {
        next
    }
}

/// Fold a newly produced command into the one still waiting to be sent.
///
/// A hover is dropped once its own session has been activated or cancelled. It
/// must be the same session: rings open back to back, and a hover is only
/// produced when the hovered slot changes.
pub fn coalesce_command(current: OverlayCommand, next: OverlayCommand) -> (r: OverlayCommand)
    ensures
        r == spec_coalesce(current, next),
{
    match next {
        OverlayCommand::Hover { session_id, .. } => if current.is_terminal() && session_id
            == current.session() {
            current
        } else {
            next
        },
        _ => next,
    }
}

/// What is left of a queue of commands, oldest first.
pub open spec fn spec_coalesce_all(first: OverlayCommand, rest: Seq<OverlayCommand>) -> OverlayCommand
    decreases rest.len(),
{
    if rest.len() == 0 {
        first
    } else {
        spec_coalesce(spec_coalesce_all(first, rest.drop_last()), rest.last())
    }
}

/// Fold a whole queue of commands, oldest first.
pub fn coalesce_all(first: OverlayCommand, rest: &Vec<OverlayCommand>) -> (r: OverlayCommand)
    ensures
        r == spec_coalesce_all(first, rest@),
{
    let mut pending = first;
    let mut i: usize = 0;
    while i < rest.len()
        invariant
            i <= rest@.len(),
            pending == spec_coalesce_all(first, rest@.take(i as int)),
        decreases rest@.len() - i,
    {
        proof {
            assert(rest@.take(i as int + 1).drop_last() =~= rest@.take(i as int));
        }
        pending = coalesce_command(pending, rest[i]);
        i = i + 1;
    }
    proof {
        assert(rest@.take(rest@.len() as int) =~= rest@);
    }
    pending
}

/// A command that ends its session survives every hover of that session.
pub proof fn hovers_never_displace_the_end_of_their_session(
    first: OverlayCommand,
    rest: Seq<OverlayCommand>,
)
    requires
        first.spec_is_terminal(),
        forall|i: int|
            0 <= i < rest.len() ==> (#[trigger] rest[i]) is Hover && rest[i].spec_session()
                == first.spec_session(),
    ensures
        spec_coalesce_all(first, rest) == first,
    decreases rest.len(),
{
    if rest.len() > 0 {
        assert forall|i: int| 0 <= i < rest.drop_last().len() implies (
        #[trigger] rest.drop_last()[i]) is Hover && rest.drop_last()[i].spec_session()
            == first.spec_session() by {
            assert(rest.drop_last()[i] == rest[i]);
        }
        hovers_never_displace_the_end_of_their_session(first, rest.drop_last());
        assert(rest.last() == rest[rest.len() - 1]);
    }
}

/// The newest command of a session other than the pending one always wins.
pub proof fn a_new_session_is_never_swallowed(current: OverlayCommand, next: OverlayCommand)
    ensures
        next.spec_session() != current.spec_session() ==> spec_coalesce(current, next) == next,
        next.spec_is_terminal() ==> spec_coalesce(current, next) == next,
{
}

/// When a command stops being worth retrying: only one that ends its session
/// is, for as long as its ring would have been displayed. Times are
/// milliseconds on one clock.
pub open spec fn spec_deadline(command: OverlayCommand, now: int, lifetime: int) -> Option<int> {
    if command.spec_is_terminal() {
        Some(now + lifetime)
    } else {
        None
    }
}

/// When `command`, pending since `now`, stops being worth retrying.
pub fn command_deadline(command: OverlayCommand, now: u64, lifetime: u64) -> (r: Option<u64>)
    requires
        now + lifetime <= u64::MAX,
    ensures
        deadline_view(r) == spec_deadline(command, now as int, lifetime as int),
{
    if command.is_terminal() {
        Some(now + lifetime)
    } else {
        None
    }
}

/// A deadline as a number.
pub open spec fn deadline_view(deadline: Option<u64>) -> Option<int> {
    match deadline {
        Some(d) => Some(d as int),
        None => None,
    }
}

/// Fold `next` into the pending command. The deadline starts anew exactly when
/// the pending command changes.
pub fn merge_pending(
    command: OverlayCommand,
    deadline: Option<u64>,
    next: OverlayCommand,
    now: u64,
    lifetime: u64,
) -> (r: (OverlayCommand, Option<u64>))
    requires
        now + lifetime <= u64::MAX,
    ensures
        r.0 == spec_coalesce(command, next),
        r.0 == command ==> r.1 == deadline,
        r.0 != command ==> deadline_view(r.1) == spec_deadline(r.0, now as int, lifetime as int),
{
    let pending = coalesce_command(command, next);
    if pending == command {
        (pending, deadline)
    } else {
        (pending, command_deadline(pending, now, lifetime))
    }
}

/// Whether a failed command is tried again at `now`: only while its deadline is
/// ahead, and never without one.
pub fn retry_before(now: u64, deadline: Option<u64>) -> (r: bool)
    ensures
        r == (deadline matches Some(at) && now < at),
{
    match deadline {
        Some(at) => now < at,
        None => false,
    }
}

/// What the delivery of commands is waiting for.
#[derive(Clone, Copy, Debug, PartialEq, Eq, Structural)]
pub enum Delivery {
    /// For a command.
    Idle,
    /// For a connection to the agent.
    Connecting { command: OverlayCommand, deadline: Option<u64> },
    /// For the agent's answer to the command.
    Sending { command: OverlayCommand, deadline: Option<u64> },
    /// For the pause before the next attempt.
    Pausing { command: OverlayCommand, deadline: Option<u64> },
    /// For nothing: every sender of commands is gone.
    Stopped,
}

/// What wakes the delivery of commands.
#[derive(Clone, Copy, Debug, PartialEq, Eq, Structural)]
pub enum DeliveryEvent {
    /// A command was produced.
    Command(OverlayCommand),
    /// The connection attempt ended.
    Connected(bool),
    /// The agent answered, or the connection dropped.
    Answered(bool),
    /// The pending command's deadline passed.
    Expired,
    /// The pause is over.
    PauseOver,
    /// Every sender of commands is gone.
    Closed,
}

/// Delivery of the overlay's commands: one command is pending at a time, newer
/// ones are folded into it, and one that ends a session is retried until its
/// deadline.
#[derive(Clone, Copy, Debug, PartialEq, Eq, Structural)]
pub struct CommandWorker {
    /// Whether a connection is held.
    pub connected: bool,
    /// What is waited for.
    pub state: Delivery,
    /// How long a ring is displayed, in milliseconds.
    pub lifetime: u64,
}

impl CommandWorker {
    /// No connection, no command.
    pub fn new(lifetime: u64) -> (r: Self)
        ensures
            r == (CommandWorker { connected: false, state: Delivery::Idle, lifetime }),
    {
        CommandWorker { connected: false, state: Delivery::Idle, lifetime }
    }

    /// The command that is not yet delivered.
    pub open spec fn pending(self) -> Option<OverlayCommand> {
        match self.state {
            Delivery::Connecting { command, .. } => Some(command),
            Delivery::Sending { command, .. } => Some(command),
            Delivery::Pausing { command, .. } => Some(command),
            Delivery::Idle | Delivery::Stopped => None,
        }
    }

    /// Start an attempt to deliver `command`.
    pub open spec fn spec_attempt(
        self,
        connected: bool,
        command: OverlayCommand,
        deadline: Option<u64>,
    ) -> CommandWorker {
        CommandWorker {
            connected,
            state: if connected {
                Delivery::Sending { command, deadline }
            } else {
                Delivery::Connecting { command, deadline }
            },
            lifetime: self.lifetime,
        }
    }

    /// An attempt failed: pause before the next one, or give the command up.
    pub open spec fn spec_failed(
        self,
        command: OverlayCommand,
        deadline: Option<u64>,
        now: u64,
    ) -> CommandWorker {
        CommandWorker {
            connected: false,
            state: if deadline matches Some(at) && now < at {
                Delivery::Pausing { command, deadline }
            } else {
                Delivery::Idle
            },
            lifetime: self.lifetime,
        }
    }

    /// The deadline of `command` when it becomes pending at `now`.
    pub open spec fn fresh_deadline(self, command: OverlayCommand, now: u64) -> Option<u64> {
        if command.spec_is_terminal() {
            Some((now + self.lifetime) as u64)
        } else {
            None
        }
    }

    /// `next` was produced while `command` waits: what is pending then.
    pub open spec fn spec_folded(
        self,
        command: OverlayCommand,
        deadline: Option<u64>,
        next: OverlayCommand,
        now: u64,
    ) -> (OverlayCommand, Option<u64>) {
        let pending = spec_coalesce(command, next);
        if pending == command {
            (command, deadline)
        } else {
            (pending, self.fresh_deadline(pending, now))
        }
    }

    /// The state after `event` at `now`. An event that the state does not wait
    /// for changes nothing.
    pub open spec fn spec_step(self, event: DeliveryEvent, now: u64) -> CommandWorker {
        match (self.state, event) {
            (Delivery::Stopped, _) => self,
            (_, DeliveryEvent::Closed) => CommandWorker { state: Delivery::Stopped, ..self },
            (Delivery::Idle, DeliveryEvent::Command(next)) => self.spec_attempt(
                self.connected,
                next,
                self.fresh_deadline(next, now),
            ),
            (Delivery::Connecting { command, deadline }, DeliveryEvent::Command(next)) => {
                let folded = self.spec_folded(command, deadline, next, now);
                if folded.0 == command {
                    self
                } else {
                    self.spec_attempt(false, folded.0, folded.1)
                }
            },
            (Delivery::Sending { command, deadline }, DeliveryEvent::Command(next)) => {
                let folded = self.spec_folded(command, deadline, next, now);
                if folded.0 == command {
                    self
                } else {
                    self.spec_attempt(self.connected, folded.0, folded.1)
                }
            },
            (Delivery::Pausing { command, deadline }, DeliveryEvent::Command(next)) => {
                let folded = self.spec_folded(command, deadline, next, now);
                self.spec_attempt(self.connected, folded.0, folded.1)
            },
            (Delivery::Connecting { command, deadline }, DeliveryEvent::Connected(ok)) => if ok {
                self.spec_attempt(true, command, deadline)
            } else {
                self.spec_failed(command, deadline, now)
            },
            (Delivery::Sending { command, deadline }, DeliveryEvent::Answered(ok)) => if ok {
                CommandWorker { state: Delivery::Idle, ..self }
            } else {
                self.spec_failed(command, deadline, now)
            },
            (Delivery::Connecting { .. }, DeliveryEvent::Expired) => CommandWorker {
                state: Delivery::Idle,
                ..self
            },
            (Delivery::Sending { .. }, DeliveryEvent::Expired) => CommandWorker {
                state: Delivery::Idle,
                ..self
            },
            (Delivery::Pausing { command, deadline }, DeliveryEvent::PauseOver) =>
                self.spec_attempt(self.connected, command, deadline),
            _ => self,
        }
    }

    fn attempt(self, connected: bool, command: OverlayCommand, deadline: Option<u64>) -> (r: Self)
        ensures
            r == self.spec_attempt(connected, command, deadline),
    {
        let state = if connected {
            Delivery::Sending { command, deadline }
        } else {
            Delivery::Connecting { command, deadline }
        };
        CommandWorker { connected, state, lifetime: self.lifetime }
    }

    fn failed(self, command: OverlayCommand, deadline: Option<u64>, now: u64) -> (r: Self)
        ensures
            r == self.spec_failed(command, deadline, now),
    {
        let state = if retry_before(now, deadline) {
            Delivery::Pausing { command, deadline }
        } else {
            Delivery::Idle
        };
        CommandWorker { connected: false, state, lifetime: self.lifetime }
    }

    /// Take one event at `now` and move to the state that waits for the next.
    pub fn step(self, event: DeliveryEvent, now: u64) -> (r: Self)
        requires
            now + self.lifetime <= u64::MAX,
        ensures
            r == self.spec_step(event, now),
    {
        match (self.state, event) {
            (Delivery::Stopped, _) => self,
            (_, DeliveryEvent::Closed) => CommandWorker { state: Delivery::Stopped, ..self },
            (Delivery::Idle, DeliveryEvent::Command(next)) => {
                let deadline = command_deadline(next, now, self.lifetime);
                self.attempt(self.connected, next, deadline)
            },
            (Delivery::Connecting { command, deadline }, DeliveryEvent::Command(next)) => {
                let folded = merge_pending(command, deadline, next, now, self.lifetime);
                if folded.0 == command {
                    self
                } else {
                    self.attempt(false, folded.0, folded.1)
                }
            },
            (Delivery::Sending { command, deadline }, DeliveryEvent::Command(next)) => {
                let folded = merge_pending(command, deadline, next, now, self.lifetime);
                if folded.0 == command {
                    self
                } else {
                    self.attempt(self.connected, folded.0, folded.1)
                }
            },
            (Delivery::Pausing { command, deadline }, DeliveryEvent::Command(next)) => {
                let folded = merge_pending(command, deadline, next, now, self.lifetime);
                self.attempt(self.connected, folded.0, folded.1)
            },
            (Delivery::Connecting { command, deadline }, DeliveryEvent::Connected(ok)) => if ok {
                self.attempt(true, command, deadline)
            } else {
                self.failed(command, deadline, now)
            },
            (Delivery::Sending { command, deadline }, DeliveryEvent::Answered(ok)) => if ok {
                CommandWorker { state: Delivery::Idle, ..self }
            } else {
                self.failed(command, deadline, now)
            },
            (Delivery::Connecting { .. }, DeliveryEvent::Expired) => CommandWorker {
                state: Delivery::Idle,
                ..self
            },
            (Delivery::Sending { .. }, DeliveryEvent::Expired) => CommandWorker {
                state: Delivery::Idle,
                ..self
            },
            (Delivery::Pausing { command, deadline }, DeliveryEvent::PauseOver) => {
                self.attempt(self.connected, command, deadline)
            },
            _ => self,
        }
    }

    /// Whether every pending command has the deadline it should have: a hover
    /// has none and is not paused over, a command that ends its session has one.
    pub open spec fn deadlines_fit(self) -> bool {
        match self.state {
            Delivery::Connecting { command, deadline } => deadline is Some
                <==> command.spec_is_terminal(),
            Delivery::Sending { command, deadline } => deadline is Some
                <==> command.spec_is_terminal(),
            Delivery::Pausing { command, deadline } => deadline is Some
                && command.spec_is_terminal(),
            Delivery::Idle | Delivery::Stopped => true,
        }
    }
}

/// Only a command that ends its session is ever retried: no event makes the
/// delivery pause over a hover.
pub proof fn hovers_are_never_retried(worker: CommandWorker, event: DeliveryEvent, now: u64)
    requires
        worker.deadlines_fit(),
        now + worker.lifetime <= u64::MAX,
    ensures
        worker.spec_step(event, now).deadlines_fit(),
        worker.spec_step(event, now).state matches Delivery::Pausing { command, .. }
            ==> command.spec_is_terminal(),
{
}

/// A pending command that ends its session leaves only by being delivered, by
/// its deadline, by a newer command, or by the overlay going away.
pub proof fn the_end_of_a_session_is_not_lost(
    worker: CommandWorker,
    event: DeliveryEvent,
    now: u64,
)
    requires
        worker.deadlines_fit(),
        now + worker.lifetime <= u64::MAX,
        worker.pending() matches Some(command) && command.spec_is_terminal(),
    ensures
        worker.spec_step(event, now).pending() == worker.pending() || event is Command || event
            is Expired || event is Closed || event == DeliveryEvent::Answered(true) || (
        worker.state matches Delivery::Connecting { deadline: Some(at), .. } && at <= now) || (
        worker.state matches Delivery::Sending { deadline: Some(at), .. } && at <= now),
{
}

/// Once stopped, the delivery stays stopped.
pub proof fn a_stopped_delivery_stays_stopped(worker: CommandWorker, event: DeliveryEvent, now: u64)
    requires
        worker.state is Stopped,
    ensures
        worker.spec_step(event, now) == worker,
{
}

/// Whether a helper is still the one its owner wants.
#[derive(Clone, Copy, Debug, PartialEq, Eq, Structural)]
pub enum Standing {
    /// Still serving the right owner.
    Current,
    /// The owner speaks another protocol.
    Incompatible { ours: u64, owner: u64 },
    /// The owner is another run than the one served so far.
    NewRun { sworn: u64, owner: u64 },
}

/// The agent run that this overlay serves: the one that started it, or the
/// first one that answers.
#[derive(Clone, Copy, Debug, PartialEq, Eq, Structural)]
pub struct Allegiance {
    /// Protocol this overlay speaks.
    pub ours: u64,
    /// Run that is served, once one is known.
    pub sworn: Option<u64>,
}

/// What an agent that answered means for the overlay.
pub open spec fn spec_observe(a: Allegiance, compat: u64, run: u64) -> Standing {
    if compat != a.ours {
        Standing::Incompatible { ours: a.ours, owner: compat }
    } else {
        match a.sworn {
            Some(sworn) if sworn != run => Standing::NewRun { sworn, owner: run },
            _ => Standing::Current,
        }
    }
}

impl Allegiance {
    /// Serve the run that started this process, or the first that answers.
    pub fn new(ours: u64, spawned_by: Option<u64>) -> (r: Self)
        ensures
            r == (Allegiance { ours, sworn: spawned_by }),
    {
        Allegiance { ours, sworn: spawned_by }
    }

    /// Judge the agent that just answered.
    pub fn observe(&mut self, compat: u64, run: u64) -> (r: Standing)
        ensures
            r == spec_observe(*old(self), compat, run),
            final(self).ours == old(self).ours,
            final(self).sworn == (if compat == old(self).ours && old(self).sworn is None {
                Some(run)
            } else {
                old(self).sworn
            }),
    {
        if compat != self.ours {
            return Standing::Incompatible { ours: self.ours, owner: compat };
        }
        match self.sworn {
            Some(sworn) => if sworn != run {
                Standing::NewRun { sworn, owner: run }
            } else {
                Standing::Current
            },
            None => {
                self.sworn = Some(run);
                Standing::Current
            },
        }
    }
}

/// An overlay that served a run never again counts as current for another.
pub proof fn a_restart_of_the_agent_is_noticed(a: Allegiance, first: u64, second: u64)
    requires
        spec_observe(a, a.ours, first) is Current,
        first != second,
    ensures
        !(spec_observe(
            Allegiance { ours: a.ours, sworn: if a.sworn is None { Some(first) } else { a.sworn } },
            a.ours,
            second,
        ) is Current),
{
}

/// The value of a decimal digit.
pub open spec fn digit(c: char) -> Option<int> {
    if '0' <= c && c <= '9' {
        Some(c as int - '0' as int)
    } else {
        None
    }
}

/// The number that digits spell, most significant first.
pub open spec fn spelled(digits: Seq<char>) -> Option<int>
    decreases digits.len(),
{
    if digits.len() == 0 {
        Some(0)
    } else {
        match (spelled(digits.drop_last()), digit(digits.last())) {
            (Some(high), Some(low)) => Some(high * 10 + low),
            _ => None,
        }
    }
}

/// The run token that `text` spells: decimal digits after an optional plus
/// sign, within 64 bits.
pub open spec fn spec_run_token(text: Seq<char>) -> Option<u64> {
    let digits = if text.len() > 0 && text[0] == '+' {
        text.drop_first()
    } else {
        text
    };
    match spelled(digits) {
        Some(n) if digits.len() > 0 && n <= u64::MAX => Some(n as u64),
        _ => None,
    }
}

proof fn lemma_spelled_prefix(digits: Seq<char>, n: int)
    requires
        0 <= n <= digits.len(),
    ensures
        spelled(digits) is Some ==> spelled(digits.take(n)) is Some && spelled(digits.take(n))->0
            <= spelled(digits)->0 && spelled(digits.take(n))->0 >= 0,
    decreases digits.len() - n,
{
    if n == digits.len() {
        assert(digits.take(n) =~= digits);
        if digits.len() > 0 {
            lemma_spelled_nonnegative(digits);
        }
    } else {
        lemma_spelled_prefix(digits, n + 1);
        assert(digits.take(n + 1).drop_last() =~= digits.take(n));
        lemma_spelled_nonnegative(digits.take(n));
    }
}

proof fn lemma_spelled_nonnegative(digits: Seq<char>)
    ensures
        spelled(digits) matches Some(n) ==> n >= 0,
    decreases digits.len(),
{
    if digits.len() > 0 {
        lemma_spelled_nonnegative(digits.drop_last());
    }
}

/// Read the run token that the agent passes to the helper it starts.
pub fn parse_run_token(text: &str) -> (r: Option<u64>)
    ensures
        r == spec_run_token(text@),
{
    let chars = crate::text::chars_of(text);
    let mut i: usize = 0;
    if chars.len() > 0 && chars[0] == '+' {
        i = 1;
    }
    if i >= chars.len() {
        return None;
    }
    let start: usize = i;
    let ghost digits = if text@.len() > 0 && text@[0] == '+' {
        text@.drop_first()
    } else {
        text@
    };
    let mut value: u64 = 0;
    proof {
        assert(digits =~= chars@.skip(start as int));
        assert(digits.take(0).len() == 0);
    }
    while i < chars.len()
        invariant
            start <= i <= chars@.len(),
            chars@ == text@,
            digits == chars@.skip(start as int),
            digits.len() > 0,
            spec_run_token(text@) == (match spelled(digits) {
                Some(n) if n <= u64::MAX => Some(n as u64),
                _ => None,
            }),
            spelled(digits.take(i - start)) == Some(value as int),
        decreases chars@.len() - i,
    {
        let c = chars[i];
        proof {
            assert(digits.take(i - start + 1).drop_last() =~= digits.take(i - start));
            assert(digits.take(i - start + 1).last() == c);
            lemma_spelled_prefix(digits, i - start + 1);
        }
        if c < '0' || c > '9' {
            return None;
        }
        let low: u64 = (c as u32 - '0' as u32) as u64;
        if value > (u64::MAX - low) / 10 {
            return None;
        }
        value = value * 10 + low;
        i = i + 1;
    }
    proof {
        assert(digits.take(i - start) =~= digits);
    }
    Some(value)
}

/// Of two commands the newer one stays, unless it is a hover of a session that the
/// older one ends.
pub proof fn the_newer_command_stays(current: OverlayCommand, next: OverlayCommand)
    ensures
        spec_coalesce(current, next) == current || spec_coalesce(current, next) == next,
        !(next is Hover) ==> spec_coalesce(current, next) == next,
        current is Hover ==> spec_coalesce(current, next) == next,
        (next matches OverlayCommand::Hover { session_id, .. } && (current matches
            OverlayCommand::Activate { session_id: ended, .. } && ended == session_id))
            ==> spec_coalesce(current, next) == current,
        (next matches OverlayCommand::Hover { session_id, .. } && (current matches
            OverlayCommand::Cancel { session_id: ended } && ended == session_id)) ==> spec_coalesce(
            current,
            next,
        ) == current,
        (next matches OverlayCommand::Hover { session_id, .. } && (current matches
            OverlayCommand::Activate { session_id: ended, .. } && ended != session_id))
            ==> spec_coalesce(current, next) == next,
        (next matches OverlayCommand::Hover { session_id, .. } && (current matches
            OverlayCommand::Cancel { session_id: ended } && ended != session_id)) ==> spec_coalesce(
            current,
            next,
        ) == next,
{
}

/// A command that arrives while nothing is pending is tried at once: sent over the
/// connection that is held, or else once there is one. One that ends its session is
/// worth retrying for as long as a ring is displayed, and a hover not at all.
pub proof fn a_command_is_tried_at_once(worker: CommandWorker, command: OverlayCommand, now: u64)
    requires
        worker.state is Idle,
        now + worker.lifetime <= u64::MAX,
    ensures
        ({
            let after = worker.spec_step(DeliveryEvent::Command(command), now);
            let deadline = if command is Hover {
                None::<u64>
            } else {
                Some((now + worker.lifetime) as u64)
            };
            &&& worker.connected ==> after.state == (Delivery::Sending { command, deadline })
            &&& !worker.connected ==> after.state == (Delivery::Connecting { command, deadline })
            &&& after.connected == worker.connected
            &&& after.lifetime == worker.lifetime
        }),
{
}

/// Once connected, the pending command is sent; once answered, it is done with, and
/// the connection stays for the next.
pub proof fn a_delivered_command_is_done_with(
    worker: CommandWorker,
    command: OverlayCommand,
    deadline: Option<u64>,
    now: u64,
)
    ensures
        worker.state == (Delivery::Connecting { command, deadline }) ==> {
            let after = worker.spec_step(DeliveryEvent::Connected(true), now);
            after.connected && after.state == (Delivery::Sending { command, deadline })
        },
        worker.state == (Delivery::Sending { command, deadline }) ==> {
            let after = worker.spec_step(DeliveryEvent::Answered(true), now);
            after.state is Idle && after.connected == worker.connected
        },
{
}

/// A failed attempt drops the connection. The command is tried again after a pause
/// exactly while its deadline is ahead, with the same deadline.
pub proof fn a_failed_command_is_retried_until_its_deadline(
    worker: CommandWorker,
    command: OverlayCommand,
    deadline: Option<u64>,
    now: u64,
)
    requires
        worker.state == (Delivery::Connecting { command, deadline }) || worker.state == (
        Delivery::Sending { command, deadline }),
    ensures
        ({
            let event = if worker.state is Sending {
                DeliveryEvent::Answered(false)
            } else {
                DeliveryEvent::Connected(false)
            };
            let after = worker.spec_step(event, now);
            &&& !after.connected
            &&& deadline is Some && now < deadline->0 ==> after.state == (Delivery::Pausing {
                command,
                deadline,
            })
            &&& deadline is None || now >= deadline->0 ==> after.state is Idle
            &&& after.state is Pausing ==> after.spec_step(DeliveryEvent::PauseOver, now).state == (
            Delivery::Connecting { command, deadline })
            &&& worker.spec_step(DeliveryEvent::Expired, now).state is Idle
        }),
{
}

/// A command that arrives while another is pending is folded into it. What stays
/// pending is tried anew, with a deadline of its own, exactly if it is another; an
/// attempt under way for the same command goes on.
pub proof fn a_newer_command_is_folded_in(
    worker: CommandWorker,
    command: OverlayCommand,
    deadline: Option<u64>,
    next: OverlayCommand,
    now: u64,
)
    requires
        now + worker.lifetime <= u64::MAX,
        worker.state == (Delivery::Connecting { command, deadline }) || worker.state == (
        Delivery::Sending { command, deadline }) || worker.state == (Delivery::Pausing {
            command,
            deadline,
        }),
    ensures
        ({
            let after = worker.spec_step(DeliveryEvent::Command(next), now);
            let stays = spec_coalesce(command, next);
            &&& after.pending() == Some(stays)
            &&& stays == command && !(worker.state is Pausing) ==> after == worker
            &&& stays != command && stays is Hover ==> (after.state matches Delivery::Sending {
                deadline: None,
                ..
            }) || (after.state matches Delivery::Connecting { deadline: None, .. })
            &&& stays != command && !(stays is Hover) ==> {
                let fresh = Some((now + worker.lifetime) as u64);
                after.state == (Delivery::Sending { command: stays, deadline: fresh })
                    || after.state == (Delivery::Connecting { command: stays, deadline: fresh })
            }
            &&& worker.spec_step(DeliveryEvent::Closed, now).state is Stopped
        }),
{
}

/// An agent of another protocol is never served, nor one of another run than the one
/// that is served; the right one always is.
pub proof fn the_right_agent_is_served(a: Allegiance, compat: u64, run: u64)
    ensures
        spec_observe(a, compat, run) is Current <==> compat == a.ours && (a.sworn is None || a.sworn
            == Some(run)),
        compat != a.ours ==> spec_observe(a, compat, run) == (Standing::Incompatible {
            ours: a.ours,
            owner: compat,
        }),
        compat == a.ours && a.sworn is Some && a.sworn != Some(run) ==> spec_observe(a, compat, run)
            == (Standing::NewRun { sworn: a.sworn->0, owner: run }),
{
}

proof fn lemma_decimal_is_spelled(n: nat)
    ensures
        spelled(crate::text::decimal_of(n)) == Some(n as int),
        crate::text::decimal_of(n).len() > 0,
        crate::text::decimal_of(n)[0] != '+',
    decreases n,
{
    let text = crate::text::decimal_of(n);
    if n < 10 {
        assert(text.drop_last() =~= Seq::empty());
        reveal_with_fuel(spelled, 2);
    } else {
        lemma_decimal_is_spelled(n / 10);
        assert(text.drop_last() =~= crate::text::decimal_of(n / 10));
        assert(text[0] == crate::text::decimal_of(n / 10)[0]);
    }
}

/// A token reads back as the number that it was written from, with a plus sign
/// before it or without.
pub proof fn a_run_token_reads_back(n: u64)
    ensures
        spec_run_token(crate::text::decimal_of(n as nat)) == Some(n),
        spec_run_token(seq!['+'] + crate::text::decimal_of(n as nat)) == Some(n),
        spec_run_token(Seq::empty()) is None,
{
    let text = crate::text::decimal_of(n as nat);
    lemma_decimal_is_spelled(n as nat);
    assert((seq!['+'] + text).drop_first() =~= text);
}

/// A text with anything but digits behind its sign is no token.
pub proof fn a_token_is_all_digits(text: Seq<char>, i: int)
    requires
        0 <= i < text.len(),
        !('0' <= text[i] <= '9'),
        i > 0 || text[i] != '+',
    ensures
        spec_run_token(text) is None,
{
    let digits = if text[0] == '+' {
        text.drop_first()
    } else {
        text
    };
    let at = if text[0] == '+' {
        i - 1
    } else {
        i
    };
    assert(digits[at] == text[i]);
    assert(digits.take(at + 1).last() == text[i]);
    lemma_spelled_prefix(digits, at + 1);
}

} // verus!
