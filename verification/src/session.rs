//! Capture sessions: which controls are diverted, when a channel counts as
//! dead, and what is handed back at the end.

use vstd::prelude::*;

use crate::capture::{
    handle_reprog, swipe_query, thumbwheel_input, AccumModel, CaptureAccum, CaptureOutput,
    RawControlEvent, SwipeQuery, SwipeReply, ThumbwheelEvent,
};
use crate::controls::{
    can_divert, can_report_motion, is_divertable, lists, spec_undivert_change, supports_raw_xy,
    undivert_change, ButtonId, CaptureStop, CapturedInput, CidReporting, CidReportingChange, ControlInfo,
    GestureError, GestureSources, WheelResolution,
};

verus! {

/// Which of a device's controls a capture session diverts.
#[derive(Debug)]
pub struct CaptureSpec {
    /// Divert the thumb wheel.
    pub capture_thumbwheel: bool,
    /// Gesture sources to divert with raw motion.
    pub divert_gesture_sources: Vec<u16>,
    /// Controls to divert as plain buttons.
    pub divert_buttons: Vec<(u16, ButtonId)>,
}

/// The selection that a caller means who only knows of the thumb wheel and of
/// the dedicated gesture button.
pub fn plain_capture_spec(
    ids: &GestureSources,
    capture_thumbwheel: bool,
    divert_gesture_button: bool,
) -> (r: CaptureSpec)
    ensures
        r.capture_thumbwheel == capture_thumbwheel,
        r.divert_gesture_sources@ == (if divert_gesture_button {
            seq![ids.gesture_button]
        } else {
            Seq::empty()
        }),
        r.divert_buttons@ == Seq::<(u16, ButtonId)>::empty(),
{
    let mut sources: Vec<u16> = Vec::new();
    if divert_gesture_button {
        sources.push(ids.gesture_button);
    }
    CaptureSpec {
        capture_thumbwheel,
        divert_gesture_sources: sources,
        divert_buttons: Vec::new(),
    }
}

/// What a diverted control is for.
#[derive(Clone, Copy, Debug, PartialEq, Eq, Structural)]
pub enum ArmKind {
    /// A gesture source, with raw motion.
    Gesture,
    /// A DPI control.
    Dpi,
    /// A plain button.
    Button(ButtonId),
}

/// One control to divert.
#[derive(Clone, Copy, Debug, PartialEq, Eq, Structural)]
pub struct Divert {
    /// Control identifier.
    pub cid: u16,
    /// What the control is for.
    pub kind: ArmKind,
}

impl Divert {
    /// Whether the control is diverted with raw motion.
    pub fn raw_xy(&self) -> (r: bool)
        ensures
            r == (self.kind is Gesture),
    {
        match self.kind {
            ArmKind::Gesture => true,
            _ => false,
        }
    }
}

/// The gesture sources that the device can report motion for.
pub open spec fn planned_gestures(wanted: Seq<u16>, controls: Seq<ControlInfo>) -> Seq<u16>
    decreases wanted.len(),
{
    if wanted.len() == 0 {
        Seq::empty()
    } else {
        let before = planned_gestures(wanted.drop_last(), controls);
        if can_report_motion(controls, wanted.last()) {
            before.push(wanted.last())
        } else {
            before
        }
    }
}

/// The DPI controls that the device can divert.
pub open spec fn planned_dpi(wanted: Seq<u16>, controls: Seq<ControlInfo>) -> Seq<u16>
    decreases wanted.len(),
{
    if wanted.len() == 0 {
        Seq::empty()
    } else {
        let before = planned_dpi(wanted.drop_last(), controls);
        if can_divert(controls, wanted.last()) {
            before.push(wanted.last())
        } else {
            before
        }
    }
}

/// The plain buttons that the device can divert. A control that is armed as a
/// gesture source is left out: a plain write would strip its raw motion.
pub open spec fn planned_buttons(
    wanted: Seq<(u16, ButtonId)>,
    gestures: Seq<u16>,
    controls: Seq<ControlInfo>,
) -> Seq<(u16, ButtonId)>
    decreases wanted.len(),
{
    if wanted.len() == 0 {
        Seq::empty()
    } else {
        let before = planned_buttons(wanted.drop_last(), gestures, controls);
        let cid = wanted.last().0;
        if !gestures.contains(cid) && can_divert(controls, cid) {
            before.push(wanted.last())
        } else {
            before
        }
    }
}

/// The diversions of a session, in the order in which they are written.
pub open spec fn spec_arm_plan(
    gestures: Seq<u16>,
    dpi: Seq<u16>,
    buttons: Seq<(u16, ButtonId)>,
) -> Seq<Divert> {
    gestures.map_values(|cid: u16| Divert { cid, kind: ArmKind::Gesture }) + dpi.map_values(
        |cid: u16| Divert { cid, kind: ArmKind::Dpi },
    ) + buttons.map_values(
        |b: (u16, ButtonId)| Divert { cid: b.0, kind: ArmKind::Button(b.1) },
    )
}

/// The diversions that `spec` asks for and the device can do.
pub fn arm_plan(spec: &CaptureSpec, controls: &Vec<ControlInfo>, dpi_cids: &Vec<u16>) -> (r: Vec<
    Divert,
>)
    ensures
        ({
            let gestures = planned_gestures(spec.divert_gesture_sources@, controls@);
            r@ == spec_arm_plan(
                gestures,
                planned_dpi(dpi_cids@, controls@),
                planned_buttons(spec.divert_buttons@, gestures, controls@),
            )
        }),
{
    let mut plan: Vec<Divert> = Vec::new();
    let mut gestures: Vec<u16> = Vec::new();
    let wanted = &spec.divert_gesture_sources;
    let mut i: usize = 0;
    while i < wanted.len()
        invariant
            i <= wanted@.len(),
            gestures@ == planned_gestures(wanted@.take(i as int), controls@),
            plan@ == gestures@.map_values(|cid: u16| Divert { cid, kind: ArmKind::Gesture }),
        decreases wanted@.len() - i,
    {
        proof {
            assert(wanted@.take(i as int + 1).drop_last() =~= wanted@.take(i as int));
        }
        let cid = wanted[i];
        if supports_raw_xy(controls, cid) {
            gestures.push(cid);
            plan.push(Divert { cid, kind: ArmKind::Gesture });
        }
        i = i + 1;
        proof {
            assert(plan@ =~= gestures@.map_values(
                |cid: u16| Divert { cid, kind: ArmKind::Gesture },
            ));
        }
    }
    proof {
        assert(wanted@.take(wanted@.len() as int) =~= wanted@);
    }
    let ghost first = plan@;
    let ghost mut dpi: Seq<u16> = Seq::empty();
    let mut k: usize = 0;
    while k < dpi_cids.len()
        invariant
            k <= dpi_cids@.len(),
            dpi == planned_dpi(dpi_cids@.take(k as int), controls@),
            plan@ =~= first + dpi.map_values(|cid: u16| Divert { cid, kind: ArmKind::Dpi }),
        decreases dpi_cids@.len() - k,
    {
        proof {
            assert(dpi_cids@.take(k as int + 1).drop_last() =~= dpi_cids@.take(k as int));
        }
        let cid = dpi_cids[k];
        if is_divertable(controls, cid) {
            plan.push(Divert { cid, kind: ArmKind::Dpi });
            proof {
                dpi = dpi.push(cid);
            }
        }
        k = k + 1;
    }
    proof {
        assert(dpi_cids@.take(dpi_cids@.len() as int) =~= dpi_cids@);
    }
    let ghost second = plan@;
    let ghost mut plain: Seq<(u16, ButtonId)> = Seq::empty();
    let buttons = &spec.divert_buttons;
    let mut n: usize = 0;
    while n < buttons.len()
        invariant
            n <= buttons@.len(),
            plain == planned_buttons(buttons@.take(n as int), gestures@, controls@),
            plan@ =~= second + plain.map_values(
                |b: (u16, ButtonId)| Divert { cid: b.0, kind: ArmKind::Button(b.1) },
            ),
        decreases buttons@.len() - n,
    {
        proof {
            assert(buttons@.take(n as int + 1).drop_last() =~= buttons@.take(n as int));
        }
        let (cid, button) = buttons[n];
        if !lists(&gestures, cid) && is_divertable(controls, cid) {
            plan.push(Divert { cid, kind: ArmKind::Button(button) });
            proof {
                plain = plain.push((cid, button));
            }
        }
        n = n + 1;
    }
    proof {
        assert(buttons@.take(buttons@.len() as int) =~= buttons@);
    }
    plan
}

/// The controls that a session has diverted so far, kept so that they can be
/// handed back.
#[derive(Debug)]
pub struct ArmedControls {
    gesture_cids: Vec<u16>,
    dpi_cids: Vec<u16>,
    button_cids: Vec<(u16, ButtonId)>,
    reporting: Vec<(u16, CidReporting)>,
    thumb: Option<WheelResolution>,
}

/// What a session has diverted.
pub ghost struct ArmedModel {
    /// Gesture sources, diverted with raw motion.
    pub gesture_cids: Seq<u16>,
    /// DPI controls.
    pub dpi_cids: Seq<u16>,
    /// Plain buttons.
    pub button_cids: Seq<(u16, ButtonId)>,
    /// How each diverted control reported before.
    pub reporting: Seq<(u16, CidReporting)>,
    /// Resolution of the thumb wheel, when it is diverted.
    pub thumb: Option<WheelResolution>,
}

impl ArmedModel {
    /// Nothing is diverted.
    pub open spec fn none() -> ArmedModel {
        ArmedModel {
            gesture_cids: Seq::empty(),
            dpi_cids: Seq::empty(),
            button_cids: Seq::empty(),
            reporting: Seq::empty(),
            thumb: None,
        }
    }

    /// What is diverted once `divert` landed on a control that reported as
    /// `original`.
    pub open spec fn recorded(self, divert: Divert, original: CidReporting) -> ArmedModel {
        ArmedModel {
            gesture_cids: if divert.kind is Gesture {
                self.gesture_cids.push(divert.cid)
            } else {
                self.gesture_cids
            },
            dpi_cids: if divert.kind is Dpi {
                self.dpi_cids.push(divert.cid)
            } else {
                self.dpi_cids
            },
            button_cids: match divert.kind {
                ArmKind::Button(button) => self.button_cids.push((divert.cid, button)),
                _ => self.button_cids,
            },
            reporting: self.reporting.push((divert.cid, original)),
            thumb: self.thumb,
        }
    }

    /// Whether there is anything to capture.
    pub open spec fn is_idle(self) -> bool {
        self.gesture_cids.len() == 0 && self.dpi_cids.len() == 0 && self.button_cids.len() == 0
            && self.thumb is None
    }

    /// The writes that hand everything back.
    pub open spec fn restoring_writes(self) -> Seq<(u16, CidReportingChange)> {
        self.reporting.map_values(|r: (u16, CidReporting)| (r.0, spec_undivert_change(r.1)))
    }
}

impl View for ArmedControls {
    type V = ArmedModel;

    closed spec fn view(&self) -> ArmedModel {
        ArmedModel {
            gesture_cids: self.gesture_cids@,
            dpi_cids: self.dpi_cids@,
            button_cids: self.button_cids@,
            reporting: self.reporting@,
            thumb: self.thumb,
        }
    }
}

impl ArmedControls {
    /// Nothing is diverted yet.
    pub fn new() -> (r: Self)
        ensures
            r@ == ArmedModel::none(),
    {
        ArmedControls {
            gesture_cids: Vec::new(),
            dpi_cids: Vec::new(),
            button_cids: Vec::new(),
            reporting: Vec::new(),
            thumb: None,
        }
    }

    /// A diversion landed.
    pub fn record(&mut self, divert: Divert, original: CidReporting)
        ensures
            final(self)@ == old(self)@.recorded(divert, original),
    {
        match divert.kind {
            ArmKind::Gesture => self.gesture_cids.push(divert.cid),
            ArmKind::Dpi => self.dpi_cids.push(divert.cid),
            ArmKind::Button(button) => self.button_cids.push((divert.cid, button)),
        }
        self.reporting.push((divert.cid, original));
    }

    /// The thumb wheel was diverted.
    pub fn record_thumbwheel(&mut self, resolution: WheelResolution)
        ensures
            final(self)@ == (ArmedModel { thumb: Some(resolution), ..old(self)@ }),
    {
        self.thumb = Some(resolution);
    }

    /// Whether there is anything to capture.
    pub fn is_idle(&self) -> (r: bool)
        ensures
            r == self@.is_idle(),
    {
        self.gesture_cids.len() == 0 && self.dpi_cids.len() == 0 && self.button_cids.len() == 0
            && self.thumb.is_none()
    }

    /// The writes that hand every control back, and whether the thumb wheel
    /// has to be handed back too.
    pub fn disarm(&self) -> (r: (Vec<(u16, CidReportingChange)>, bool))
        ensures
            r.0@ == self@.restoring_writes(),
            r.1 == (self@.thumb is Some),
    {
        let mut writes: Vec<(u16, CidReportingChange)> = Vec::new();
        let mut i: usize = 0;
        while i < self.reporting.len()
            invariant
                i <= self.reporting@.len(),
                writes@.len() == i,
                forall|j: int|
                    0 <= j < i ==> writes@[j] == (
                        self.reporting@[j].0,
                        spec_undivert_change(self.reporting@[j].1),
                    ),
            decreases self.reporting@.len() - i,
        {
            let (cid, original) = self.reporting[i];
            writes.push((cid, undivert_change(original)));
            i = i + 1;
        }
        proof {
            assert(writes@ =~= self@.restoring_writes());
        }
        (writes, self.thumb.is_some())
    }
}

/// What is diverted once the first `originals.len()` diversions of `plan`
/// landed.
pub open spec fn armed_after(plan: Seq<Divert>, originals: Seq<CidReporting>) -> ArmedModel
    decreases originals.len(),
{
    if originals.len() == 0 {
        ArmedModel::none()
    } else {
        armed_after(plan, originals.drop_last()).recorded(
            plan[originals.len() - 1],
            originals.last(),
        )
    }
}

/// What made arming fail.
#[derive(Clone, Copy, Debug, PartialEq, Eq, Structural)]
pub enum ArmFailure {
    /// Nothing was written: a control or a feature could not be read.
    Unread,
    /// The diversion of this control, whose reporting had been read.
    Control { cid: u16, original: CidReporting },
    /// The diversion of the thumb wheel.
    Thumbwheel,
}

/// The writes that undo an arming which failed: first the control that may
/// have been diverted nonetheless, then those that were.
pub open spec fn abandoning_writes(
    armed: ArmedModel,
    failure: ArmFailure,
) -> Seq<(u16, CidReportingChange)> {
    (match failure {
        ArmFailure::Control { cid, original } => seq![(cid, spec_undivert_change(original))],
        _ => Seq::empty(),
    }) + armed.restoring_writes()
}

impl ArmedControls {
    /// The writes that undo an arming which failed, and whether the thumb wheel
    /// is put back too.
    pub fn abandon(&self, failure: ArmFailure) -> (r: (Vec<(u16, CidReportingChange)>, bool))
        ensures
            r.0@ == abandoning_writes(self@, failure),
            r.1 == (failure is Thumbwheel || self@.thumb is Some),
    {
        let (armed, wheel) = self.disarm();
        match failure {
            ArmFailure::Unread => {
                proof {
                    assert(armed@ =~= abandoning_writes(self@, failure));
                }
                (armed, wheel)
            },
            ArmFailure::Thumbwheel => {
                proof {
                    assert(armed@ =~= abandoning_writes(self@, failure));
                }
                (armed, true)
            },
            ArmFailure::Control { cid, original } => {
                let mut writes: Vec<(u16, CidReportingChange)> = vec![
                    (cid, undivert_change(original)),
                ];
                let mut rest = armed;
                writes.append(&mut rest);
                proof {
                    assert(writes@ =~= abandoning_writes(self@, failure));
                }
                (writes, wheel)
            },
        }
    }
}

/// An arming that fails leaves no control diverted: the one that it failed at
/// and every one before it are put back.
pub proof fn a_failed_arming_leaves_nothing_diverted(
    plan: Seq<Divert>,
    originals: Seq<CidReporting>,
    failed_at: CidReporting,
)
    requires
        originals.len() < plan.len(),
    ensures
        ({
            let failure = ArmFailure::Control {
                cid: plan[originals.len() as int].cid,
                original: failed_at,
            };
            let writes = abandoning_writes(armed_after(plan, originals), failure);
            &&& writes.len() == originals.len() + 1
            &&& writes[0] == (
                plan[originals.len() as int].cid,
                spec_undivert_change(failed_at),
            )
            &&& forall|i: int|
                0 <= i < originals.len() ==> (#[trigger] writes[i + 1]) == (
                    plan[i].cid,
                    spec_undivert_change(originals[i]),
                )
        }),
{
    disarming_hands_back_exactly_what_was_diverted(plan, originals);
    let restoring = armed_after(plan, originals).restoring_writes();
    let failure = ArmFailure::Control {
        cid: plan[originals.len() as int].cid,
        original: failed_at,
    };
    let writes = abandoning_writes(armed_after(plan, originals), failure);
    assert forall|i: int| 0 <= i < originals.len() implies (#[trigger] writes[i + 1]) == (
        plan[i].cid,
        spec_undivert_change(originals[i]),
    ) by {
        assert(writes[i + 1] == restoring[i]);
    }
}

/// Arming that stops after any number of diversions hands back exactly the
/// controls that were diverted, in order, and no other.
pub proof fn disarming_hands_back_exactly_what_was_diverted(
    plan: Seq<Divert>,
    originals: Seq<CidReporting>,
)
    requires
        originals.len() <= plan.len(),
    ensures
        ({
            let writes = armed_after(plan, originals).restoring_writes();
            &&& writes.len() == originals.len()
            &&& forall|i: int|
                0 <= i < originals.len() ==> (#[trigger] writes[i]) == (
                    plan[i].cid,
                    spec_undivert_change(originals[i]),
                )
        }),
    decreases originals.len(),
{
    if originals.len() > 0 {
        let before = originals.drop_last();
        disarming_hands_back_exactly_what_was_diverted(plan, before);
        let earlier = armed_after(plan, before).restoring_writes();
        let writes = armed_after(plan, originals).restoring_writes();
        assert forall|i: int| 0 <= i < originals.len() implies (#[trigger] writes[i]) == (
            plan[i].cid,
            spec_undivert_change(originals[i]),
        ) by {
            if i < before.len() {
                assert(writes[i] == earlier[i]);
                assert(before[i] == originals[i]);
            }
        }
    }
}

/// No control is diverted both as a gesture source and as a plain button.
pub proof fn a_gesture_source_is_never_stripped_of_motion(
    wanted: Seq<(u16, ButtonId)>,
    gestures: Seq<u16>,
    controls: Seq<ControlInfo>,
)
    ensures
        forall|i: int|
            0 <= i < planned_buttons(wanted, gestures, controls).len() ==> !gestures.contains(
                (#[trigger] planned_buttons(wanted, gestures, controls)[i]).0,
            ),
    decreases wanted.len(),
{
    if wanted.len() > 0 {
        a_gesture_source_is_never_stripped_of_motion(wanted.drop_last(), gestures, controls);
        let before = planned_buttons(wanted.drop_last(), gestures, controls);
        let all = planned_buttons(wanted, gestures, controls);
        assert forall|i: int| 0 <= i < all.len() implies !gestures.contains(
            (#[trigger] all[i]).0,
        ) by {
            if i < before.len() {
                assert(all[i] == before[i]);
            }
        }
    }
}

/// Silent pings in a row after which a channel counts as dead.
pub const LIVENESS_PING_STRIKES: u8 = 2;

/// Seconds between two pings of a capture channel.
pub const LIVENESS_PING_SECONDS: u64 = 20;

/// What a ping told of the channel.
#[derive(Clone, Copy, Debug, PartialEq, Eq, Structural)]
pub enum PingOutcome {
    /// Nothing came back.
    Silent,
    /// Something came back, be it an error: the channel delivers.
    Answered,
}

/// What woke a capture session.
#[derive(Clone, Copy, Debug, PartialEq, Eq, Structural)]
pub enum SessionEvent {
    /// The session was asked to stop; whoever could ask and is gone asked
    /// gracefully.
    Shutdown(CaptureStop),
    /// A ping ended.
    Ping(PingOutcome),
}

/// How a capture session goes on.
#[derive(Clone, Copy, Debug, PartialEq, Eq, Structural)]
pub enum SessionStep {
    /// Wait for the next event.
    Wait,
    /// Stop; nothing is put back on a channel that no longer delivers, or that
    /// was revoked (`channel_dead`).
    Stop { channel_dead: bool },
}

/// A running capture session.
pub struct CaptureSession {
    silent_pings: u8,
    armed: ArmedControls,
    accum: CaptureAccum,
    ids: GestureSources,
}

/// What a running session is.
pub ghost struct SessionModel {
    /// Pings in a row that stayed silent.
    pub silent_pings: u8,
    /// What is diverted.
    pub armed: ArmedModel,
    /// What is held.
    pub accum: AccumModel,
    /// The gesture sources of the device.
    pub ids: GestureSources,
}

impl SessionModel {
    /// The controls that are put back at the end, and how.
    pub open spec fn final_writes(self, channel_dead: bool) -> Seq<(u16, CidReportingChange)> {
        if channel_dead {
            Seq::empty()
        } else {
            self.armed.restoring_writes()
        }
    }

    /// How the session goes on after an event.
    pub open spec fn step(self, event: SessionEvent) -> SessionStep {
        match event {
            SessionEvent::Shutdown(stop) => SessionStep::Stop { channel_dead: stop is Revoked },
            SessionEvent::Ping(outcome) => if pings_after(self.silent_pings, outcome)
                >= LIVENESS_PING_STRIKES {
                SessionStep::Stop { channel_dead: true }
            } else {
                SessionStep::Wait
            },
        }
    }
}

impl View for CaptureSession {
    type V = SessionModel;

    closed spec fn view(&self) -> SessionModel {
        SessionModel {
            silent_pings: self.silent_pings,
            armed: self.armed@,
            accum: self.accum@,
            ids: self.ids,
        }
    }
}

/// The silent pings in a row after one more ping.
pub open spec fn pings_after(silent: u8, outcome: PingOutcome) -> int {
    match outcome {
        PingOutcome::Answered => 0,
        PingOutcome::Silent => if silent == u8::MAX {
            silent as int
        } else {
            silent + 1
        },
    }
}

/// The channel that a session captures on, or why there is none.
pub fn channel_of<C>(opened: Result<Option<C>, String>) -> (r: Result<C, GestureError>)
    ensures
        match opened {
            Ok(Some(channel)) => r == Ok::<C, GestureError>(channel),
            Ok(None) => r matches Err(GestureError::DeviceNotFound),
            Err(error) => r matches Err(GestureError::Hid(context)) && context == error,
        },
{
    match opened {
        Ok(Some(channel)) => Ok(channel),
        Ok(None) => Err(GestureError::DeviceNotFound),
        Err(error) => Err(GestureError::Hid(error)),
    }
}

impl CaptureSession {
    /// A session starts once its controls are armed.
    pub fn start(armed: ArmedControls, ids: GestureSources) -> (r: Self)
        ensures
            r@ == (SessionModel { silent_pings: 0, armed: armed@, accum: AccumModel::at_rest(), ids }),
    {
        CaptureSession { silent_pings: 0, armed, accum: CaptureAccum::new(), ids }
    }

    /// Whether a message goes on to the listener's decoders. One that answers
    /// a request of ours does not.
    pub fn listens_to(matched: bool) -> (r: bool)
        ensures
            r == !matched,
    {
        !matched
    }

    /// What the swipe detector has to be asked before `event` is taken.
    pub fn query(&self, event: &RawControlEvent) -> (r: SwipeQuery)
        ensures
            r == self@.accum.query(*event),
    {
        swipe_query(&self.accum, event)
    }

    /// Take a report of the diverted controls.
    pub fn on_controls(&mut self, event: RawControlEvent, reply: SwipeReply) -> (r: CaptureOutput)
        ensures
            final(self)@.silent_pings == old(self)@.silent_pings,
            final(self)@.armed == old(self)@.armed,
            final(self)@.ids == old(self)@.ids,
            event matches RawControlEvent::DivertedButtons(cids) ==> {
                let armed = old(self)@.armed;
                &&& final(self)@.accum == old(self)@.accum.after_buttons(
                    old(self)@.ids,
                    armed.gesture_cids,
                    armed.dpi_cids,
                    armed.button_cids,
                    cids@,
                )
                &&& r.inputs@ == old(self)@.accum.button_inputs(
                    old(self)@.ids,
                    armed.gesture_cids,
                    armed.dpi_cids,
                    armed.button_cids,
                    cids@,
                    reply.click,
                )
                &&& r.begin_swipe == old(self)@.accum.begins_hold(
                    old(self)@.ids,
                    armed.gesture_cids,
                    cids@,
                )
            },
            event is RawXy ==> {
                &&& final(self)@.accum == old(self)@.accum.after_motion()
                &&& r.inputs@ == old(self)@.accum.motion_inputs(reply.direction)
                &&& !r.begin_swipe
            },
    {
        handle_reprog(
            &mut self.accum,
            event,
            &self.ids,
            &self.armed.gesture_cids,
            &self.armed.dpi_cids,
            &self.armed.button_cids,
            reply,
        )
    }

    /// Take a report of the thumb wheel; it is ignored unless the session
    /// diverted the wheel.
    pub fn on_thumbwheel(&self, event: ThumbwheelEvent) -> (r: Option<CapturedInput>)
        ensures
            match self@.armed.thumb {
                None => r is None,
                Some(resolution) => r == (if event.rotation != 0 {
                    Some(CapturedInput::Scroll { increments: event.rotation, resolution })
                } else if !event.rolling && event.single_tap {
                    Some(CapturedInput::ButtonPulse(ButtonId::Thumbwheel))
                } else {
                    None::<CapturedInput>
                }),
            },
    {
        match self.armed.thumb {
            Some(resolution) => thumbwheel_input(event, resolution),
            None => None,
        }
    }

    /// Take a shutdown or the outcome of a ping. Silence of
    /// [`LIVENESS_PING_STRIKES`] pings in a row means that the channel is
    /// dead; any reply starts the count over.
    pub fn on_event(&mut self, event: SessionEvent) -> (r: SessionStep)
        ensures
            r == old(self)@.step(event),
            final(self)@ == (SessionModel {
                silent_pings: match event {
                    SessionEvent::Shutdown(_) => old(self)@.silent_pings,
                    SessionEvent::Ping(outcome) => pings_after(
                        old(self)@.silent_pings,
                        outcome,
                    ) as u8,
                },
                ..old(self)@
            }),
    {
        match event {
            SessionEvent::Shutdown(CaptureStop::Graceful) => SessionStep::Stop {
                channel_dead: false,
            },
            SessionEvent::Shutdown(CaptureStop::Revoked) => SessionStep::Stop {
                channel_dead: true,
            },
            SessionEvent::Ping(PingOutcome::Answered) => {
                self.silent_pings = 0;
                SessionStep::Wait
            },
            SessionEvent::Ping(PingOutcome::Silent) => {
                if self.silent_pings < u8::MAX {
                    self.silent_pings = self.silent_pings + 1;
                }
                if self.silent_pings >= LIVENESS_PING_STRIKES {
                    SessionStep::Stop { channel_dead: true }
                } else {
                    SessionStep::Wait
                }
            },
        }
    }

    /// The writes that end the session, and whether the thumb wheel is put
    /// back. None are sent on a dead channel: each would only wait for an
    /// answer that cannot come.
    pub fn finish(&self, channel_dead: bool) -> (r: (Vec<(u16, CidReportingChange)>, bool))
        ensures
            r.0@ == self@.final_writes(channel_dead),
            r.1 == (!channel_dead && self@.armed.thumb is Some),
    {
        if channel_dead {
            (Vec::new(), false)
        } else {
            self.armed.disarm()
        }
    }
}

/// A session that is revoked ends without a write; one that is stopped
/// gracefully puts back every control that it diverted, in order.
pub proof fn a_revoked_session_writes_nothing(session: SessionModel)
    ensures
        session.step(SessionEvent::Shutdown(CaptureStop::Revoked)) matches SessionStep::Stop {
            channel_dead,
        } && session.final_writes(channel_dead) == Seq::<(u16, CidReportingChange)>::empty(),
        session.step(SessionEvent::Shutdown(CaptureStop::Graceful)) matches SessionStep::Stop {
            channel_dead,
        } && session.final_writes(channel_dead) == session.armed.restoring_writes(),
{
}

/// One lost ping never ends a session, and a reply between two lost pings
/// keeps it alive.
pub proof fn one_lost_ping_is_forgiven(silent: u8)
    ensures
        pings_after(0, PingOutcome::Silent) < LIVENESS_PING_STRIKES,
        pings_after(silent, PingOutcome::Answered) == 0,
        pings_after(
            pings_after(silent, PingOutcome::Answered) as u8,
            PingOutcome::Silent,
        ) < LIVENESS_PING_STRIKES,
{
}

/// The slot of the shared channel after the session on `ours` ended. Another
/// session may have published its channel since; that one stays.
pub fn release_slot(slot: Option<u64>, ours: u64) -> (r: Option<u64>)
    ensures
        r == (if slot == Some(ours) {
            None::<u64>
        } else {
            slot
        }),
{
    match slot {
        Some(published) => if published == ours {
            None
        } else {
            slot
        },
        None => None,
    }
}

/// The message for a control that could not be handed back, or `None` when it
/// was.
pub fn restore<E>(result: Result<(), E>, what: &str) -> (r: Option<String>)
    ensures
        result is Ok <==> r is None,
        r matches Some(text) ==> text@ == "failed to restore control mapping on shutdown: "@
            + what@,
{
    match result {
        Ok(()) => None,
        Err(_) => Some(
            crate::text::concat("failed to restore control mapping on shutdown: ", what),
        ),
    }
}

/// A gesture source is diverted exactly when it is wanted and the device lists it as
/// able to report motion; a DPI control exactly when it is one and can be diverted.
pub proof fn sources_are_planned_where_the_device_can(
    wanted: Seq<u16>,
    controls: Seq<ControlInfo>,
    cid: u16,
)
    ensures
        planned_gestures(wanted, controls).contains(cid) <==> wanted.contains(cid) && exists|i: int|
            0 <= i < controls.len() && (#[trigger] controls[i]).cid == cid && controls[i].raw_xy,
        planned_dpi(wanted, controls).contains(cid) <==> wanted.contains(cid) && exists|i: int|
            0 <= i < controls.len() && (#[trigger] controls[i]).cid == cid
                && controls[i].divertable,
    decreases wanted.len(),
{
    if wanted.len() == 0 {
        assert(!wanted.contains(cid));
    } else {
        let rest = wanted.drop_last();
        let last = wanted.last();
        sources_are_planned_where_the_device_can(rest, controls, cid);
        assert(wanted =~= rest.push(last));
        lemma_push_holds(rest, last, cid);
        lemma_push_holds(planned_gestures(rest, controls), last, cid);
        lemma_push_holds(planned_dpi(rest, controls), last, cid);
    }
}

proof fn lemma_push_holds<A>(s: Seq<A>, x: A, y: A)
    ensures
        s.push(x).contains(y) <==> s.contains(y) || y == x,
{
    if s.contains(y) {
        let i = choose|i: int| 0 <= i < s.len() && s[i] == y;
        assert(s.push(x)[i] == y);
    }
    if y == x {
        assert(s.push(x)[s.len() as int] == y);
    }
    if s.push(x).contains(y) {
        let i = choose|i: int| 0 <= i < s.push(x).len() && s.push(x)[i] == y;
        if i < s.len() {
            assert(s[i] == y);
        }
    }
}

/// A plain button is diverted exactly when it is wanted, the device can divert it,
/// and it is not armed as a gesture source already.
pub proof fn buttons_are_planned_where_the_device_can(
    wanted: Seq<(u16, ButtonId)>,
    gestures: Seq<u16>,
    controls: Seq<ControlInfo>,
    cid: u16,
    button: ButtonId,
)
    ensures
        planned_buttons(wanted, gestures, controls).contains((cid, button)) <==> {
            &&& wanted.contains((cid, button))
            &&& !gestures.contains(cid)
            &&& exists|i: int|
                0 <= i < controls.len() && (#[trigger] controls[i]).cid == cid
                    && controls[i].divertable
        },
    decreases wanted.len(),
{
    if wanted.len() == 0 {
        assert(!wanted.contains((cid, button)));
    } else {
        let rest = wanted.drop_last();
        let last = wanted.last();
        buttons_are_planned_where_the_device_can(rest, gestures, controls, cid, button);
        assert(wanted =~= rest.push(last));
        lemma_push_holds(rest, last, (cid, button));
        lemma_push_holds(planned_buttons(rest, gestures, controls), last, (cid, button));
    }
}

/// What is written is the gesture sources first, with their motion, then the DPI
/// controls, then the plain buttons under their names; each for what it is.
pub proof fn the_plan_is_written_in_order(
    gestures: Seq<u16>,
    dpi: Seq<u16>,
    buttons: Seq<(u16, ButtonId)>,
)
    ensures
        ({
            let plan = spec_arm_plan(gestures, dpi, buttons);
            &&& plan.len() == gestures.len() + dpi.len() + buttons.len()
            &&& forall|i: int|
                0 <= i < gestures.len() ==> (#[trigger] plan[i]).cid == gestures[i]
                    && plan[i].kind is Gesture
            &&& forall|i: int|
                0 <= i < dpi.len() ==> (#[trigger] plan[gestures.len() + i]).cid == dpi[i]
                    && plan[gestures.len() + i].kind is Dpi
            &&& forall|i: int|
                0 <= i < buttons.len() ==> (#[trigger] plan[gestures.len() + dpi.len() + i]).cid
                    == buttons[i].0 && plan[gestures.len() + dpi.len() + i].kind == ArmKind::Button(
                    buttons[i].1,
                )
        }),
{
}

/// A diversion that landed is recorded for what it is, with how the control reported
/// before, and leaves the rest of the record.
pub proof fn a_diversion_is_recorded_for_what_it_is(
    armed: ArmedModel,
    divert: Divert,
    original: CidReporting,
)
    ensures
        ({
            let after = armed.recorded(divert, original);
            &&& after.reporting == armed.reporting.push((divert.cid, original))
            &&& after.thumb == armed.thumb
            &&& match divert.kind {
                ArmKind::Gesture => after.gesture_cids == armed.gesture_cids.push(divert.cid)
                    && after.dpi_cids == armed.dpi_cids && after.button_cids == armed.button_cids,
                ArmKind::Dpi => after.gesture_cids == armed.gesture_cids && after.dpi_cids
                    == armed.dpi_cids.push(divert.cid) && after.button_cids == armed.button_cids,
                ArmKind::Button(button) => after.gesture_cids == armed.gesture_cids
                    && after.dpi_cids == armed.dpi_cids && after.button_cids
                    == armed.button_cids.push((divert.cid, button)),
            }
            &&& !after.is_idle()
        }),
{
}

/// Nothing is captured before anything is diverted, and nothing is handed back then.
pub proof fn a_session_without_diversions_is_idle()
    ensures
        ArmedModel::none().is_idle(),
        ArmedModel::none().restoring_writes().len() == 0,
        ArmedModel::none().gesture_cids.len() == 0,
        ArmedModel::none().dpi_cids.len() == 0,
        ArmedModel::none().button_cids.len() == 0,
        ArmedModel::none().thumb is None,
{
}

/// A control that is handed back at the end of a session is no longer diverted and
/// reports no motion, and does what it did before.
pub proof fn a_session_hands_every_control_back(session: SessionModel, i: int)
    requires
        0 <= i < session.armed.reporting.len(),
    ensures
        ({
            let writes = session.final_writes(false);
            let (cid, original) = session.armed.reporting[i];
            &&& writes.len() == session.armed.reporting.len()
            &&& writes[i].0 == cid
            &&& writes[i].1.diverted == Some(false)
            &&& writes[i].1.raw_xy == Some(false)
            &&& writes[i].1.remap == original.remap
            &&& writes[i].1.persistent is None
            &&& writes[i].1.forced_raw_xy is None
        }),
        session.final_writes(true).len() == 0,
{
}

/// A session ends when it is told to, or when a second ping in a row stays silent,
/// and goes on otherwise. Only a revoked or silent channel counts as dead.
pub proof fn a_session_ends_on_request_or_on_silence(session: SessionModel)
    ensures
        session.step(SessionEvent::Shutdown(CaptureStop::Graceful)) == (SessionStep::Stop {
            channel_dead: false,
        }),
        session.step(SessionEvent::Shutdown(CaptureStop::Revoked)) == (SessionStep::Stop {
            channel_dead: true,
        }),
        session.step(SessionEvent::Ping(PingOutcome::Answered)) is Wait,
        session.silent_pings == 0 ==> session.step(SessionEvent::Ping(PingOutcome::Silent)) is Wait,
        session.silent_pings >= 1 ==> session.step(SessionEvent::Ping(PingOutcome::Silent)) == (
        SessionStep::Stop { channel_dead: true }),
        pings_after(session.silent_pings, PingOutcome::Answered) == 0,
        session.silent_pings < u8::MAX ==> pings_after(session.silent_pings, PingOutcome::Silent)
            == session.silent_pings + 1,
{
}

} // verus!
