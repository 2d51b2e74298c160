//! Turning the reports of diverted controls into inputs.
//!
//! Raw motion carries no source, so the first gesture source that is held owns
//! the motion until it is released. While a second source is held beside it,
//! motion is dropped. The swipe detector itself lives outside: [`swipe_query`]
//! says what it is asked for an event, and [`handle_reprog`] takes its answer.

use vstd::prelude::*;

use crate::controls::{
    lists, ButtonId, CapturedInput, GestureDirection, GestureSources, WheelResolution,
};

verus! {

/// A report of the diverted controls.
#[derive(Debug)]
pub enum RawControlEvent {
    /// Every diverted control that is down, by control identifier.
    DivertedButtons(Vec<u16>),
    /// Motion while a control that reports raw motion is held.
    RawXy { dx: i16, dy: i16 },
}

/// What the swipe detector is asked while an event is handled.
#[derive(Clone, Copy, Debug, PartialEq, Eq, Structural)]
pub enum SwipeQuery {
    /// Nothing.
    Nothing,
    /// The hold ended: was it a click, with no direction committed?
    End,
    /// Add this travel: does a direction emerge?
    Accumulate { dx: i32, dy: i32 },
}

/// The swipe detector's answer; only the part that was asked for is used.
#[derive(Clone, Copy, Debug, PartialEq, Eq, Structural)]
pub struct SwipeReply {
    /// Whether the hold that ended was a click.
    pub click: bool,
    /// The direction that emerged.
    pub direction: Option<GestureDirection>,
}

/// What handling an event produced.
#[derive(Debug)]
pub struct CaptureOutput {
    /// The inputs, in order.
    pub inputs: Vec<CapturedInput>,
    /// Whether a hold began, so that the swipe detector starts anew.
    pub begin_swipe: bool,
}

/// Hold and button state accumulated across events.
#[derive(Debug)]
pub struct CaptureAccum {
    gesture_source: Option<(u16, ButtonId)>,
    overlap: bool,
    gestures_down: Vec<u16>,
    skip_first_raw_xy: bool,
    dpi_down: bool,
    buttons_down: Vec<u16>,
}

/// What is known of the controls between two events.
pub ghost struct AccumModel {
    /// The gesture source that owns the motion.
    pub gesture_source: Option<(u16, ButtonId)>,
    /// Whether a second source is held beside it.
    pub overlap: bool,
    /// The gesture sources that were held.
    pub gestures_down: Seq<u16>,
    /// Whether the next motion sample is the contact jump of the panel.
    pub skip_first_raw_xy: bool,
    /// Whether a DPI control was held.
    pub dpi_down: bool,
    /// The diverted buttons that were held.
    pub buttons_down: Seq<u16>,
}

impl View for CaptureAccum {
    type V = AccumModel;

    closed spec fn view(&self) -> AccumModel {
        AccumModel {
            gesture_source: self.gesture_source,
            overlap: self.overlap,
            gestures_down: self.gestures_down@,
            skip_first_raw_xy: self.skip_first_raw_xy,
            dpi_down: self.dpi_down,
            buttons_down: self.buttons_down@,
        }
    }
}

/// The armed gesture sources that are down, in arming order.
pub open spec fn held_sources(
    ids: GestureSources,
    armed: Seq<u16>,
    cids: Seq<u16>,
) -> Seq<(u16, ButtonId)>
    decreases armed.len(),
{
    if armed.len() == 0 {
        Seq::empty()
    } else {
        let before = held_sources(ids, armed.drop_last(), cids);
        match ids.spec_button(armed.last()) {
            Some(button) if cids.contains(armed.last()) => before.push((armed.last(), button)),
            _ => before,
        }
    }
}

/// The control identifiers of `held`.
pub open spec fn cids_of(held: Seq<(u16, ButtonId)>) -> Seq<u16> {
    held.map_values(|h: (u16, ButtonId)| h.0)
}

/// The up edges: sources that were down and no longer are.
pub open spec fn up_edges(
    ids: GestureSources,
    before: Seq<u16>,
    held: Seq<u16>,
) -> Seq<CapturedInput>
    decreases before.len(),
{
    if before.len() == 0 {
        Seq::empty()
    } else {
        let rest = up_edges(ids, before.drop_last(), held);
        match ids.spec_button(before.last()) {
            Some(button) if !held.contains(before.last()) => rest.push(
                CapturedInput::ButtonUp(button),
            ),
            _ => rest,
        }
    }
}

/// The down edges: sources that are down and were not.
pub open spec fn down_edges(before: Seq<u16>, held: Seq<(u16, ButtonId)>) -> Seq<CapturedInput>
    decreases held.len(),
{
    if held.len() == 0 {
        Seq::empty()
    } else {
        let rest = down_edges(before, held.drop_last());
        if before.contains(held.last().0) {
            rest
        } else {
            rest.push(CapturedInput::ButtonDown(held.last().1))
        }
    }
}

/// The edge of the DPI controls, which count as one button.
pub open spec fn dpi_edge(was_down: bool, down: bool) -> Seq<CapturedInput> {
    if down && !was_down {
        seq![CapturedInput::ButtonDown(ButtonId::DpiToggle)]
    } else if !down && was_down {
        seq![CapturedInput::ButtonUp(ButtonId::DpiToggle)]
    } else {
        Seq::empty()
    }
}

/// Whether any of `armed` is down.
pub open spec fn any_down(armed: Seq<u16>, cids: Seq<u16>) -> bool {
    exists|i: int| 0 <= i < armed.len() && cids.contains(#[trigger] armed[i])
}

/// `s` without any `x`.
pub open spec fn without(s: Seq<u16>, x: u16) -> Seq<u16>
    decreases s.len(),
{
    if s.len() == 0 {
        s
    } else if s.last() == x {
        without(s.drop_last(), x)
    } else {
        without(s.drop_last(), x).push(s.last())
    }
}

/// The plain buttons: which are held after the report, and the edges.
pub open spec fn button_edges(
    armed: Seq<(u16, ButtonId)>,
    cids: Seq<u16>,
    before: Seq<u16>,
) -> (Seq<u16>, Seq<CapturedInput>)
    decreases armed.len(),
{
    if armed.len() == 0 {
        (before, Seq::empty())
    } else {
        let (down, inputs) = button_edges(armed.drop_last(), cids, before);
        let (cid, button) = armed.last();
        if cids.contains(cid) && !down.contains(cid) {
            (down.push(cid), inputs.push(CapturedInput::ButtonDown(button)))
        } else if !cids.contains(cid) && down.contains(cid) {
            (without(down, cid), inputs.push(CapturedInput::ButtonUp(button)))
        } else {
            (down, inputs)
        }
    }
}

impl AccumModel {
    /// Nothing is held.
    pub open spec fn at_rest() -> AccumModel {
        AccumModel {
            gesture_source: None,
            overlap: false,
            gestures_down: Seq::empty(),
            skip_first_raw_xy: false,
            dpi_down: false,
            buttons_down: Seq::empty(),
        }
    }

    /// Whether a report of `cids` still has the holding source down.
    pub open spec fn still_held(self, cids: Seq<u16>) -> bool {
        self.gesture_source matches Some(source) && cids.contains(source.0)
    }

    /// Whether a motion sample counts: a hold is on, no second source is held,
    /// and the sample is no contact jump.
    pub open spec fn motion_counts(self) -> bool {
        self.gesture_source is Some && !self.overlap && !self.skip_first_raw_xy
    }

    /// The state after a report of `cids`.
    pub open spec fn after_buttons(
        self,
        ids: GestureSources,
        gestures: Seq<u16>,
        dpi: Seq<u16>,
        buttons: Seq<(u16, ButtonId)>,
        cids: Seq<u16>,
    ) -> AccumModel {
        let held = held_sources(ids, gestures, cids);
        let takes = !self.still_held(cids) && held.len() > 0;
        AccumModel {
            gesture_source: if self.still_held(cids) {
                self.gesture_source
            } else if held.len() > 0 {
                Some(held[0])
            } else {
                None
            },
            overlap: if self.still_held(cids) || takes {
                held.len() > 1
            } else if self.gesture_source is Some {
                false
            } else {
                self.overlap
            },
            gestures_down: cids_of(held),
            skip_first_raw_xy: if takes {
                held[0].0 == ids.haptic_panel && !self.gestures_down.contains(held[0].0)
            } else {
                self.skip_first_raw_xy
            },
            dpi_down: any_down(dpi, cids),
            buttons_down: button_edges(buttons, cids, self.buttons_down).0,
        }
    }

    /// The inputs of a report of `cids`: the click of a hold that ended
    /// without a swipe, then the edges of the gesture sources, of the DPI
    /// controls, and of the plain buttons.
    pub open spec fn button_inputs(
        self,
        ids: GestureSources,
        gestures: Seq<u16>,
        dpi: Seq<u16>,
        buttons: Seq<(u16, ButtonId)>,
        cids: Seq<u16>,
        click: bool,
    ) -> Seq<CapturedInput> {
        let held = held_sources(ids, gestures, cids);
        let clicks = match self.gesture_source {
            Some((_, button)) if !self.still_held(cids) && click => seq![
                CapturedInput::Gesture(button, GestureDirection::Click),
            ],
            _ => Seq::empty(),
        };
        clicks + up_edges(ids, self.gestures_down, cids_of(held)) + down_edges(
            self.gestures_down,
            held,
        ) + dpi_edge(self.dpi_down, any_down(dpi, cids)) + button_edges(
            buttons,
            cids,
            self.buttons_down,
        ).1
    }

    /// Whether a report of `cids` begins a hold.
    pub open spec fn begins_hold(
        self,
        ids: GestureSources,
        gestures: Seq<u16>,
        cids: Seq<u16>,
    ) -> bool {
        !self.still_held(cids) && held_sources(ids, gestures, cids).len() > 0
    }

    /// What is held after a motion report.
    pub open spec fn after_motion(self) -> AccumModel {
        if self.gesture_source is Some && !self.overlap {
            AccumModel { skip_first_raw_xy: false, ..self }
        } else {
            self
        }
    }

    /// The inputs of a motion report in which the swipe detector finds
    /// `direction`.
    pub open spec fn motion_inputs(self, direction: Option<GestureDirection>) -> Seq<
        CapturedInput,
    > {
        match (self.gesture_source, direction) {
            (Some((_, button)), Some(direction)) if self.motion_counts() => seq![
                CapturedInput::Gesture(button, direction),
            ],
            _ => Seq::empty(),
        }
    }

    /// What the swipe detector is asked.
    pub open spec fn query(self, event: RawControlEvent) -> SwipeQuery {
        match event {
            RawControlEvent::DivertedButtons(cids) => if self.gesture_source is Some
                && !self.still_held(cids@) {
                SwipeQuery::End
            } else {
                SwipeQuery::Nothing
            },
            RawControlEvent::RawXy { dx, dy } => if self.motion_counts() {
                SwipeQuery::Accumulate { dx: dx as i32, dy: dy as i32 }
            } else {
                SwipeQuery::Nothing
            },
        }
    }
}

impl CaptureAccum {
    /// Nothing is held.
    pub fn new() -> (r: Self)
        ensures
            r@ == AccumModel::at_rest(),
    {
        CaptureAccum {
            gesture_source: None,
            overlap: false,
            gestures_down: Vec::new(),
            skip_first_raw_xy: false,
            dpi_down: false,
            buttons_down: Vec::new(),
        }
    }
}

/// What the swipe detector has to be asked before `event` is handled.
pub fn swipe_query(acc: &CaptureAccum, event: &RawControlEvent) -> (r: SwipeQuery)
    ensures
        r == acc@.query(*event),
{
    match event {
        RawControlEvent::DivertedButtons(cids) => match acc.gesture_source {
            Some(source) => if lists(cids, source.0) {
                SwipeQuery::Nothing
            } else {
                SwipeQuery::End
            },
            None => SwipeQuery::Nothing,
        },
        RawControlEvent::RawXy { dx, dy } => if acc.gesture_source.is_some() && !acc.overlap
            && !acc.skip_first_raw_xy {
            SwipeQuery::Accumulate { dx: *dx as i32, dy: *dy as i32 }
        } else {
            SwipeQuery::Nothing
        },
    }
}

fn collect_held(ids: &GestureSources, armed: &Vec<u16>, cids: &Vec<u16>) -> (r: Vec<
    (u16, ButtonId),
>)
    ensures
        r@ == held_sources(*ids, armed@, cids@),
{
    let mut held: Vec<(u16, ButtonId)> = Vec::new();
    let mut i: usize = 0;
    while i < armed.len()
        invariant
            i <= armed@.len(),
            held@ == held_sources(*ids, armed@.take(i as int), cids@),
        decreases armed@.len() - i,
    {
        proof {
            assert(armed@.take(i as int + 1).drop_last() =~= armed@.take(i as int));
        }
        let cid = armed[i];
        if lists(cids, cid) {
            if let Some(button) = ids.gesture_source_button(cid) {
                held.push((cid, button));
            }
        }
        i = i + 1;
    }
    proof {
        assert(armed@.take(armed@.len() as int) =~= armed@);
    }
    held
}

fn collect_cids(held: &Vec<(u16, ButtonId)>) -> (r: Vec<u16>)
    ensures
        r@ == cids_of(held@),
{
    let mut r: Vec<u16> = Vec::new();
    let mut i: usize = 0;
    while i < held.len()
        invariant
            i <= held@.len(),
            r@.len() == i,
            forall|j: int| 0 <= j < i ==> r@[j] == held@[j].0,
        decreases held@.len() - i,
    {
        r.push(held[i].0);
        i = i + 1;
    }
    proof {
        assert(r@ =~= cids_of(held@));
    }
    r
}

fn emit_source_edges(
    ids: &GestureSources,
    before: &Vec<u16>,
    held: &Vec<(u16, ButtonId)>,
    held_cids: &Vec<u16>,
    out: &mut Vec<CapturedInput>,
)
    requires
        held_cids@ == cids_of(held@),
    ensures
        final(out)@ == old(out)@ + up_edges(*ids, before@, cids_of(held@)) + down_edges(
            before@,
            held@,
        ),
{
    let ghost start = out@;
    let mut i: usize = 0;
    while i < before.len()
        invariant
            i <= before@.len(),
            held_cids@ == cids_of(held@),
            out@ == start + up_edges(*ids, before@.take(i as int), cids_of(held@)),
        decreases before@.len() - i,
    {
        proof {
            assert(before@.take(i as int + 1).drop_last() =~= before@.take(i as int));
        }
        let cid = before[i];
        if !lists(held_cids, cid) {
            if let Some(button) = ids.gesture_source_button(cid) {
                out.push(CapturedInput::ButtonUp(button));
            }
        }
        i = i + 1;
    }
    proof {
        assert(before@.take(before@.len() as int) =~= before@);
    }
    let ghost middle = out@;
    let mut k: usize = 0;
    proof {
        assert(middle =~= middle + down_edges(before@, held@.take(0)));
    }
    while k < held.len()
        invariant
            k <= held@.len(),
            out@ == middle + down_edges(before@, held@.take(k as int)),
        decreases held@.len() - k,
    {
        proof {
            assert(held@.take(k as int + 1).drop_last() =~= held@.take(k as int));
        }
        if !lists(before, held[k].0) {
            out.push(CapturedInput::ButtonDown(held[k].1));
        }
        k = k + 1;
    }
    proof {
        assert(held@.take(held@.len() as int) =~= held@);
    }
}

fn any_listed(armed: &Vec<u16>, cids: &Vec<u16>) -> (r: bool)
    ensures
        r == any_down(armed@, cids@),
{
    let mut i: usize = 0;
    while i < armed.len()
        invariant
            i <= armed@.len(),
            forall|j: int| 0 <= j < i ==> !cids@.contains(#[trigger] armed@[j]),
        decreases armed@.len() - i,
    {
        if lists(cids, armed[i]) {
            proof {
                assert(cids@.contains(armed@[i as int]));
            }
            return true;
        }
        i = i + 1;
    }
    false
}

fn remove_all(s: &Vec<u16>, x: u16) -> (r: Vec<u16>)
    ensures
        r@ == without(s@, x),
{
    let mut r: Vec<u16> = Vec::new();
    let mut i: usize = 0;
    while i < s.len()
        invariant
            i <= s@.len(),
            r@ == without(s@.take(i as int), x),
        decreases s@.len() - i,
    {
        proof {
            assert(s@.take(i as int + 1).drop_last() =~= s@.take(i as int));
        }
        if s[i] != x {
            r.push(s[i]);
        }
        i = i + 1;
    }
    proof {
        assert(s@.take(s@.len() as int) =~= s@);
    }
    r
}

fn emit_button_edges(
    armed: &Vec<(u16, ButtonId)>,
    cids: &Vec<u16>,
    down: &mut Vec<u16>,
    out: &mut Vec<CapturedInput>,
)
    ensures
        final(down)@ == button_edges(armed@, cids@, old(down)@).0,
        final(out)@ == old(out)@ + button_edges(armed@, cids@, old(down)@).1,
{
    let ghost start = out@;
    let ghost before = down@;
    let mut i: usize = 0;
    while i < armed.len()
        invariant
            i <= armed@.len(),
            down@ == button_edges(armed@.take(i as int), cids@, before).0,
            out@ == start + button_edges(armed@.take(i as int), cids@, before).1,
        decreases armed@.len() - i,
    {
        proof {
            assert(armed@.take(i as int + 1).drop_last() =~= armed@.take(i as int));
        }
        let (cid, button) = armed[i];
        let now = lists(cids, cid);
        let was = lists(down, cid);
        if now && !was {
            out.push(CapturedInput::ButtonDown(button));
            down.push(cid);
        } else if !now && was {
            out.push(CapturedInput::ButtonUp(button));
            let kept = remove_all(down, cid);
            *down = kept;
        }
        i = i + 1;
    }
    proof {
        assert(armed@.take(armed@.len() as int) =~= armed@);
    }
}

/// Take one report: keep the physical edges of every control, and commit a
/// gesture the moment a direction emerges. `reply` is the swipe detector's
/// answer to [`swipe_query`].
pub fn handle_reprog(
    acc: &mut CaptureAccum,
    event: RawControlEvent,
    ids: &GestureSources,
    gesture_cids: &Vec<u16>,
    dpi_cids: &Vec<u16>,
    button_cids: &Vec<(u16, ButtonId)>,
    reply: SwipeReply,
) -> (r: CaptureOutput)
    ensures
        match event {
            RawControlEvent::DivertedButtons(cids) => {
                &&& final(acc)@ == old(acc)@.after_buttons(
                    *ids,
                    gesture_cids@,
                    dpi_cids@,
                    button_cids@,
                    cids@,
                )
                &&& r.inputs@ == old(acc)@.button_inputs(
                    *ids,
                    gesture_cids@,
                    dpi_cids@,
                    button_cids@,
                    cids@,
                    reply.click,
                )
                &&& r.begin_swipe == old(acc)@.begins_hold(*ids, gesture_cids@, cids@)
                &&& forall|button: ButtonId, direction: GestureDirection|
                    #[trigger] r.inputs@.contains(CapturedInput::Gesture(button, direction))
                        <==> reply.click && direction == GestureDirection::Click && (
                    old(acc)@.gesture_source matches Some((cid, owner)) && owner == button
                        && !cids@.contains(cid))
            },
            RawControlEvent::RawXy { .. } => {
                &&& final(acc)@ == old(acc)@.after_motion()
                &&& r.inputs@ == old(acc)@.motion_inputs(reply.direction)
                &&& !r.begin_swipe
            },
        },
{
    let mut inputs: Vec<CapturedInput> = Vec::new();
    let mut begin_swipe = false;
    match event {
        RawControlEvent::DivertedButtons(cids) => {
            let ghost before = acc@;
            let held = collect_held(ids, gesture_cids, &cids);
            let held_cids = collect_cids(&held);
            let still_held = match acc.gesture_source {
                Some(source) => lists(&cids, source.0),
                None => false,
            };
            if still_held {
                acc.overlap = held.len() > 1;
            } else {
                if let Some((_, button)) = acc.gesture_source {
                    acc.gesture_source = None;
                    acc.overlap = false;
                    if reply.click {
                        inputs.push(CapturedInput::Gesture(button, GestureDirection::Click));
                    }
                }
                if held.len() > 0 {
                    acc.gesture_source = Some(held[0]);
                    begin_swipe = true;
                    acc.overlap = held.len() > 1;
                    acc.skip_first_raw_xy = held[0].0 == ids.haptic_panel && !lists(
                        &acc.gestures_down,
                        held[0].0,
                    );
                }
            }
            emit_source_edges(ids, &acc.gestures_down, &held, &held_cids, &mut inputs);
            acc.gestures_down = held_cids;
            let down = any_listed(dpi_cids, &cids);
            if down && !acc.dpi_down {
                inputs.push(CapturedInput::ButtonDown(ButtonId::DpiToggle));
            } else if !down && acc.dpi_down {
                inputs.push(CapturedInput::ButtonUp(ButtonId::DpiToggle));
            }
            acc.dpi_down = down;
            emit_button_edges(button_cids, &cids, &mut acc.buttons_down, &mut inputs);
            proof {
                assert(inputs@ =~= before.button_inputs(
                    *ids,
                    gesture_cids@,
                    dpi_cids@,
                    button_cids@,
                    cids@,
                    reply.click,
                ));
                assert forall|button: ButtonId, direction: GestureDirection|
                    #[trigger] inputs@.contains(CapturedInput::Gesture(button, direction))
                        <==> reply.click && direction == GestureDirection::Click && (
                    before.gesture_source matches Some((cid, owner)) && owner == button
                        && !cids@.contains(cid)) by {
                    a_gesture_of_a_report_is_the_click_of_an_ended_hold(
                        before,
                        *ids,
                        gesture_cids@,
                        dpi_cids@,
                        button_cids@,
                        cids@,
                        reply.click,
                        button,
                        direction,
                    );
                }
            }
        },
        RawControlEvent::RawXy { .. } => {
            if let Some((_, button)) = acc.gesture_source {
                if !acc.overlap {
                    if acc.skip_first_raw_xy {
                        acc.skip_first_raw_xy = false;
                    } else if let Some(direction) = reply.direction {
                        inputs.push(CapturedInput::Gesture(button, direction));
                    }
                }
            }
        },
    }
    CaptureOutput { inputs, begin_swipe }
}

/// A report of the diverted thumb wheel.
#[derive(Clone, Copy, Debug, PartialEq, Eq, Structural)]
pub struct ThumbwheelEvent {
    /// Rotation in diverted increments.
    pub rotation: i16,
    /// Whether the wheel says that this report is part of a roll.
    pub rolling: bool,
    /// Whether the touch sensor reports a tap.
    pub single_tap: bool,
}

/// The single input that one thumb-wheel report stands for, if any: a report
/// is part of a roll or a tap, never both, and the tap bit of a roll belongs
/// to the finger that turns the wheel.
pub fn thumbwheel_input(event: ThumbwheelEvent, resolution: WheelResolution) -> (r: Option<
    CapturedInput,
>)
    ensures
        r == (if event.rotation != 0 {
            Some(CapturedInput::Scroll { increments: event.rotation, resolution })
        } else if !event.rolling && event.single_tap {
            Some(CapturedInput::ButtonPulse(ButtonId::Thumbwheel))
        } else {
            None::<CapturedInput>
        }),
{
    if event.rotation != 0 {
        return Some(CapturedInput::Scroll { increments: event.rotation, resolution });
    }
    if event.rolling {
        return None;
    }
    if event.single_tap {
        Some(CapturedInput::ButtonPulse(ButtonId::Thumbwheel))
    } else {
        None
    }
}

proof fn lemma_without_contains(s: Seq<u16>, x: u16, y: u16)
    ensures
        without(s, x).contains(y) <==> s.contains(y) && y != x,
    decreases s.len(),
{
    if s.len() > 0 {
        lemma_without_contains(s.drop_last(), x, y);
        assert(s =~= s.drop_last().push(s.last()));
        if s.last() != x {
            let kept = without(s.drop_last(), x);
            assert(kept.push(s.last()).contains(y) <==> kept.contains(y) || y == s.last()) by {
                lemma_push_contains(kept, s.last(), y);
            }
        }
        lemma_push_contains(s.drop_last(), s.last(), y);
    }
}

proof fn lemma_push_contains(s: Seq<u16>, x: u16, y: u16)
    ensures
        s.push(x).contains(y) <==> s.contains(y) || y == x,
{
    if s.contains(y) {
        let i = choose|i: int| 0 <= i < s.len() && s[i] == y;
        assert(s.push(x)[i] == y);
    }
    if y == x {
        assert(s.push(x)[s.len() as int] == y);
    }
    if s.push(x).contains(y) {
        let i = choose|i: int| 0 <= i < s.push(x).len() && s.push(x)[i] == y;
        if i < s.len() {
            assert(s[i] == y);
        }
    }
}

proof fn lemma_held_are_down(ids: GestureSources, armed: Seq<u16>, cids: Seq<u16>)
    ensures
        forall|i: int|
            0 <= i < held_sources(ids, armed, cids).len() ==> cids.contains(
                (#[trigger] held_sources(ids, armed, cids)[i]).0,
            ) && armed.contains(held_sources(ids, armed, cids)[i].0),
    decreases armed.len(),
{
    if armed.len() > 0 {
        lemma_held_are_down(ids, armed.drop_last(), cids);
        let before = held_sources(ids, armed.drop_last(), cids);
        assert forall|i: int| 0 <= i < held_sources(ids, armed, cids).len() implies cids.contains(
            (#[trigger] held_sources(ids, armed, cids)[i]).0,
        ) && armed.contains(held_sources(ids, armed, cids)[i].0) by {
            if i < before.len() {
                assert(held_sources(ids, armed, cids)[i] == before[i]);
                let k = choose|k: int|
                    0 <= k < armed.drop_last().len() && armed.drop_last()[k] == before[i].0;
                assert(armed[k] == before[i].0);
            } else {
                assert(armed[armed.len() - 1] == held_sources(ids, armed, cids)[i].0);
            }
        }
    }
}

proof fn lemma_no_up_edges(ids: GestureSources, before: Seq<u16>, held: Seq<u16>)
    requires
        forall|i: int| 0 <= i < before.len() ==> held.contains(#[trigger] before[i]),
    ensures
        up_edges(ids, before, held) == Seq::<CapturedInput>::empty(),
    decreases before.len(),
{
    if before.len() > 0 {
        assert forall|i: int| 0 <= i < before.drop_last().len() implies held.contains(
            #[trigger] before.drop_last()[i],
        ) by {
            assert(before.drop_last()[i] == before[i]);
        }
        lemma_no_up_edges(ids, before.drop_last(), held);
        assert(held.contains(before[before.len() - 1]));
    }
}

proof fn lemma_no_down_edges(before: Seq<u16>, held: Seq<(u16, ButtonId)>)
    requires
        forall|i: int| 0 <= i < held.len() ==> before.contains((#[trigger] held[i]).0),
    ensures
        down_edges(before, held) == Seq::<CapturedInput>::empty(),
    decreases held.len(),
{
    if held.len() > 0 {
        assert forall|i: int| 0 <= i < held.drop_last().len() implies before.contains(
            (#[trigger] held.drop_last()[i]).0,
        ) by {
            assert(held.drop_last()[i] == held[i]);
        }
        lemma_no_down_edges(before, held.drop_last());
        assert(before.contains(held[held.len() - 1].0));
    }
}

/// After a report, a plain button that is armed counts as held exactly when
/// the report has it down.
pub proof fn held_buttons_are_the_reported_ones(
    armed: Seq<(u16, ButtonId)>,
    cids: Seq<u16>,
    before: Seq<u16>,
)
    ensures
        forall|i: int|
            0 <= i < armed.len() ==> (button_edges(armed, cids, before).0.contains(
                (#[trigger] armed[i]).0,
            ) <==> cids.contains(armed[i].0)),
    decreases armed.len(),
{
    if armed.len() > 0 {
        held_buttons_are_the_reported_ones(armed.drop_last(), cids, before);
        let (down, _) = button_edges(armed.drop_last(), cids, before);
        let after = button_edges(armed, cids, before).0;
        let last = armed.last().0;
        assert forall|i: int| 0 <= i < armed.len() implies (after.contains(
            (#[trigger] armed[i]).0,
        ) <==> cids.contains(armed[i].0)) by {
            let cid = armed[i].0;
            lemma_push_contains(down, last, cid);
            lemma_without_contains(down, last, cid);
            if i < armed.len() - 1 {
                assert(armed.drop_last()[i] == armed[i]);
                assert(down.contains(cid) <==> cids.contains(cid));
            } else {
                assert(cid == last);
            }
        }
    }
}

proof fn lemma_settled_buttons(armed: Seq<(u16, ButtonId)>, cids: Seq<u16>, down: Seq<u16>)
    requires
        forall|i: int|
            0 <= i < armed.len() ==> (down.contains((#[trigger] armed[i]).0) <==> cids.contains(
                armed[i].0,
            )),
    ensures
        button_edges(armed, cids, down) == (down, Seq::<CapturedInput>::empty()),
    decreases armed.len(),
{
    if armed.len() > 0 {
        assert forall|i: int| 0 <= i < armed.drop_last().len() implies (down.contains(
            (#[trigger] armed.drop_last()[i]).0,
        ) <==> cids.contains(armed.drop_last()[i].0)) by {
            assert(armed.drop_last()[i] == armed[i]);
        }
        lemma_settled_buttons(armed.drop_last(), cids, down);
        assert(armed[armed.len() - 1] == armed.last());
    }
}

/// A device repeats its report while controls stay down; the second of two
/// equal reports produces no input, begins no hold and changes nothing.
pub proof fn a_repeated_report_changes_nothing(
    acc: AccumModel,
    ids: GestureSources,
    gestures: Seq<u16>,
    dpi: Seq<u16>,
    buttons: Seq<(u16, ButtonId)>,
    cids: Seq<u16>,
    click: bool,
)
    ensures
        ({
            let next = acc.after_buttons(ids, gestures, dpi, buttons, cids);
            &&& next.after_buttons(ids, gestures, dpi, buttons, cids) == next
            &&& next.button_inputs(ids, gestures, dpi, buttons, cids, click) == Seq::<
                CapturedInput,
            >::empty()
            &&& !next.begins_hold(ids, gestures, cids)
        }),
{
    let held = held_sources(ids, gestures, cids);
    let next = acc.after_buttons(ids, gestures, dpi, buttons, cids);
    lemma_held_are_down(ids, gestures, cids);
    if held.len() > 0 {
        assert(cids.contains(held[0].0));
    }
    assert forall|i: int| 0 <= i < held.len() implies next.gestures_down.contains(
        (#[trigger] held[i]).0,
    ) by {
        assert(next.gestures_down[i] == held[i].0);
    }
    assert forall|i: int| 0 <= i < next.gestures_down.len() implies cids_of(held).contains(
        #[trigger] next.gestures_down[i],
    ) by {
        assert(cids_of(held)[i] == next.gestures_down[i]);
    }
    lemma_no_up_edges(ids, next.gestures_down, cids_of(held));
    lemma_no_down_edges(next.gestures_down, held);
    held_buttons_are_the_reported_ones(buttons, cids, acc.buttons_down);
    lemma_settled_buttons(buttons, cids, next.buttons_down);
    assert(next.after_buttons(ids, gestures, dpi, buttons, cids).gestures_down
        =~= next.gestures_down);
    assert(next.button_inputs(ids, gestures, dpi, buttons, cids, click) =~= Seq::<
        CapturedInput,
    >::empty());
}

proof fn lemma_nothing_held(ids: GestureSources, armed: Seq<u16>)
    ensures
        held_sources(ids, armed, Seq::empty()).len() == 0,
    decreases armed.len(),
{
    if armed.len() > 0 {
        lemma_nothing_held(ids, armed.drop_last());
    }
}

/// A report with nothing down ends every hold: no source owns the motion, and
/// no armed control counts as held.
pub proof fn releasing_everything_ends_every_hold(
    acc: AccumModel,
    ids: GestureSources,
    gestures: Seq<u16>,
    dpi: Seq<u16>,
    buttons: Seq<(u16, ButtonId)>,
)
    ensures
        ({
            let next = acc.after_buttons(ids, gestures, dpi, buttons, Seq::empty());
            &&& next.gesture_source is None
            &&& next.gestures_down == Seq::<u16>::empty()
            &&& !next.dpi_down
            &&& forall|i: int|
                0 <= i < buttons.len() ==> !next.buttons_down.contains((#[trigger] buttons[i]).0)
        }),
{
    lemma_nothing_held(ids, gestures);
    held_buttons_are_the_reported_ones(buttons, Seq::empty(), acc.buttons_down);
    let next = acc.after_buttons(ids, gestures, dpi, buttons, Seq::empty());
    assert(next.gestures_down =~= Seq::<u16>::empty());
}

/// Motion can commit a gesture only for the source that is held alone, and
/// only after the contact jump of the panel: the swipe detector is not even
/// asked otherwise.
pub proof fn stray_motion_is_dropped(acc: AccumModel, dx: i16, dy: i16)
    ensures
        acc.gesture_source is None || acc.overlap || acc.skip_first_raw_xy ==> acc.query(
            RawControlEvent::RawXy { dx, dy },
        ) is Nothing,
{
}

/// A fresh touch of the haptic panel that begins a hold always drops its first
/// motion sample; no other source ever does.
pub proof fn only_a_fresh_panel_touch_skips_a_sample(
    acc: AccumModel,
    ids: GestureSources,
    gestures: Seq<u16>,
    dpi: Seq<u16>,
    buttons: Seq<(u16, ButtonId)>,
    cids: Seq<u16>,
)
    requires
        acc.begins_hold(ids, gestures, cids),
    ensures
        ({
            let source = held_sources(ids, gestures, cids)[0].0;
            acc.after_buttons(ids, gestures, dpi, buttons, cids).skip_first_raw_xy <==> source
                == ids.haptic_panel && !acc.gestures_down.contains(source)
        }),
{
}

/// How often an input is among others.
pub open spec fn times(inputs: Seq<CapturedInput>, input: CapturedInput) -> nat
    decreases inputs.len(),
{
    if inputs.len() == 0 {
        0
    } else {
        times(inputs.drop_last(), input) + if inputs.last() == input {
            1nat
        } else {
            0nat
        }
    }
}

proof fn lemma_times_of_both(
    a: Seq<CapturedInput>,
    b: Seq<CapturedInput>,
    input: CapturedInput,
)
    ensures
        times(a + b, input) == times(a, input) + times(b, input),
    decreases b.len(),
{
    if b.len() == 0 {
        assert(a + b =~= a);
    } else {
        lemma_times_of_both(a, b.drop_last(), input);
        assert((a + b).drop_last() =~= a + b.drop_last());
    }
}

/// Whether no control and no button occurs twice among the armed ones.
pub open spec fn each_is_armed_once(armed: Seq<(u16, ButtonId)>) -> bool {
    forall|i: int, j: int|
        0 <= i < j < armed.len() ==> (#[trigger] armed[i]).0 != (#[trigger] armed[j]).0
            && armed[i].1 != armed[j].1
}

/// What is sent of a button that goes down, or up.
pub open spec fn is_edge_of(input: CapturedInput, button: ButtonId) -> bool {
    input == CapturedInput::ButtonDown(button) || input == CapturedInput::ButtonUp(button)
}

proof fn lemma_others_send_nothing(
    armed: Seq<(u16, ButtonId)>,
    cids: Seq<u16>,
    before: Seq<u16>,
    cid: u16,
    button: ButtonId,
    input: CapturedInput,
)
    requires
        forall|i: int| 0 <= i < armed.len() ==> (#[trigger] armed[i]).0 != cid && armed[i].1 != button,
        is_edge_of(input, button),
    ensures
        times(button_edges(armed, cids, before).1, input) == 0,
        button_edges(armed, cids, before).0.contains(cid) == before.contains(cid),
    decreases armed.len(),
{
    if armed.len() > 0 {
        let rest = armed.drop_last();
        assert forall|i: int| 0 <= i < rest.len() implies (#[trigger] rest[i]).0 != cid
            && rest[i].1 != button by {
            assert(rest[i] == armed[i]);
        }
        lemma_others_send_nothing(rest, cids, before, cid, button, input);
        let (down, inputs) = button_edges(rest, cids, before);
        let last = armed[armed.len() - 1];
        lemma_push_contains(down, last.0, cid);
        lemma_without_contains(down, last.0, cid);
        assert(inputs.push(CapturedInput::ButtonDown(last.1)).drop_last() =~= inputs);
        assert(inputs.push(CapturedInput::ButtonUp(last.1)).drop_last() =~= inputs);
    }
}

/// Of a plain button, a report sends one press exactly when the button is
/// newly down, and one release exactly when it is newly up.
pub proof fn an_edge_is_sent_once(
    armed: Seq<(u16, ButtonId)>,
    cids: Seq<u16>,
    before: Seq<u16>,
    i: int,
)
    requires
        each_is_armed_once(armed),
        0 <= i < armed.len(),
    ensures
        ({
            let (cid, button) = armed[i];
            let inputs = button_edges(armed, cids, before).1;
            &&& times(inputs, CapturedInput::ButtonDown(button)) == (if cids.contains(cid)
                && !before.contains(cid) {
                1nat
            } else {
                0nat
            })
            &&& times(inputs, CapturedInput::ButtonUp(button)) == (if !cids.contains(cid)
                && before.contains(cid) {
                1nat
            } else {
                0nat
            })
        }),
    decreases armed.len(),
{
    let (cid, button) = armed[i];
    let rest = armed.drop_last();
    let (down, inputs) = button_edges(rest, cids, before);
    let last = armed[armed.len() - 1];
    assert(inputs.push(CapturedInput::ButtonDown(last.1)).drop_last() =~= inputs);
    assert(inputs.push(CapturedInput::ButtonUp(last.1)).drop_last() =~= inputs);
    if i == armed.len() - 1 {
        assert forall|k: int| 0 <= k < rest.len() implies (#[trigger] rest[k]).0 != cid
            && rest[k].1 != button by {
            assert(rest[k] == armed[k]);
        }
        lemma_others_send_nothing(
            rest,
            cids,
            before,
            cid,
            button,
            CapturedInput::ButtonDown(button),
        );
        lemma_others_send_nothing(rest, cids, before, cid, button, CapturedInput::ButtonUp(button));
    } else {
        assert(rest[i] == armed[i]);
        assert forall|a: int, b: int| 0 <= a < b < rest.len() implies (#[trigger] rest[a]).0 != (
        #[trigger] rest[b]).0 && rest[a].1 != rest[b].1 by {
            assert(rest[a] == armed[a] && rest[b] == armed[b]);
        }
        an_edge_is_sent_once(rest, cids, before, i);
        assert(armed[i].1 != last.1);
    }
}

/// Whether a plain button has a name of its own: no gesture source and no DPI
/// control is sent under it.
pub open spec fn has_own_name(
    ids: GestureSources,
    gestures: Seq<u16>,
    button: ButtonId,
) -> bool {
    button != ButtonId::DpiToggle && forall|k: int|
        0 <= k < gestures.len() ==> ids.spec_button(#[trigger] gestures[k]) != Some(button)
}

proof fn lemma_sources_send_nothing(
    ids: GestureSources,
    gestures: Seq<u16>,
    before: Seq<u16>,
    armed: Seq<u16>,
    cids: Seq<u16>,
    button: ButtonId,
    input: CapturedInput,
)
    requires
        has_own_name(ids, gestures, button),
        forall|k: int| 0 <= k < before.len() ==> gestures.contains(#[trigger] before[k]),
        forall|k: int| 0 <= k < armed.len() ==> gestures.contains(#[trigger] armed[k]),
        is_edge_of(input, button),
    ensures
        forall|held: Seq<u16>| times(#[trigger] up_edges(ids, before, held), input) == 0,
        forall|was: Seq<u16>|
            times(#[trigger] down_edges(was, held_sources(ids, armed, cids)), input) == 0,
    decreases before.len(), armed.len(),
{
    if before.len() > 0 {
        let rest = before.drop_last();
        assert forall|k: int| 0 <= k < rest.len() implies gestures.contains(#[trigger] rest[k]) by {
            assert(rest[k] == before[k]);
        }
        lemma_sources_send_nothing(ids, gestures, rest, armed, cids, button, input);
        assert(gestures.contains(before[before.len() - 1]));
        assert forall|held: Seq<u16>| times(#[trigger] up_edges(ids, before, held), input) == 0 by {
            let earlier = up_edges(ids, rest, held);
            assert(times(earlier, input) == 0);
            match ids.spec_button(before.last()) {
                Some(name) => {
                    assert(earlier.push(CapturedInput::ButtonUp(name)).drop_last() =~= earlier);
                },
                None => {},
            }
        }
    } else if armed.len() > 0 {
        let rest = armed.drop_last();
        assert forall|k: int| 0 <= k < rest.len() implies gestures.contains(#[trigger] rest[k]) by {
            assert(rest[k] == armed[k]);
        }
        lemma_sources_send_nothing(ids, gestures, before, rest, cids, button, input);
        assert(gestures.contains(armed[armed.len() - 1]));
        let held = held_sources(ids, rest, cids);
        let all = held_sources(ids, armed, cids);
        assert forall|was: Seq<u16>| times(#[trigger] down_edges(was, all), input) == 0 by {
            assert(times(down_edges(was, held), input) == 0);
            if all.len() > held.len() {
                assert(all.drop_last() =~= held);
                let earlier = down_edges(was, held);
                assert(earlier.push(CapturedInput::ButtonDown(all.last().1)).drop_last()
                    =~= earlier);
            }
        }
    }
}

proof fn lemma_buttons_alone_send(
    acc: AccumModel,
    ids: GestureSources,
    gestures: Seq<u16>,
    dpi: Seq<u16>,
    buttons: Seq<(u16, ButtonId)>,
    cids: Seq<u16>,
    click: bool,
    button: ButtonId,
    input: CapturedInput,
)
    requires
        has_own_name(ids, gestures, button),
        forall|k: int|
            0 <= k < acc.gestures_down.len() ==> gestures.contains(
                #[trigger] acc.gestures_down[k],
            ),
        is_edge_of(input, button),
    ensures
        times(acc.button_inputs(ids, gestures, dpi, buttons, cids, click), input) == times(
            button_edges(buttons, cids, acc.buttons_down).1,
            input,
        ),
{
    let held = held_sources(ids, gestures, cids);
    let clicks = match acc.gesture_source {
        Some((_, source)) if !acc.still_held(cids) && click => seq![
            CapturedInput::Gesture(source, GestureDirection::Click),
        ],
        _ => Seq::empty(),
    };
    let ups = up_edges(ids, acc.gestures_down, cids_of(held));
    let downs = down_edges(acc.gestures_down, held);
    let toggles = dpi_edge(acc.dpi_down, any_down(dpi, cids));
    let edges = button_edges(buttons, cids, acc.buttons_down).1;
    assert forall|k: int| 0 <= k < gestures.len() implies gestures.contains(
        #[trigger] gestures[k],
    ) by {}
    lemma_sources_send_nothing(ids, gestures, acc.gestures_down, gestures, cids, button, input);
    assert(times(ups, input) == 0);
    assert(times(downs, input) == 0);
    reveal_with_fuel(times, 3);
    assert(times(clicks, input) == 0);
    assert(times(toggles, input) == 0);
    lemma_times_of_both(clicks, ups, input);
    lemma_times_of_both(clicks + ups, downs, input);
    lemma_times_of_both(clicks + ups + downs, toggles, input);
    lemma_times_of_both(clicks + ups + downs + toggles, edges, input);
}

/// A report that a session takes.
pub ghost enum Taken {
    /// The controls that are down, and whether an ended swipe was a click.
    Buttons(Seq<u16>, bool),
    /// Motion, and what the swipe detector found in it.
    Motion(Option<GestureDirection>),
}

/// What is held after reports that began at rest.
pub open spec fn held_after(
    ids: GestureSources,
    gestures: Seq<u16>,
    dpi: Seq<u16>,
    buttons: Seq<(u16, ButtonId)>,
    reports: Seq<Taken>,
) -> AccumModel
    decreases reports.len(),
{
    if reports.len() == 0 {
        AccumModel::at_rest()
    } else {
        let acc = held_after(ids, gestures, dpi, buttons, reports.drop_last());
        match reports.last() {
            Taken::Buttons(cids, _) => acc.after_buttons(ids, gestures, dpi, buttons, cids),
            Taken::Motion(_) => acc.after_motion(),
        }
    }
}

/// What is sent for the last of some reports.
pub open spec fn sent_last(
    ids: GestureSources,
    gestures: Seq<u16>,
    dpi: Seq<u16>,
    buttons: Seq<(u16, ButtonId)>,
    reports: Seq<Taken>,
) -> Seq<CapturedInput> {
    let acc = held_after(ids, gestures, dpi, buttons, reports.drop_last());
    match reports.last() {
        Taken::Buttons(cids, click) => acc.button_inputs(ids, gestures, dpi, buttons, cids, click),
        Taken::Motion(direction) => acc.motion_inputs(direction),
    }
}

/// What is sent for reports that began at rest.
pub open spec fn sent_for(
    ids: GestureSources,
    gestures: Seq<u16>,
    dpi: Seq<u16>,
    buttons: Seq<(u16, ButtonId)>,
    reports: Seq<Taken>,
) -> Seq<CapturedInput>
    decreases reports.len(),
{
    if reports.len() == 0 {
        Seq::empty()
    } else {
        sent_for(ids, gestures, dpi, buttons, reports.drop_last()) + sent_last(
            ids,
            gestures,
            dpi,
            buttons,
            reports,
        )
    }
}

/// The controls that the last report of controls has down; none before there
/// is one.
pub open spec fn last_down(reports: Seq<Taken>) -> Seq<u16>
    decreases reports.len(),
{
    if reports.len() == 0 {
        Seq::empty()
    } else {
        match reports.last() {
            Taken::Buttons(cids, _) => cids,
            Taken::Motion(_) => last_down(reports.drop_last()),
        }
    }
}

proof fn lemma_held_after(
    ids: GestureSources,
    gestures: Seq<u16>,
    dpi: Seq<u16>,
    buttons: Seq<(u16, ButtonId)>,
    reports: Seq<Taken>,
)
    ensures
        ({
            let acc = held_after(ids, gestures, dpi, buttons, reports);
            &&& forall|i: int|
                0 <= i < buttons.len() ==> (acc.buttons_down.contains((#[trigger] buttons[i]).0)
                    <==> last_down(reports).contains(buttons[i].0))
            &&& forall|k: int|
                0 <= k < acc.gestures_down.len() ==> gestures.contains(
                    #[trigger] acc.gestures_down[k],
                )
        }),
    decreases reports.len(),
{
    if reports.len() > 0 {
        lemma_held_after(ids, gestures, dpi, buttons, reports.drop_last());
        let acc = held_after(ids, gestures, dpi, buttons, reports.drop_last());
        match reports.last() {
            Taken::Buttons(cids, _) => {
                held_buttons_are_the_reported_ones(buttons, cids, acc.buttons_down);
                lemma_held_are_down(ids, gestures, cids);
                let held = held_sources(ids, gestures, cids);
                let after = held_after(ids, gestures, dpi, buttons, reports);
                assert forall|k: int| 0 <= k < after.gestures_down.len() implies gestures.contains(
                    #[trigger] after.gestures_down[k],
                ) by {
                    assert(after.gestures_down[k] == held[k].0);
                }
            },
            Taken::Motion(_) => {},
        }
    }
}

/// Of a plain button, a report of the controls sends one press exactly when
/// the button is down in it and was not in the report of controls before, and
/// one release exactly when it is the other way round. Motion sends neither.
pub proof fn a_button_is_sent_exactly_on_a_change(
    ids: GestureSources,
    gestures: Seq<u16>,
    dpi: Seq<u16>,
    buttons: Seq<(u16, ButtonId)>,
    reports: Seq<Taken>,
    i: int,
)
    requires
        each_is_armed_once(buttons),
        0 <= i < buttons.len(),
        has_own_name(ids, gestures, buttons[i].1),
        reports.len() > 0,
    ensures
        ({
            let (cid, button) = buttons[i];
            let sent = sent_last(ids, gestures, dpi, buttons, reports);
            let was = last_down(reports.drop_last()).contains(cid);
            let now = last_down(reports).contains(cid);
            &&& times(sent, CapturedInput::ButtonDown(button)) == (if now && !was {
                1nat
            } else {
                0nat
            })
            &&& times(sent, CapturedInput::ButtonUp(button)) == (if was && !now {
                1nat
            } else {
                0nat
            })
        }),
{
    let button = buttons[i].1;
    let acc = held_after(ids, gestures, dpi, buttons, reports.drop_last());
    lemma_held_after(ids, gestures, dpi, buttons, reports.drop_last());
    match reports.last() {
        Taken::Buttons(cids, click) => {
            an_edge_is_sent_once(buttons, cids, acc.buttons_down, i);
            lemma_buttons_alone_send(
                acc,
                ids,
                gestures,
                dpi,
                buttons,
                cids,
                click,
                button,
                CapturedInput::ButtonDown(button),
            );
            lemma_buttons_alone_send(
                acc,
                ids,
                gestures,
                dpi,
                buttons,
                cids,
                click,
                button,
                CapturedInput::ButtonUp(button),
            );
        },
        Taken::Motion(_) => {
            reveal_with_fuel(times, 3);
        },
    }
}

/// The presses and releases of a plain button alternate, beginning with a
/// press: at any time, one press more than releases was sent while the button
/// is down, and as many while it is up.
pub proof fn presses_and_releases_alternate(
    ids: GestureSources,
    gestures: Seq<u16>,
    dpi: Seq<u16>,
    buttons: Seq<(u16, ButtonId)>,
    reports: Seq<Taken>,
    i: int,
)
    requires
        each_is_armed_once(buttons),
        0 <= i < buttons.len(),
        has_own_name(ids, gestures, buttons[i].1),
    ensures
        ({
            let (cid, button) = buttons[i];
            let sent = sent_for(ids, gestures, dpi, buttons, reports);
            times(sent, CapturedInput::ButtonDown(button)) == times(
                sent,
                CapturedInput::ButtonUp(button),
            ) + if last_down(reports).contains(cid) {
                1nat
            } else {
                0nat
            }
        }),
    decreases reports.len(),
{
    if reports.len() > 0 {
        let button = buttons[i].1;
        presses_and_releases_alternate(ids, gestures, dpi, buttons, reports.drop_last(), i);
        a_button_is_sent_exactly_on_a_change(ids, gestures, dpi, buttons, reports, i);
        let earlier = sent_for(ids, gestures, dpi, buttons, reports.drop_last());
        let last = sent_last(ids, gestures, dpi, buttons, reports);
        lemma_times_of_both(earlier, last, CapturedInput::ButtonDown(button));
        lemma_times_of_both(earlier, last, CapturedInput::ButtonUp(button));
    }
}

proof fn lemma_in_both(a: Seq<CapturedInput>, b: Seq<CapturedInput>, input: CapturedInput)
    ensures
        (a + b).contains(input) <==> a.contains(input) || b.contains(input),
{
    if a.contains(input) {
        let i = choose|i: int| 0 <= i < a.len() && a[i] == input;
        assert((a + b)[i] == input);
    }
    if b.contains(input) {
        let i = choose|i: int| 0 <= i < b.len() && b[i] == input;
        assert((a + b)[a.len() + i] == input);
    }
    if (a + b).contains(input) {
        let i = choose|i: int| 0 <= i < (a + b).len() && (a + b)[i] == input;
        if i >= a.len() {
            assert(b[i - a.len()] == input);
        }
    }
}

proof fn lemma_in_push(a: Seq<CapturedInput>, x: CapturedInput, input: CapturedInput)
    ensures
        a.push(x).contains(input) <==> a.contains(input) || input == x,
{
    assert(a.push(x) =~= a + seq![x]);
    lemma_in_both(a, seq![x], input);
    assert(seq![x].contains(input) <==> input == x) by {
        assert(seq![x][0] == x);
    }
}

/// Whether a control is a gesture source that is armed and down, under a name.
pub open spec fn source_is_down(
    ids: GestureSources,
    gestures: Seq<u16>,
    cids: Seq<u16>,
    cid: u16,
    button: ButtonId,
) -> bool {
    &&& gestures.contains(cid)
    &&& cids.contains(cid)
    &&& (cid == ids.gesture_button && button == ButtonId::GestureButton) || (cid
        != ids.gesture_button && cid == ids.haptic_panel && button == ButtonId::HapticPanel)
}

proof fn lemma_held_exactly(
    ids: GestureSources,
    gestures: Seq<u16>,
    cids: Seq<u16>,
    cid: u16,
    button: ButtonId,
)
    ensures
        held_sources(ids, gestures, cids).contains((cid, button)) <==> source_is_down(
            ids,
            gestures,
            cids,
            cid,
            button,
        ),
    decreases gestures.len(),
{
    let held = held_sources(ids, gestures, cids);
    if gestures.len() == 0 {
        assert(!gestures.contains(cid));
    } else {
        let rest = gestures.drop_last();
        let before = held_sources(ids, rest, cids);
        lemma_held_exactly(ids, rest, cids, cid, button);
        assert(gestures =~= rest.push(gestures.last()));
        lemma_push_contains(rest, gestures.last(), cid);
        if before.contains((cid, button)) {
            let k = choose|k: int| 0 <= k < before.len() && before[k] == (cid, button);
            assert(held[k] == (cid, button));
        }
        if held.contains((cid, button)) && !before.contains((cid, button)) {
            let k = choose|k: int| 0 <= k < held.len() && held[k] == (cid, button);
            if k < before.len() {
                assert(before[k] == held[k]);
            }
        }
        if source_is_down(ids, gestures, cids, cid, button) && cid == gestures.last() {
            assert(held[before.len() as int] == (cid, button));
        }
    }
}

proof fn lemma_cids_of_held(
    ids: GestureSources,
    gestures: Seq<u16>,
    cids: Seq<u16>,
    cid: u16,
    button: ButtonId,
)
    requires
        ids.spec_button(cid) == Some(button),
    ensures
        cids_of(held_sources(ids, gestures, cids)).contains(cid) <==> source_is_down(
            ids,
            gestures,
            cids,
            cid,
            button,
        ),
{
    let held = held_sources(ids, gestures, cids);
    lemma_held_exactly(ids, gestures, cids, cid, button);
    if held.contains((cid, button)) {
        let k = choose|k: int| 0 <= k < held.len() && held[k] == (cid, button);
        assert(cids_of(held)[k] == cid);
    }
    if cids_of(held).contains(cid) {
        let k = choose|k: int| 0 <= k < cids_of(held).len() && cids_of(held)[k] == cid;
        assert(held.contains(held[k]));
        lemma_held_exactly(ids, gestures, cids, cid, held[k].1);
    }
}

proof fn lemma_up_edges_are(
    ids: GestureSources,
    before: Seq<u16>,
    held: Seq<u16>,
    input: CapturedInput,
)
    ensures
        up_edges(ids, before, held).contains(input) <==> exists|cid: u16|
            #[trigger] before.contains(cid) && !held.contains(cid) && ids.spec_button(cid) is Some
                && input == CapturedInput::ButtonUp(ids.spec_button(cid)->0),
    decreases before.len(),
{
    if before.len() > 0 {
        let rest = before.drop_last();
        let last = before.last();
        lemma_up_edges_are(ids, rest, held, input);
        let earlier = up_edges(ids, rest, held);
        assert(before =~= rest.push(last));
        if let Some(button) = ids.spec_button(last) {
            lemma_in_push(earlier, CapturedInput::ButtonUp(button), input);
        }
        assert forall|cid: u16| #[trigger] before.contains(cid) implies (rest.contains(cid) || cid
            == last) by {
            lemma_push_contains(rest, last, cid);
        }
        assert forall|cid: u16| #[trigger] rest.contains(cid) implies before.contains(cid) by {
            lemma_push_contains(rest, last, cid);
        }
        lemma_push_contains(rest, last, last);
    }
}

proof fn lemma_down_edges_are(
    before: Seq<u16>,
    held: Seq<(u16, ButtonId)>,
    input: CapturedInput,
)
    ensures
        down_edges(before, held).contains(input) <==> exists|k: int|
            0 <= k < held.len() && !before.contains((#[trigger] held[k]).0) && input
                == CapturedInput::ButtonDown(held[k].1),
    decreases held.len(),
{
    if held.len() > 0 {
        let rest = held.drop_last();
        lemma_down_edges_are(before, rest, input);
        lemma_in_push(
            down_edges(before, rest),
            CapturedInput::ButtonDown(held.last().1),
            input,
        );
        assert forall|k: int| 0 <= k < rest.len() implies #[trigger] rest[k] == held[k] by {}
        if down_edges(before, held).contains(input) {
            if down_edges(before, rest).contains(input) {
                let k = choose|k: int|
                    0 <= k < rest.len() && !before.contains((#[trigger] rest[k]).0) && input
                        == CapturedInput::ButtonDown(rest[k].1);
                assert(held[k] == rest[k]);
            } else {
                assert(held[held.len() - 1] == held.last());
            }
        }
        if exists|k: int|
            0 <= k < held.len() && !before.contains((#[trigger] held[k]).0) && input
                == CapturedInput::ButtonDown(held[k].1) {
            let k = choose|k: int|
                0 <= k < held.len() && !before.contains((#[trigger] held[k]).0) && input
                    == CapturedInput::ButtonDown(held[k].1);
            if k < rest.len() {
                assert(rest[k] == held[k]);
            }
        }
    }
}

proof fn lemma_contained_is_counted(inputs: Seq<CapturedInput>, input: CapturedInput)
    ensures
        inputs.contains(input) <==> times(inputs, input) > 0,
    decreases inputs.len(),
{
    if inputs.len() > 0 {
        lemma_contained_is_counted(inputs.drop_last(), input);
        assert(inputs =~= inputs.drop_last().push(inputs.last()));
        lemma_in_push(inputs.drop_last(), inputs.last(), input);
    }
}

proof fn lemma_button_edges_are_edges(
    armed: Seq<(u16, ButtonId)>,
    cids: Seq<u16>,
    before: Seq<u16>,
    input: CapturedInput,
)
    requires
        button_edges(armed, cids, before).1.contains(input),
    ensures
        exists|i: int| 0 <= i < armed.len() && is_edge_of(input, (#[trigger] armed[i]).1),
    decreases armed.len(),
{
    if armed.len() > 0 {
        let rest = armed.drop_last();
        let (down, inputs) = button_edges(rest, cids, before);
        let last = armed[armed.len() - 1];
        lemma_in_push(inputs, CapturedInput::ButtonDown(last.1), input);
        lemma_in_push(inputs, CapturedInput::ButtonUp(last.1), input);
        if inputs.contains(input) {
            lemma_button_edges_are_edges(rest, cids, before, input);
            let i = choose|i: int|
                0 <= i < rest.len() && is_edge_of(input, (#[trigger] rest[i]).1);
            assert(is_edge_of(input, armed[i].1));
        } else {
            assert(is_edge_of(input, last.1));
        }
    } else {
        assert(!Seq::<CapturedInput>::empty().contains(input));
    }
}

proof fn lemma_parts(
    acc: AccumModel,
    ids: GestureSources,
    gestures: Seq<u16>,
    dpi: Seq<u16>,
    buttons: Seq<(u16, ButtonId)>,
    cids: Seq<u16>,
    click: bool,
    input: CapturedInput,
)
    ensures
        ({
            let held = held_sources(ids, gestures, cids);
            let inputs = acc.button_inputs(ids, gestures, dpi, buttons, cids, click);
            inputs.contains(input) <==> {
                ||| click && (acc.gesture_source matches Some((cid, button)) && !cids.contains(cid)
                    && input == CapturedInput::Gesture(button, GestureDirection::Click))
                ||| up_edges(ids, acc.gestures_down, cids_of(held)).contains(input)
                ||| down_edges(acc.gestures_down, held).contains(input)
                ||| dpi_edge(acc.dpi_down, any_down(dpi, cids)).contains(input)
                ||| button_edges(buttons, cids, acc.buttons_down).1.contains(input)
            }
        }),
{
    let held = held_sources(ids, gestures, cids);
    let ups = up_edges(ids, acc.gestures_down, cids_of(held));
    let downs = down_edges(acc.gestures_down, held);
    let toggles = dpi_edge(acc.dpi_down, any_down(dpi, cids));
    let edges = button_edges(buttons, cids, acc.buttons_down).1;
    let none = Seq::<CapturedInput>::empty();
    let clicks = match acc.gesture_source {
        Some((cid, button)) if !cids.contains(cid) && click => seq![
            CapturedInput::Gesture(button, GestureDirection::Click),
        ],
        _ => none,
    };
    assert(!none.contains(input));
    if let Some((cid, button)) = acc.gesture_source {
        let one = CapturedInput::Gesture(button, GestureDirection::Click);
        assert(seq![one] =~= none.push(one));
        lemma_in_push(none, one, input);
    }
    assert(acc.button_inputs(ids, gestures, dpi, buttons, cids, click) =~= clicks + ups + downs
        + toggles + edges);
    lemma_in_both(clicks, ups, input);
    lemma_in_both(clicks + ups, downs, input);
    lemma_in_both(clicks + ups + downs, toggles, input);
    lemma_in_both(clicks + ups + downs + toggles, edges, input);
}

proof fn lemma_dpi_edges_are(was_down: bool, down: bool, input: CapturedInput)
    ensures
        dpi_edge(was_down, down).contains(input) <==> {
            ||| down && !was_down && input == CapturedInput::ButtonDown(ButtonId::DpiToggle)
            ||| !down && was_down && input == CapturedInput::ButtonUp(ButtonId::DpiToggle)
        },
{
    let none = Seq::<CapturedInput>::empty();
    assert(!none.contains(input));
    let pressed = CapturedInput::ButtonDown(ButtonId::DpiToggle);
    let released = CapturedInput::ButtonUp(ButtonId::DpiToggle);
    assert(seq![pressed] =~= none.push(pressed));
    assert(seq![released] =~= none.push(released));
    lemma_in_push(none, pressed, input);
    lemma_in_push(none, released, input);
}

/// A report of the controls sends a gesture exactly when the source that owned
/// the motion is no longer down and the swipe detector says that its hold was a
/// click. That is then the click of this source, once, before everything else.
/// A hold that committed a direction is no click and sends no gesture.
pub proof fn a_gesture_of_a_report_is_the_click_of_an_ended_hold(
    acc: AccumModel,
    ids: GestureSources,
    gestures: Seq<u16>,
    dpi: Seq<u16>,
    buttons: Seq<(u16, ButtonId)>,
    cids: Seq<u16>,
    click: bool,
    button: ButtonId,
    direction: GestureDirection,
)
    ensures
        ({
            let inputs = acc.button_inputs(ids, gestures, dpi, buttons, cids, click);
            let gesture = CapturedInput::Gesture(button, direction);
            &&& inputs.contains(gesture) <==> click && direction == GestureDirection::Click && (
            acc.gesture_source matches Some((cid, owner)) && owner == button && !cids.contains(cid))
            &&& inputs.contains(gesture) ==> inputs[0] == gesture
            &&& times(inputs, gesture) <= 1
        }),
{
    let gesture = CapturedInput::Gesture(button, direction);
    let held = held_sources(ids, gestures, cids);
    let inputs = acc.button_inputs(ids, gestures, dpi, buttons, cids, click);
    lemma_parts(acc, ids, gestures, dpi, buttons, cids, click, gesture);
    lemma_up_edges_are(ids, acc.gestures_down, cids_of(held), gesture);
    lemma_down_edges_are(acc.gestures_down, held, gesture);
    lemma_dpi_edges_are(acc.dpi_down, any_down(dpi, cids), gesture);
    let edges = button_edges(buttons, cids, acc.buttons_down).1;
    if edges.contains(gesture) {
        lemma_button_edges_are_edges(buttons, cids, acc.buttons_down, gesture);
    }
    let ups = up_edges(ids, acc.gestures_down, cids_of(held));
    let downs = down_edges(acc.gestures_down, held);
    let toggles = dpi_edge(acc.dpi_down, any_down(dpi, cids));
    let rest = ups + downs + toggles + edges;
    lemma_in_both(ups, downs, gesture);
    lemma_in_both(ups + downs, toggles, gesture);
    lemma_in_both(ups + downs + toggles, edges, gesture);
    lemma_contained_is_counted(rest, gesture);
    if inputs.contains(gesture) {
        assert(inputs =~= seq![gesture] + rest);
        lemma_times_of_both(seq![gesture], rest, gesture);
        reveal_with_fuel(times, 3);
        assert(seq![gesture].drop_last() =~= Seq::<CapturedInput>::empty());
    } else {
        lemma_contained_is_counted(inputs, gesture);
    }
}

/// A control is sent as going down exactly when it was not held and a report has
/// it down: a gesture source that is armed, the DPI controls as one, or a plain
/// button.
pub proof fn what_goes_down_is_sent(
    acc: AccumModel,
    ids: GestureSources,
    gestures: Seq<u16>,
    dpi: Seq<u16>,
    buttons: Seq<(u16, ButtonId)>,
    cids: Seq<u16>,
    click: bool,
    button: ButtonId,
)
    requires
        each_is_armed_once(buttons),
    ensures
        acc.button_inputs(ids, gestures, dpi, buttons, cids, click).contains(
            CapturedInput::ButtonDown(button),
        ) <==> {
            ||| exists|cid: u16|
                #[trigger] source_is_down(ids, gestures, cids, cid, button)
                    && !acc.gestures_down.contains(cid)
            ||| button == ButtonId::DpiToggle && !acc.dpi_down && exists|i: int|
                0 <= i < dpi.len() && cids.contains(#[trigger] dpi[i])
            ||| exists|i: int|
                0 <= i < buttons.len() && (#[trigger] buttons[i]).1 == button && cids.contains(
                    buttons[i].0,
                ) && !acc.buttons_down.contains(buttons[i].0)
        },
{
    let input = CapturedInput::ButtonDown(button);
    let held = held_sources(ids, gestures, cids);
    let downs = down_edges(acc.gestures_down, held);
    let edges = button_edges(buttons, cids, acc.buttons_down).1;
    lemma_parts(acc, ids, gestures, dpi, buttons, cids, click, input);
    lemma_up_edges_are(ids, acc.gestures_down, cids_of(held), input);
    lemma_down_edges_are(acc.gestures_down, held, input);
    lemma_dpi_edges_are(acc.dpi_down, any_down(dpi, cids), input);
    lemma_contained_is_counted(edges, input);
    if downs.contains(input) {
        let k = choose|k: int|
            0 <= k < held.len() && !acc.gestures_down.contains((#[trigger] held[k]).0) && input
                == CapturedInput::ButtonDown(held[k].1);
        assert(held.contains(held[k]));
        lemma_held_exactly(ids, gestures, cids, held[k].0, button);
        assert(source_is_down(ids, gestures, cids, held[k].0, button));
    }
    if exists|cid: u16|
        #[trigger] source_is_down(ids, gestures, cids, cid, button) && !acc.gestures_down.contains(
            cid,
        ) {
        let cid = choose|cid: u16|
            #[trigger] source_is_down(ids, gestures, cids, cid, button)
                && !acc.gestures_down.contains(cid);
        lemma_held_exactly(ids, gestures, cids, cid, button);
        let k = choose|k: int| 0 <= k < held.len() && held[k] == (cid, button);
        assert(!acc.gestures_down.contains(held[k].0));
    }
    if edges.contains(input) {
        lemma_button_edges_are_edges(buttons, cids, acc.buttons_down, input);
        let i = choose|i: int| 0 <= i < buttons.len() && is_edge_of(input, (#[trigger] buttons[i]).1);
        an_edge_is_sent_once(buttons, cids, acc.buttons_down, i);
    }
    if exists|i: int|
        0 <= i < buttons.len() && (#[trigger] buttons[i]).1 == button && cids.contains(
            buttons[i].0,
        ) && !acc.buttons_down.contains(buttons[i].0) {
        let i = choose|i: int|
            0 <= i < buttons.len() && (#[trigger] buttons[i]).1 == button && cids.contains(
                buttons[i].0,
            ) && !acc.buttons_down.contains(buttons[i].0);
        an_edge_is_sent_once(buttons, cids, acc.buttons_down, i);
    }
}

/// A control is sent as going up exactly when it was held and a report no longer
/// has it down, or it is a gesture source that is no longer armed.
pub proof fn what_goes_up_is_sent(
    acc: AccumModel,
    ids: GestureSources,
    gestures: Seq<u16>,
    dpi: Seq<u16>,
    buttons: Seq<(u16, ButtonId)>,
    cids: Seq<u16>,
    click: bool,
    button: ButtonId,
)
    requires
        each_is_armed_once(buttons),
    ensures
        acc.button_inputs(ids, gestures, dpi, buttons, cids, click).contains(
            CapturedInput::ButtonUp(button),
        ) <==> {
            ||| exists|cid: u16|
                #[trigger] acc.gestures_down.contains(cid) && ids.spec_button(cid) == Some(button)
                    && !(gestures.contains(cid) && cids.contains(cid))
            ||| button == ButtonId::DpiToggle && acc.dpi_down && forall|i: int|
                0 <= i < dpi.len() ==> !cids.contains(#[trigger] dpi[i])
            ||| exists|i: int|
                0 <= i < buttons.len() && (#[trigger] buttons[i]).1 == button && !cids.contains(
                    buttons[i].0,
                ) && acc.buttons_down.contains(buttons[i].0)
        },
{
    let input = CapturedInput::ButtonUp(button);
    let held = held_sources(ids, gestures, cids);
    let ups = up_edges(ids, acc.gestures_down, cids_of(held));
    let edges = button_edges(buttons, cids, acc.buttons_down).1;
    lemma_parts(acc, ids, gestures, dpi, buttons, cids, click, input);
    lemma_up_edges_are(ids, acc.gestures_down, cids_of(held), input);
    lemma_down_edges_are(acc.gestures_down, held, input);
    lemma_dpi_edges_are(acc.dpi_down, any_down(dpi, cids), input);
    lemma_contained_is_counted(edges, input);
    assert forall|cid: u16| ids.spec_button(cid) == Some(button) implies (#[trigger] cids_of(
        held,
    ).contains(cid) <==> gestures.contains(cid) && cids.contains(cid)) by {
        lemma_cids_of_held(ids, gestures, cids, cid, button);
    }
    if ups.contains(input) {
        let cid = choose|cid: u16|
            #[trigger] acc.gestures_down.contains(cid) && !cids_of(held).contains(cid)
                && ids.spec_button(cid) is Some && input == CapturedInput::ButtonUp(
                ids.spec_button(cid)->0,
            );
        assert(ids.spec_button(cid) == Some(button));
    }
    if exists|cid: u16|
        #[trigger] acc.gestures_down.contains(cid) && ids.spec_button(cid) == Some(button) && !(
        gestures.contains(cid) && cids.contains(cid)) {
        let cid = choose|cid: u16|
            #[trigger] acc.gestures_down.contains(cid) && ids.spec_button(cid) == Some(button) && !(
            gestures.contains(cid) && cids.contains(cid));
        assert(!cids_of(held).contains(cid));
    }
    if edges.contains(input) {
        lemma_button_edges_are_edges(buttons, cids, acc.buttons_down, input);
        let i = choose|i: int| 0 <= i < buttons.len() && is_edge_of(input, (#[trigger] buttons[i]).1);
        an_edge_is_sent_once(buttons, cids, acc.buttons_down, i);
    }
    if exists|i: int|
        0 <= i < buttons.len() && (#[trigger] buttons[i]).1 == button && !cids.contains(
            buttons[i].0,
        ) && acc.buttons_down.contains(buttons[i].0) {
        let i = choose|i: int|
            0 <= i < buttons.len() && (#[trigger] buttons[i]).1 == button && !cids.contains(
                buttons[i].0,
            ) && acc.buttons_down.contains(buttons[i].0);
        an_edge_is_sent_once(buttons, cids, acc.buttons_down, i);
    }
}

/// Motion sends at most one thing: the direction that the swipe detector found,
/// for the source that owns the motion. It does so exactly when that source is
/// held alone and the contact jump of the panel is over.
pub proof fn motion_sends_the_direction_of_the_owner(
    acc: AccumModel,
    found: Option<GestureDirection>,
    input: CapturedInput,
)
    ensures
        ({
            let inputs = acc.motion_inputs(found);
            &&& inputs.len() <= 1
            &&& inputs.contains(input) <==> {
                &&& found matches Some(direction) && (acc.gesture_source matches Some((_, owner))
                    && input == CapturedInput::Gesture(owner, direction))
                &&& !acc.overlap
                &&& !acc.skip_first_raw_xy
            }
        }),
{
    let inputs = acc.motion_inputs(found);
    if inputs.contains(input) {
        let i = choose|i: int| 0 <= i < inputs.len() && inputs[i] == input;
    }
    if inputs.len() > 0 {
        assert(inputs.contains(inputs[0]));
    }
}

/// After a report, a gesture source counts as held exactly when it is armed and
/// down, and the DPI controls exactly when one of them is down.
pub proof fn held_sources_are_the_reported_ones(
    acc: AccumModel,
    ids: GestureSources,
    gestures: Seq<u16>,
    dpi: Seq<u16>,
    buttons: Seq<(u16, ButtonId)>,
    cids: Seq<u16>,
    cid: u16,
)
    requires
        cid == ids.gesture_button || cid == ids.haptic_panel,
    ensures
        ({
            let next = acc.after_buttons(ids, gestures, dpi, buttons, cids);
            &&& next.gestures_down.contains(cid) <==> gestures.contains(cid) && cids.contains(cid)
            &&& next.dpi_down <==> exists|i: int|
                0 <= i < dpi.len() && cids.contains(#[trigger] dpi[i])
        }),
{
    lemma_cids_of_held(ids, gestures, cids, cid, ids.spec_button(cid)->0);
}

proof fn lemma_first_held(
    ids: GestureSources,
    gestures: Seq<u16>,
    cids: Seq<u16>,
)
    ensures
        ({
            let held = held_sources(ids, gestures, cids);
            held.len() > 0 ==> exists|i: int|
                0 <= i < gestures.len() && #[trigger] gestures[i] == held[0].0 && forall|j: int|
                    0 <= j < i ==> !(cids.contains(#[trigger] gestures[j]) && ids.spec_button(
                        gestures[j],
                    ) is Some)
        }),
        held_sources(ids, gestures, cids).len() == 0 ==> forall|j: int|
            0 <= j < gestures.len() ==> !(cids.contains(#[trigger] gestures[j])
                && ids.spec_button(gestures[j]) is Some),
    decreases gestures.len(),
{
    if gestures.len() > 0 {
        let rest = gestures.drop_last();
        lemma_first_held(ids, rest, cids);
        let before = held_sources(ids, rest, cids);
        let held = held_sources(ids, gestures, cids);
        assert forall|j: int| 0 <= j < rest.len() implies #[trigger] rest[j] == gestures[j] by {}
        if before.len() > 0 {
            assert(held[0] == before[0]);
            let i = choose|i: int|
                0 <= i < rest.len() && #[trigger] rest[i] == before[0].0 && forall|j: int|
                    0 <= j < i ==> !(cids.contains(#[trigger] rest[j]) && ids.spec_button(
                        rest[j],
                    ) is Some);
            assert(gestures[i] == held[0].0);
            assert forall|j: int| 0 <= j < i implies !(cids.contains(#[trigger] gestures[j])
                && ids.spec_button(gestures[j]) is Some) by {
                assert(rest[j] == gestures[j]);
            }
        } else {
            assert forall|j: int| 0 <= j < rest.len() implies !(cids.contains(
                #[trigger] gestures[j],
            ) && ids.spec_button(gestures[j]) is Some) by {
                assert(rest[j] == gestures[j]);
            }
            if held.len() > 0 {
                assert(gestures[gestures.len() - 1] == held[0].0);
            }
        }
    }
}

/// The source that owns the motion keeps it for as long as it is down. When it
/// does not, the first armed source that is down takes it, under its own name,
/// which begins a hold; where none is down, nobody owns it.
pub proof fn the_first_source_down_owns_the_motion(
    acc: AccumModel,
    ids: GestureSources,
    gestures: Seq<u16>,
    dpi: Seq<u16>,
    buttons: Seq<(u16, ButtonId)>,
    cids: Seq<u16>,
)
    ensures
        ({
            let next = acc.after_buttons(ids, gestures, dpi, buttons, cids);
            let kept = acc.gesture_source matches Some((cid, _)) && cids.contains(cid);
            &&& kept ==> next.gesture_source == acc.gesture_source
            &&& !kept ==> match next.gesture_source {
                Some((cid, button)) => {
                    &&& source_is_down(ids, gestures, cids, cid, button)
                    &&& exists|i: int|
                        0 <= i < gestures.len() && #[trigger] gestures[i] == cid && forall|j: int|
                            0 <= j < i ==> !(cids.contains(#[trigger] gestures[j])
                                && ids.spec_button(gestures[j]) is Some)
                },
                None => forall|cid: u16, button: ButtonId|
                    !(#[trigger] source_is_down(ids, gestures, cids, cid, button)),
            }
            &&& acc.begins_hold(ids, gestures, cids) <==> !kept && next.gesture_source is Some
        }),
{
    let held = held_sources(ids, gestures, cids);
    lemma_first_held(ids, gestures, cids);
    if held.len() > 0 {
        assert(held.contains(held[0]));
        lemma_held_exactly(ids, gestures, cids, held[0].0, held[0].1);
    } else {
        assert forall|cid: u16, button: ButtonId|
            !(#[trigger] source_is_down(ids, gestures, cids, cid, button)) by {
            lemma_held_exactly(ids, gestures, cids, cid, button);
        }
    }
}

/// While a hold goes on, a second source counts as held beside the owner exactly
/// when two armed sources are down.
pub proof fn a_second_source_is_noticed(
    acc: AccumModel,
    ids: GestureSources,
    gestures: Seq<u16>,
    dpi: Seq<u16>,
    buttons: Seq<(u16, ButtonId)>,
    cids: Seq<u16>,
)
    requires
        acc.after_buttons(ids, gestures, dpi, buttons, cids).gesture_source is Some,
    ensures
        acc.after_buttons(ids, gestures, dpi, buttons, cids).overlap <==> exists|i: int, j: int|
            0 <= i < j < gestures.len() && cids.contains(#[trigger] gestures[i])
                && ids.spec_button(gestures[i]) is Some && cids.contains(#[trigger] gestures[j])
                && ids.spec_button(gestures[j]) is Some,
{
    lemma_two_held(ids, gestures, cids);
}

proof fn lemma_two_held(ids: GestureSources, gestures: Seq<u16>, cids: Seq<u16>)
    ensures
        held_sources(ids, gestures, cids).len() > 1 <==> exists|i: int, j: int|
            0 <= i < j < gestures.len() && cids.contains(#[trigger] gestures[i])
                && ids.spec_button(gestures[i]) is Some && cids.contains(#[trigger] gestures[j])
                && ids.spec_button(gestures[j]) is Some,
    decreases gestures.len(),
{
    if gestures.len() > 0 {
        let rest = gestures.drop_last();
        lemma_two_held(ids, rest, cids);
        lemma_first_held(ids, rest, cids);
        let before = held_sources(ids, rest, cids);
        let last = gestures.len() - 1;
        assert forall|j: int| 0 <= j < rest.len() implies #[trigger] rest[j] == gestures[j] by {}
        if held_sources(ids, gestures, cids).len() > 1 {
            if before.len() > 1 {
                let (i, j) = choose|i: int, j: int|
                    0 <= i < j < rest.len() && cids.contains(#[trigger] rest[i])
                        && ids.spec_button(rest[i]) is Some && cids.contains(#[trigger] rest[j])
                        && ids.spec_button(rest[j]) is Some;
                assert(cids.contains(gestures[i]) && cids.contains(gestures[j]));
            } else {
                assert(before.contains(before[0]));
                lemma_held_exactly(ids, rest, cids, before[0].0, before[0].1);
                let i = choose|i: int| 0 <= i < rest.len() && rest[i] == before[0].0;
                assert(cids.contains(gestures[i]) && cids.contains(gestures[last]));
            }
        }
        if exists|i: int, j: int|
            0 <= i < j < gestures.len() && cids.contains(#[trigger] gestures[i])
                && ids.spec_button(gestures[i]) is Some && cids.contains(#[trigger] gestures[j])
                && ids.spec_button(gestures[j]) is Some {
            let (i, j) = choose|i: int, j: int|
                0 <= i < j < gestures.len() && cids.contains(#[trigger] gestures[i])
                    && ids.spec_button(gestures[i]) is Some && cids.contains(#[trigger] gestures[j])
                    && ids.spec_button(gestures[j]) is Some;
            assert(cids.contains(rest[i]));
            if j < last {
                assert(cids.contains(rest[j]));
            }
        }
    }
}

/// What the swipe detector was not asked does not count: a report that ends no
/// hold sends the same whatever the detector says of a click, and motion that is
/// not handed to it sends nothing. What is handed to it is the motion itself.
pub proof fn only_what_was_asked_counts(
    acc: AccumModel,
    ids: GestureSources,
    gestures: Seq<u16>,
    dpi: Seq<u16>,
    buttons: Seq<(u16, ButtonId)>,
    event: RawControlEvent,
    found: Option<GestureDirection>,
)
    ensures
        match event {
            RawControlEvent::DivertedButtons(cids) => {
                &&& acc.query(event) is End <==> acc.button_inputs(
                    ids,
                    gestures,
                    dpi,
                    buttons,
                    cids@,
                    true,
                ) != acc.button_inputs(ids, gestures, dpi, buttons, cids@, false)
                &&& !(acc.query(event) is Accumulate)
            },
            RawControlEvent::RawXy { dx, dy } => {
                &&& acc.query(event) == SwipeQuery::Accumulate { dx: dx as i32, dy: dy as i32 }
                    || acc.query(event) is Nothing
                &&& acc.query(event) is Nothing ==> acc.motion_inputs(found).len() == 0
                &&& acc.query(event) is Accumulate && found is Some ==> acc.motion_inputs(
                    found,
                ).len() == 1
            },
        },
{
    match event {
        RawControlEvent::DivertedButtons(cids) => {
            if let Some((cid, button)) = acc.gesture_source {
                a_gesture_of_a_report_is_the_click_of_an_ended_hold(
                    acc,
                    ids,
                    gestures,
                    dpi,
                    buttons,
                    cids@,
                    true,
                    button,
                    GestureDirection::Click,
                );
                a_gesture_of_a_report_is_the_click_of_an_ended_hold(
                    acc,
                    ids,
                    gestures,
                    dpi,
                    buttons,
                    cids@,
                    false,
                    button,
                    GestureDirection::Click,
                );
            }
        },
        RawControlEvent::RawXy { .. } => {},
    }
}

/// The gesture button and the haptic panel go by their own names, and no other
/// control is a gesture source.
pub proof fn the_name_of_a_source_is_its_own(ids: GestureSources, cid: u16)
    ensures
        ids.spec_button(cid) == Some(ButtonId::GestureButton) <==> cid == ids.gesture_button,
        ids.spec_button(cid) == Some(ButtonId::HapticPanel) <==> cid == ids.haptic_panel && cid
            != ids.gesture_button,
        ids.spec_button(cid) is Some <==> cid == ids.gesture_button || cid == ids.haptic_panel,
{
}

/// Motion changes nothing but that the contact jump of the panel is over: once the
/// source that owns the motion is held alone, only the first sample is dropped.
pub proof fn only_one_sample_is_dropped(
    acc: AccumModel,
    found: Option<GestureDirection>,
    direction: GestureDirection,
)
    ensures
        ({
            let after = acc.after_motion();
            &&& acc.gesture_source is Some && !acc.overlap ==> !after.skip_first_raw_xy
                && after.motion_inputs(Some(direction)).len() == 1
            &&& acc.gesture_source is None || acc.overlap ==> after == acc
            &&& after == (AccumModel { skip_first_raw_xy: after.skip_first_raw_xy, ..acc })
        }),
{
}

} // verus!
