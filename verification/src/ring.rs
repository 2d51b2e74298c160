//! The Actions Ring overlay: which ring is open, what it shows, and what is
//! reported to the agent.
//!
//! The overlay only renders the actions that the agent hands it and reports
//! hover, activate and cancel interactions of the ring that is open.

use vstd::prelude::*;

verus! {

/// One slot of the ring.
#[derive(Clone, Copy, Debug, PartialEq, Eq, Structural)]
pub struct ActionRingSlot {
    /// Position of the slot on the ring.
    pub index: usize,
}

/// What one slot shows.
#[derive(Clone, Debug, PartialEq, Eq)]
pub struct SlotPresentation {
    /// Label shown while the slot is hovered.
    pub label: String,
    /// Whether the user wrote the label, so that it is never translated.
    pub literal: bool,
    /// Identifier of the icon.
    pub icon: u16,
}

/// A request of the agent to open a ring. One without slots closes the ring
/// that is open.
#[derive(Clone, Debug, PartialEq, Eq)]
pub struct ActionRingInvocation {
    /// Session that every interaction with this ring names.
    pub session_id: u64,
    /// The occupied slots.
    pub slots: Vec<(ActionRingSlot, SlotPresentation)>,
    /// Language to render in, when the user chose one.
    pub language: Option<String>,
}

/// What the overlay reports to the agent.
#[derive(Clone, Copy, Debug, PartialEq, Eq, Structural)]
pub enum OverlayCommand {
    /// The pointer entered a slot.
    Hover { session_id: u64, slot: ActionRingSlot },
    /// A slot was chosen.
    Activate { session_id: u64, slot: ActionRingSlot },
    /// The ring was closed without choosing.
    Cancel { session_id: u64 },
}

impl OverlayCommand {
    /// Whether the command ends its session.
    pub open spec fn spec_is_terminal(self) -> bool {
        self is Activate || self is Cancel
    }

    /// The session the command belongs to.
    pub open spec fn spec_session(self) -> u64 {
        match self {
            OverlayCommand::Hover { session_id, .. } => session_id,
            OverlayCommand::Activate { session_id, .. } => session_id,
            OverlayCommand::Cancel { session_id } => session_id,
        }
    }

    /// Whether the command ends its session.
    pub fn is_terminal(self) -> (r: bool)
        ensures
            r == self.spec_is_terminal(),
    {
        match self {
            OverlayCommand::Hover { .. } => false,
            OverlayCommand::Activate { .. } => true,
            OverlayCommand::Cancel { .. } => true,
        }
    }

    /// The session the command belongs to.
    pub fn session(self) -> (r: u64)
        ensures
            r == self.spec_session(),
    {
        match self {
            OverlayCommand::Hover { session_id, .. } => session_id,
            OverlayCommand::Activate { session_id, .. } => session_id,
            OverlayCommand::Cancel { session_id } => session_id,
        }
    }
}

/// Whether `session_id` is the session of the ring that is open.
pub fn session_targets(session_id: u64, open_session: Option<u64>) -> (r: bool)
    ensures
        r == (open_session == Some(session_id)),
{
    match open_session {
        Some(open) => open == session_id,
        None => false,
    }
}

/// Session the click-away monitor may dismiss; zero means no ring is showing.
#[derive(Clone, Copy, Debug, PartialEq, Eq, Structural)]
pub struct ClickAwaySession {
    session: u64,
}

impl View for ClickAwaySession {
    type V = u64;

    closed spec fn view(&self) -> u64 {
        self.session
    }
}

impl ClickAwaySession {
    /// No ring is showing.
    pub fn new() -> (r: Self)
        ensures
            r@ == 0,
    {
        ClickAwaySession { session: 0 }
    }

    /// Publish which ring is showing, or zero while none is.
    pub fn set(&mut self, session_id: u64)
        ensures
            final(self)@ == session_id,
    {
        self.session = session_id;
    }

    /// Forget the showing session so later clicks cannot name it.
    pub fn clear(&mut self)
        ensures
            final(self)@ == 0,
    {
        self.set(0);
    }

    /// Session at click time, or `None` when no ring is showing.
    pub fn observe(&self) -> (r: Option<u64>)
        ensures
            r == (if self@ == 0 {
                None::<u64>
            } else {
                Some(self@)
            }),
    {
        if self.session == 0 {
            None
        } else {
            Some(self.session)
        }
    }
}

/// Whether the click still names the ring that is open.
pub open spec fn spec_click_away_targets(observed: u64, open: u64) -> bool {
    observed != 0 && observed == open
}

/// Whether the click still names the ring that is open.
pub fn click_away_targets(observed: u64, open: u64) -> (r: bool)
    ensures
        r == spec_click_away_targets(observed, open),
{
    observed != 0 && observed == open
}

/// A click that was observed while one ring was showing never closes a ring of
/// another session.
pub proof fn a_queued_click_never_targets_another_ring(observed: u64, open: u64)
    ensures
        observed != open ==> !spec_click_away_targets(observed, open),
        open == 0 ==> !spec_click_away_targets(observed, open),
{
}

/// What has to happen to the native window after a ring closes.
#[derive(Clone, Copy, Debug, PartialEq, Eq, Structural)]
pub enum WindowFate {
    /// Hide the window and keep it for the next ring.
    Hide,
    /// Destroy the window.
    Remove,
}

/// The state behind one ring window.
pub struct RingView {
    invocation: Option<ActionRingInvocation>,
    hovered: Option<ActionRingSlot>,
    persistent: bool,
}

/// The parts of a ring window that its behaviour depends on.
pub ghost struct RingModel {
    /// The ring that is open.
    pub invocation: Option<ActionRingInvocation>,
    /// The slot under the pointer.
    pub hovered: Option<ActionRingSlot>,
    /// Whether the window outlives its rings.
    pub persistent: bool,
}

impl RingModel {
    /// The session of the ring that is open.
    pub open spec fn session(self) -> Option<u64> {
        match self.invocation {
            Some(i) => Some(i.session_id),
            None => None,
        }
    }

    /// The window with no ring in it.
    pub open spec fn closed(self) -> RingModel {
        RingModel { invocation: None, hovered: None, ..self }
    }

    /// What closing this window asks of the native window.
    pub open spec fn fate(self) -> WindowFate {
        if self.persistent {
            WindowFate::Hide
        } else {
            WindowFate::Remove
        }
    }
}

impl View for RingView {
    type V = RingModel;

    closed spec fn view(&self) -> RingModel {
        RingModel {
            invocation: self.invocation,
            hovered: self.hovered,
            persistent: self.persistent,
        }
    }
}

/// The presentation of `slot` among `slots`.
pub open spec fn slot_index(
    slots: Seq<(ActionRingSlot, SlotPresentation)>,
    slot: ActionRingSlot,
) -> Option<int>
    decreases slots.len(),
{
    if slots.len() == 0 {
        None
    } else if slots.last().0 == slot {
        match slot_index(slots.drop_last(), slot) {
            Some(i) => Some(i),
            None => Some(slots.len() - 1),
        }
    } else {
        slot_index(slots.drop_last(), slot)
    }
}

/// The text shown in the middle of the ring.
#[derive(Clone, Debug, PartialEq, Eq)]
pub enum RingLabel {
    /// Text of the user's own, shown as it is.
    Verbatim(String),
    /// Key to look up in the catalog of the active language.
    Translate(String),
}

impl RingView {
    /// A window that shows `invocation`, or that waits hidden for one.
    pub fn new(invocation: Option<ActionRingInvocation>, persistent: bool) -> (r: Self)
        ensures
            r@ == (RingModel { invocation, hovered: None, persistent }),
    {
        RingView { invocation, hovered: None, persistent }
    }

    /// The session of the ring that is open.
    pub fn current_session(&self) -> (r: Option<u64>)
        ensures
            r == self@.session(),
    {
        match &self.invocation {
            Some(invocation) => Some(invocation.session_id),
            None => None,
        }
    }

    /// Show `invocation`, with no slot hovered.
    pub fn install(&mut self, invocation: ActionRingInvocation)
        ensures
            final(self)@ == (RingModel {
                invocation: Some(invocation),
                hovered: None,
                persistent: old(self)@.persistent,
            }),
    {
        self.hovered = None;
        self.invocation = Some(invocation);
    }

    /// Close whatever ring is open and say what becomes of the window.
    pub fn close(&mut self, live: &mut ClickAwaySession) -> (r: WindowFate)
        ensures
            final(self)@ == old(self)@.closed(),
            final(live)@ == 0,
            r == old(self)@.fate(),
    {
        self.hovered = None;
        self.invocation = None;
        live.clear();
        if self.persistent {
            WindowFate::Hide
        } else {
            WindowFate::Remove
        }
    }

    /// Close the ring only while `session_id` is the one that is open.
    /// `None` leaves everything as it was.
    pub fn dismiss(&mut self, session_id: u64, live: &mut ClickAwaySession) -> (r: Option<
        WindowFate,
    >)
        ensures
            r is Some <==> old(self)@.session() == Some(session_id),
            r matches Some(fate) ==> fate == old(self)@.fate() && final(self)@ == old(
                self,
            )@.closed() && final(live)@ == 0,
            r is None ==> final(self)@ == old(self)@ && final(live)@ == old(live)@,
    {
        if !session_targets(session_id, self.current_session()) {
            return None;
        }
        Some(self.close(live))
    }

    /// The pointer entered or left `slot` of session `session_id`. Entering a
    /// slot that was not hovered is reported once; leaving is not reported.
    /// The flag says whether the view has to be drawn again.
    pub fn hover(&mut self, session_id: u64, slot: ActionRingSlot, entered: bool) -> (r: (
        Option<OverlayCommand>,
        bool,
    ))
        ensures
            ({
                let fresh = entered && old(self)@.hovered != Some(slot);
                let left = !entered && old(self)@.hovered == Some(slot);
                &&& r.0 == (if fresh {
                    Some(OverlayCommand::Hover { session_id, slot })
                } else {
                    None::<OverlayCommand>
                })
                &&& r.1 == (fresh || left)
                &&& final(self)@ == (RingModel {
                    hovered: if fresh {
                        Some(slot)
                    } else if left {
                        None
                    } else {
                        old(self)@.hovered
                    },
                    ..old(self)@
                })
            }),
    {
        let on_slot = match self.hovered {
            Some(current) => current == slot,
            None => false,
        };
        if entered && !on_slot {
            self.hovered = Some(slot);
            (Some(OverlayCommand::Hover { session_id, slot }), true)
        } else if !entered && on_slot {
            self.hovered = None;
            (None, true)
        } else {
            (None, false)
        }
    }

    /// `slot` was clicked: report it and close its ring.
    pub fn activate(
        &mut self,
        session_id: u64,
        slot: ActionRingSlot,
        live: &mut ClickAwaySession,
    ) -> (r: (OverlayCommand, Option<WindowFate>))
        ensures
            r.0 == (OverlayCommand::Activate { session_id, slot }),
            r.1 is Some <==> old(self)@.session() == Some(session_id),
            r.1 matches Some(fate) ==> fate == old(self)@.fate() && final(self)@ == old(
                self,
            )@.closed() && final(live)@ == 0,
            r.1 is None ==> final(self)@ == old(self)@ && final(live)@ == old(live)@,
    {
        let fate = self.dismiss(session_id, live);
        (OverlayCommand::Activate { session_id, slot }, fate)
    }

    /// The ring's centre or background was clicked: report the cancellation
    /// and close the ring.
    pub fn cancel(&mut self, session_id: u64, live: &mut ClickAwaySession) -> (r: (
        OverlayCommand,
        Option<WindowFate>,
    ))
        ensures
            r.0 == (OverlayCommand::Cancel { session_id }),
            r.1 is Some <==> old(self)@.session() == Some(session_id),
            r.1 matches Some(fate) ==> fate == old(self)@.fate() && final(self)@ == old(
                self,
            )@.closed() && final(live)@ == 0,
            r.1 is None ==> final(self)@ == old(self)@ && final(live)@ == old(live)@,
    {
        let fate = self.dismiss(session_id, live);
        (OverlayCommand::Cancel { session_id }, fate)
    }

    /// The display time of the ring of `session_id` is over. A ring that was
    /// closed or replaced meanwhile is left alone and nothing is reported.
    pub fn expire(&mut self, session_id: u64, live: &mut ClickAwaySession) -> (r: Option<
        (OverlayCommand, WindowFate),
    >)
        ensures
            r is Some <==> old(self)@.session() == Some(session_id),
            r matches Some(done) ==> done == (
                OverlayCommand::Cancel { session_id },
                old(self)@.fate(),
            ) && final(self)@ == old(self)@.closed() && final(live)@ == 0,
            r is None ==> final(self)@ == old(self)@ && final(live)@ == old(live)@,
    {
        match self.dismiss(session_id, live) {
            Some(fate) => Some((OverlayCommand::Cancel { session_id }, fate)),
            None => None,
        }
    }

    /// A click outside the ring that was observed while session `observed` was
    /// showing: cancel the open ring only if it is still that session.
    pub fn dismiss_click_away(&mut self, observed: u64, live: &mut ClickAwaySession) -> (r: Option<
        (OverlayCommand, WindowFate),
    >)
        ensures
            r is Some <==> (old(self)@.session() matches Some(open) && spec_click_away_targets(
                observed,
                open,
            )),
            r matches Some(done) ==> done == (
                OverlayCommand::Cancel { session_id: observed },
                old(self)@.fate(),
            ) && final(self)@ == old(self)@.closed() && final(live)@ == 0,
            r is None ==> final(self)@ == old(self)@ && final(live)@ == old(live)@,
    {
        match self.current_session() {
            Some(open) => if click_away_targets(observed, open) {
                self.expire(open, live)
            } else {
                None
            },
            None => None,
        }
    }

    /// Where the presentation of `slot` stands in the open ring.
    fn find_slot(slots: &Vec<(ActionRingSlot, SlotPresentation)>, slot: ActionRingSlot) -> (r:
        Option<usize>)
        ensures
            match r {
                Some(i) => i < slots@.len() && slot_index(slots@, slot) == Some(i as int),
                None => slot_index(slots@, slot) is None,
            },
    {
        let mut i: usize = 0;
        let mut found: Option<usize> = None;
        proof {
            assert(slots@.take(0).len() == 0);
        }
        while i < slots.len()
            invariant
                i <= slots@.len(),
                match found {
                    Some(k) => k < i && slot_index(slots@.take(i as int), slot) == Some(k as int),
                    None => slot_index(slots@.take(i as int), slot) is None,
                },
            decreases slots@.len() - i,
        {
            proof {
                assert(slots@.take(i as int + 1).drop_last() =~= slots@.take(i as int));
            }
            if found.is_none() && slots[i].0 == slot {
                found = Some(i);
            }
            i = i + 1;
        }
        proof {
            assert(slots@.take(slots@.len() as int) =~= slots@);
        }
        found
    }

    /// What is drawn for `slot`: its icon and whether it is highlighted, or
    /// `None` when the open ring does not have the slot.
    pub fn slot_element(&self, slot: ActionRingSlot) -> (r: Option<(u16, bool)>)
        ensures
            r is Some <==> (self@.invocation matches Some(inv) && slot_index(
                inv.slots@,
                slot,
            ) is Some),
            r matches Some(drawn) ==> (self@.invocation matches Some(inv) && slot_index(
                inv.slots@,
                slot,
            ) matches Some(i) && drawn == (
                inv.slots@[i].1.icon,
                self@.hovered == Some(slot),
            )),
    {
        match &self.invocation {
            None => None,
            Some(invocation) => match RingView::find_slot(&invocation.slots, slot) {
                None => None,
                Some(i) => {
                    let selected = match self.hovered {
                        Some(current) => current == slot,
                        None => false,
                    };
                    Some((invocation.slots[i].1.icon, selected))
                },
            },
        }
    }

    /// The label of the hovered slot. A label that the user wrote is shown as
    /// it is; any other is a key of the language catalog.
    pub fn hovered_label(&self) -> (r: Option<RingLabel>)
        ensures
            r is Some <==> (self@.invocation matches Some(inv) && self@.hovered matches Some(slot)
                && slot_index(inv.slots@, slot) is Some),
            r matches Some(label) ==> (self@.invocation matches Some(inv)
                && self@.hovered matches Some(slot) && slot_index(inv.slots@, slot) matches Some(i)
                && (match label {
                RingLabel::Verbatim(text) => inv.slots@[i].1.literal && text@
                    == inv.slots@[i].1.label@,
                RingLabel::Translate(key) => !inv.slots@[i].1.literal && key@
                    == inv.slots@[i].1.label@,
            })),
    {
        match (&self.invocation, self.hovered) {
            (Some(invocation), Some(slot)) => match RingView::find_slot(&invocation.slots, slot) {
                None => None,
                Some(i) => {
                    let text = invocation.slots[i].1.label.clone();
                    if invocation.slots[i].1.literal {
                        Some(RingLabel::Verbatim(text))
                    } else {
                        Some(RingLabel::Translate(text))
                    }
                },
            },
            _ => None,
        }
    }
}

/// What is shown for a slot is its first presentation; a slot without one is not
/// part of the ring.
pub proof fn the_first_presentation_of_a_slot_counts(
    slots: Seq<(ActionRingSlot, SlotPresentation)>,
    slot: ActionRingSlot,
)
    ensures
        match slot_index(slots, slot) {
            Some(i) => 0 <= i < slots.len() && slots[i].0 == slot && forall|j: int|
                0 <= j < i ==> (#[trigger] slots[j]).0 != slot,
            None => forall|j: int| 0 <= j < slots.len() ==> (#[trigger] slots[j]).0 != slot,
        },
    decreases slots.len(),
{
    if slots.len() > 0 {
        let rest = slots.drop_last();
        the_first_presentation_of_a_slot_counts(rest, slot);
        assert forall|j: int| 0 <= j < rest.len() implies #[trigger] rest[j] == slots[j] by {}
        match slot_index(rest, slot) {
            Some(i) => {
                assert forall|j: int| 0 <= j < i implies (#[trigger] slots[j]).0 != slot by {
                    assert(rest[j] == slots[j]);
                }
            },
            None => {
                assert forall|j: int| 0 <= j < slots.len() - 1 implies (#[trigger] slots[j]).0
                    != slot by {
                    assert(rest[j] == slots[j]);
                }
            },
        }
    }
}

/// A window goes by the session of the ring that is open in it. Once closed it has
/// none, nothing is hovered, and it is kept exactly if it outlives its rings.
pub proof fn a_closed_window_has_no_session(ring: RingModel)
    ensures
        ring.closed().session() is None,
        ring.closed().invocation is None,
        ring.closed().hovered is None,
        ring.closed().persistent == ring.persistent,
        ring.session() is Some <==> ring.invocation is Some,
        ring.invocation matches Some(open) ==> ring.session() == Some(open.session_id),
        ring.fate() is Hide <==> ring.persistent,
        ring.fate() is Remove <==> !ring.persistent,
{
}

/// A command belongs to the session that it names. Choosing a slot and closing the
/// ring end it; hovering does not.
pub proof fn a_command_belongs_to_its_session(session_id: u64, slot: ActionRingSlot)
    ensures
        (OverlayCommand::Hover { session_id, slot }).spec_session() == session_id,
        (OverlayCommand::Activate { session_id, slot }).spec_session() == session_id,
        (OverlayCommand::Cancel { session_id }).spec_session() == session_id,
        !(OverlayCommand::Hover { session_id, slot }).spec_is_terminal(),
        (OverlayCommand::Activate { session_id, slot }).spec_is_terminal(),
        (OverlayCommand::Cancel { session_id }).spec_is_terminal(),
{
}

/// A click beside the ring closes the one that was showing when it was made.
pub proof fn a_click_closes_the_ring_that_was_showing(session: u64)
    ensures
        session != 0 ==> spec_click_away_targets(session, session),
        !spec_click_away_targets(0, session),
{
}

} // verus!
