//! Key capture for one keyboard: which keys are diverted, which reports are
//! presses, and what a reconnect of the keyboard asks for.

use vstd::prelude::*;

use crate::controls::{
    can_divert, is_divertable, lists, ButtonId, CapturedInput, ControlInfo, GestureError,
};

verus! {

/// Whether the keys of a list are in the order of their controls, each once.
pub open spec fn ascending(keys: Seq<(u16, ButtonId)>) -> bool {
    forall|i: int, j: int|
        0 <= i < j < keys.len() ==> (#[trigger] keys[i]).0 < (#[trigger] keys[j]).0
}

/// The keys in `wanted` that the keyboard can divert.
pub open spec fn divertable_keys(
    wanted: Seq<(u16, ButtonId)>,
    controls: Seq<ControlInfo>,
) -> Seq<(u16, ButtonId)>
    decreases wanted.len(),
{
    if wanted.len() == 0 {
        Seq::empty()
    } else {
        let before = divertable_keys(wanted.drop_last(), controls);
        if can_divert(controls, wanted.last().0) {
            before.push(wanted.last())
        } else {
            before
        }
    }
}

proof fn lemma_ascending(wanted: Seq<(u16, ButtonId)>, controls: Seq<ControlInfo>)
    requires
        ascending(wanted),
    ensures
        ascending(divertable_keys(wanted, controls)),
        forall|i: int|
            0 <= i < divertable_keys(wanted, controls).len() ==> wanted.contains(
                #[trigger] divertable_keys(wanted, controls)[i],
            ),
    decreases wanted.len(),
{
    if wanted.len() > 0 {
        let rest = wanted.drop_last();
        let before = divertable_keys(rest, controls);
        let now = divertable_keys(wanted, controls);
        assert forall|i: int, j: int| 0 <= i < j < rest.len() implies (#[trigger] rest[i]).0 < (
        #[trigger] rest[j]).0 by {
            assert(rest[i] == wanted[i] && rest[j] == wanted[j]);
        }
        lemma_ascending(rest, controls);
        assert forall|i: int| 0 <= i < before.len() implies wanted.contains(
            #[trigger] before[i],
        ) && before[i].0 < wanted.last().0 by {
            let k = choose|k: int| 0 <= k < rest.len() && rest[k] == before[i];
            assert(wanted[k].0 < wanted[wanted.len() - 1].0);
        }
        assert forall|i: int| 0 <= i < now.len() implies wanted.contains(#[trigger] now[i]) by {
            if i < before.len() {
                assert(wanted.contains(before[i]));
            } else {
                assert(wanted[wanted.len() - 1] == now[i]);
            }
        }
        assert forall|i: int, j: int| 0 <= i < j < now.len() implies (#[trigger] now[i]).0 < (
        #[trigger] now[j]).0 by {
            assert(before[i] == now[i]);
            if j < before.len() {
                assert(before[j] == now[j]);
            }
        }
    }
}

/// The keys to divert. A key that the keyboard does not have, or cannot
/// divert, is left out and keeps its native function. The others stay in the
/// order of their controls, each once, if that is how they come.
pub fn arm_keys(wanted: &Vec<(u16, ButtonId)>, controls: &Vec<ControlInfo>) -> (r: Vec<
    (u16, ButtonId),
>)
    ensures
        r@ == divertable_keys(wanted@, controls@),
        ascending(wanted@) ==> ascending(r@),
{
    let mut r: Vec<(u16, ButtonId)> = Vec::new();
    let mut i: usize = 0;
    while i < wanted.len()
        invariant
            i <= wanted@.len(),
            r@ == divertable_keys(wanted@.take(i as int), controls@),
        decreases wanted@.len() - i,
    {
        proof {
            assert(wanted@.take(i as int + 1).drop_last() =~= wanted@.take(i as int));
        }
        let (cid, button) = wanted[i];
        if is_divertable(controls, cid) {
            r.push((cid, button));
        }
        i = i + 1;
    }
    proof {
        assert(wanted@.take(wanted@.len() as int) =~= wanted@);
        if ascending(wanted@) {
            lemma_ascending(wanted@, controls@);
        }
    }
    r
}

/// How a key of a keyboard is set to report.
#[derive(Clone, Copy, Debug, PartialEq, Eq, Structural)]
pub struct KeyReporting {
    pub diverted: bool,
    pub raw_xy: bool,
}

/// The write that diverts a key, or hands it back. A key never reports motion.
pub fn key_reporting(diverted: bool) -> (r: KeyReporting)
    ensures
        r == (KeyReporting { diverted, raw_xy: false }),
{
    KeyReporting { diverted, raw_xy: false }
}

/// The keys in `armed` that are down in a report, as the set of identifiers.
pub open spec fn down_set(
    armed: Seq<(u16, ButtonId)>,
    cids: Seq<u16>,
    before: Set<u16>,
) -> Set<u16>
    decreases armed.len(),
{
    if armed.len() == 0 {
        before
    } else {
        let rest = down_set(armed.drop_last(), cids, before);
        if cids.contains(armed.last().0) {
            rest.insert(armed.last().0)
        } else {
            rest.remove(armed.last().0)
        }
    }
}

/// The presses of a report: the keys that are down and were not.
pub open spec fn presses(
    armed: Seq<(u16, ButtonId)>,
    cids: Seq<u16>,
    before: Set<u16>,
) -> Seq<CapturedInput>
    decreases armed.len(),
{
    if armed.len() == 0 {
        Seq::empty()
    } else {
        let rest = presses(armed.drop_last(), cids, before);
        let (cid, button) = armed.last();
        if cids.contains(cid) && !down_set(armed.drop_last(), cids, before).contains(cid) {
            rest.push(CapturedInput::ButtonPressed(button))
        } else {
            rest
        }
    }
}

/// What a keyboard session does next.
#[derive(Clone, Copy, Debug, PartialEq, Eq, Structural)]
pub enum KeyboardStep {
    /// Wait for the shutdown or a reconnect.
    Wait,
    /// Write the diversion of every key again, then wait.
    Rearm,
    /// Wait for the shutdown only.
    WaitForShutdown,
    /// Hand every key back and end.
    Stop,
}

/// What wakes a keyboard session.
#[derive(Clone, Copy, Debug, PartialEq, Eq, Structural)]
pub enum KeyboardEvent {
    /// The session was asked to stop.
    Shutdown,
    /// The keyboard reconnected and has forgotten its diversions.
    Reconnected,
    /// Reconnects are no longer announced.
    AnnouncementsEnded,
}

/// A running keyboard session.
pub struct KeyboardSession {
    armed: Vec<(u16, ButtonId)>,
    down: Vec<u16>,
    announced: bool,
}

/// What a running keyboard session is.
pub ghost struct KeyboardModel {
    /// The keys that are diverted.
    pub armed: Seq<(u16, ButtonId)>,
    /// The diverted keys that are down.
    pub down: Set<u16>,
    /// Whether reconnects are announced.
    pub announced: bool,
}

impl View for KeyboardSession {
    type V = KeyboardModel;

    closed spec fn view(&self) -> KeyboardModel {
        KeyboardModel { armed: self.armed@, down: self.down@.to_set(), announced: self.announced }
    }
}

fn drop_cid(s: &Vec<u16>, x: u16) -> (r: Vec<u16>)
    ensures
        r@.to_set() == s@.to_set().remove(x),
{
    let mut r: Vec<u16> = Vec::new();
    let mut i: usize = 0;
    while i < s.len()
        invariant
            i <= s@.len(),
            forall|j: int| 0 <= j < r@.len() ==> r@[j] != x && s@.contains(#[trigger] r@[j]),
            forall|j: int| 0 <= j < i && s@[j] != x ==> r@.contains(#[trigger] s@[j]),
        decreases s@.len() - i,
    {
        let ghost before = r@;
        if s[i] != x {
            r.push(s[i]);
            proof {
                assert(s@.contains(s@[i as int]));
                assert(r@[before.len() as int] == s@[i as int]);
                assert forall|j: int| 0 <= j < i + 1 && s@[j] != x implies r@.contains(
                    #[trigger] s@[j],
                ) by {
                    if j < i {
                        let k = choose|k: int| 0 <= k < before.len() && before[k] == s@[j];
                        assert(r@[k] == s@[j]);
                    }
                }
            }
        }
        i = i + 1;
    }
    proof {
        assert forall|y: u16| r@.to_set().contains(y) <==> s@.to_set().remove(x).contains(y) by {
            if r@.contains(y) {
                let k = choose|k: int| 0 <= k < r@.len() && r@[k] == y;
                assert(s@.contains(r@[k]));
            }
            if s@.contains(y) && y != x {
                let k = choose|k: int| 0 <= k < s@.len() && s@[k] == y;
                assert(r@.contains(s@[k]));
            }
        }
        assert(r@.to_set() =~= s@.to_set().remove(x));
    }
    r
}

/// The error for a keyboard that has no controls to divert.
pub fn no_controls() -> (r: GestureError)
    ensures
        r matches GestureError::Hidpp(context) && context@
            == "keyboard exposes no 0x1b04 reprog controls"@,
{
    GestureError::Hidpp("keyboard exposes no 0x1b04 reprog controls".to_owned())
}

impl KeyboardSession {
    /// A session starts once its keys are diverted. `announced` says whether
    /// the keyboard announces its reconnects.
    pub fn start(armed: Vec<(u16, ButtonId)>, announced: bool) -> (r: Self)
        ensures
            r@ == (KeyboardModel { armed: armed@, down: Set::empty(), announced }),
    {
        let r = KeyboardSession { armed, down: Vec::new(), announced };
        proof {
            assert(r.down@.to_set() =~= Set::<u16>::empty());
        }
        r
    }

    /// Take a report of the diverted keys: a key that went down is a press,
    /// and nothing is reported when it goes up.
    pub fn on_report(&mut self, cids: &Vec<u16>) -> (r: Vec<CapturedInput>)
        ensures
            r@ == presses(old(self)@.armed, cids@, old(self)@.down),
            final(self)@ == (KeyboardModel {
                down: down_set(old(self)@.armed, cids@, old(self)@.down),
                ..old(self)@
            }),
    {
        let mut out: Vec<CapturedInput> = Vec::new();
        let ghost before = self@;
        let mut i: usize = 0;
        while i < self.armed.len()
            invariant
                i <= self.armed@.len(),
                self.armed@ == before.armed,
                self.announced == before.announced,
                self.down@.to_set() == down_set(before.armed.take(i as int), cids@, before.down),
                out@ == presses(before.armed.take(i as int), cids@, before.down),
            decreases self.armed@.len() - i,
        {
            proof {
                assert(before.armed.take(i as int + 1).drop_last() =~= before.armed.take(i as int));
            }
            let (cid, button) = self.armed[i];
            let now = lists(cids, cid);
            let was = lists(&self.down, cid);
            let ghost held = self.down@;
            if now && !was {
                out.push(CapturedInput::ButtonPressed(button));
            }
            if now {
                if !was {
                    self.down.push(cid);
                    proof {
                        assert(held.push(cid).to_set() =~= held.to_set().insert(cid)) by {
                            assert forall|y: u16|
                                held.push(cid).to_set().contains(y) <==> held.to_set().insert(
                                    cid,
                                ).contains(y) by {
                                if held.contains(y) {
                                    let k = choose|k: int| 0 <= k < held.len() && held[k] == y;
                                    assert(held.push(cid)[k] == y);
                                }
                                assert(held.push(cid)[held.len() as int] == cid);
                            }
                        }
                    }
                } else {
                    proof {
                        assert(held.to_set().insert(cid) =~= held.to_set());
                    }
                }
            } else {
                let kept = drop_cid(&self.down, cid);
                self.down = kept;
            }
            i = i + 1;
        }
        proof {
            assert(before.armed.take(before.armed.len() as int) =~= before.armed);
        }
        out
    }

    /// Take a shutdown or news of the keyboard's link. The keyboard forgets
    /// its diversions on every power cycle, so each reconnect arms them again.
    pub fn on_event(&mut self, event: KeyboardEvent) -> (r: KeyboardStep)
        ensures
            final(self)@.armed == old(self)@.armed,
            final(self)@.down == old(self)@.down,
            final(self)@.announced == (old(self)@.announced && !(event is AnnouncementsEnded)),
            r == (match event {
                KeyboardEvent::Shutdown => KeyboardStep::Stop,
                KeyboardEvent::Reconnected => if old(self)@.announced {
                    KeyboardStep::Rearm
                } else {
                    KeyboardStep::WaitForShutdown
                },
                KeyboardEvent::AnnouncementsEnded => KeyboardStep::WaitForShutdown,
            }),
    {
        match event {
            KeyboardEvent::Shutdown => KeyboardStep::Stop,
            KeyboardEvent::Reconnected => if self.announced {
                KeyboardStep::Rearm
            } else {
                KeyboardStep::WaitForShutdown
            },
            KeyboardEvent::AnnouncementsEnded => {
                self.announced = false;
                KeyboardStep::WaitForShutdown
            },
        }
    }

    /// The keys to divert again after a reconnect, and to hand back at the
    /// end: all that were armed.
    pub fn armed_cids(&self) -> (r: Vec<u16>)
        ensures
            r@ == self@.armed.map_values(|k: (u16, ButtonId)| k.0),
    {
        let mut r: Vec<u16> = Vec::new();
        let mut i: usize = 0;
        while i < self.armed.len()
            invariant
                i <= self.armed@.len(),
                r@.len() == i,
                forall|j: int| 0 <= j < i ==> r@[j] == self.armed@[j].0,
            decreases self.armed@.len() - i,
        {
            r.push(self.armed[i].0);
            i = i + 1;
        }
        proof {
            assert(r@ =~= self@.armed.map_values(|k: (u16, ButtonId)| k.0));
        }
        r
    }
}

proof fn lemma_down_after(armed: Seq<(u16, ButtonId)>, cids: Seq<u16>, before: Set<u16>)
    ensures
        forall|i: int|
            0 <= i < armed.len() ==> (down_set(armed, cids, before).contains(
                (#[trigger] armed[i]).0,
            ) <==> cids.contains(armed[i].0)),
    decreases armed.len(),
{
    if armed.len() > 0 {
        lemma_down_after(armed.drop_last(), cids, before);
        assert forall|i: int| 0 <= i < armed.len() implies (down_set(
            armed,
            cids,
            before,
        ).contains((#[trigger] armed[i]).0) <==> cids.contains(armed[i].0)) by {
            if i < armed.len() - 1 {
                assert(armed.drop_last()[i] == armed[i]);
            }
        }
    }
}

proof fn lemma_settled_keys(armed: Seq<(u16, ButtonId)>, cids: Seq<u16>, down: Set<u16>)
    requires
        forall|i: int|
            0 <= i < armed.len() ==> (down.contains((#[trigger] armed[i]).0) <==> cids.contains(
                armed[i].0,
            )),
    ensures
        down_set(armed, cids, down) == down,
        presses(armed, cids, down) == Seq::<CapturedInput>::empty(),
    decreases armed.len(),
{
    if armed.len() > 0 {
        assert forall|i: int| 0 <= i < armed.drop_last().len() implies (down.contains(
            (#[trigger] armed.drop_last()[i]).0,
        ) <==> cids.contains(armed.drop_last()[i].0)) by {
            assert(armed.drop_last()[i] == armed[i]);
        }
        lemma_settled_keys(armed.drop_last(), cids, down);
        assert(armed[armed.len() - 1] == armed.last());
        assert(down_set(armed, cids, down) =~= down);
    }
}

/// A key that stays down is one press however often it is reported: the
/// second of two equal reports holds no press.
pub proof fn a_held_key_is_one_press(
    armed: Seq<(u16, ButtonId)>,
    cids: Seq<u16>,
    before: Set<u16>,
)
    ensures
        presses(armed, cids, down_set(armed, cids, before)) == Seq::<CapturedInput>::empty(),
        down_set(armed, cids, down_set(armed, cids, before)) == down_set(armed, cids, before),
{
    lemma_down_after(armed, cids, before);
    lemma_settled_keys(armed, cids, down_set(armed, cids, before));
}

proof fn lemma_push_holds<A>(s: Seq<A>, x: A, y: A)
    ensures
        s.push(x).contains(y) <==> s.contains(y) || y == x,
{
    if s.contains(y) {
        let i = choose|i: int| 0 <= i < s.len() && s[i] == y;
        assert(s.push(x)[i] == y);
    }
    if y == x {
        assert(s.push(x)[s.len() as int] == y);
    }
    if s.push(x).contains(y) {
        let i = choose|i: int| 0 <= i < s.push(x).len() && s.push(x)[i] == y;
        if i < s.len() {
            assert(s[i] == y);
        }
    }
}

/// A key is diverted exactly when it is wanted and the keyboard lists it as one that
/// can be.
pub proof fn keys_are_armed_where_the_keyboard_can(
    wanted: Seq<(u16, ButtonId)>,
    controls: Seq<ControlInfo>,
    cid: u16,
    button: ButtonId,
)
    ensures
        divertable_keys(wanted, controls).contains((cid, button)) <==> wanted.contains(
            (cid, button),
        ) && exists|i: int|
            0 <= i < controls.len() && (#[trigger] controls[i]).cid == cid
                && controls[i].divertable,
    decreases wanted.len(),
{
    if wanted.len() == 0 {
        assert(!wanted.contains((cid, button)));
    } else {
        let rest = wanted.drop_last();
        keys_are_armed_where_the_keyboard_can(rest, controls, cid, button);
        assert(wanted =~= rest.push(wanted.last()));
        lemma_push_holds(rest, wanted.last(), (cid, button));
        lemma_push_holds(divertable_keys(rest, controls), wanted.last(), (cid, button));
    }
}

proof fn lemma_down_set(
    armed: Seq<(u16, ButtonId)>,
    cids: Seq<u16>,
    before: Set<u16>,
    cid: u16,
)
    ensures
        (forall|i: int| 0 <= i < armed.len() ==> (#[trigger] armed[i]).0 != cid) ==> (down_set(
            armed,
            cids,
            before,
        ).contains(cid) <==> before.contains(cid)),
    decreases armed.len(),
{
    if armed.len() > 0 {
        let rest = armed.drop_last();
        lemma_down_set(rest, cids, before, cid);
        if forall|i: int| 0 <= i < armed.len() ==> (#[trigger] armed[i]).0 != cid {
            assert forall|i: int| 0 <= i < rest.len() implies (#[trigger] rest[i]).0 != cid by {
                assert(rest[i] == armed[i]);
            }
            assert(armed[armed.len() - 1].0 != cid);
        }
    }
}

/// A key is pressed exactly when a report has it down and it was not down before:
/// each key once, under its own name. After the report, the keys that are down are
/// those that it has down; a key that is not diverted stays as it was.
pub proof fn a_key_that_goes_down_is_a_press(
    armed: Seq<(u16, ButtonId)>,
    cids: Seq<u16>,
    before: Set<u16>,
    button: ButtonId,
    cid: u16,
)
    requires
        forall|i: int, j: int|
            0 <= i < j < armed.len() ==> (#[trigger] armed[i]).0 != (#[trigger] armed[j]).0,
    ensures
        presses(armed, cids, before).contains(CapturedInput::ButtonPressed(button)) <==> exists|
            i: int,
        |
            0 <= i < armed.len() && (#[trigger] armed[i]).1 == button && cids.contains(armed[i].0)
                && !before.contains(armed[i].0),
        presses(armed, cids, before).len() <= armed.len(),
        (exists|i: int| 0 <= i < armed.len() && (#[trigger] armed[i]).0 == cid) ==> (down_set(
            armed,
            cids,
            before,
        ).contains(cid) <==> cids.contains(cid)),
        (forall|i: int| 0 <= i < armed.len() ==> (#[trigger] armed[i]).0 != cid) ==> (down_set(
            armed,
            cids,
            before,
        ).contains(cid) <==> before.contains(cid)),
    decreases armed.len(),
{
    let input = CapturedInput::ButtonPressed(button);
    lemma_down_after(armed, cids, before);
    lemma_down_set(armed, cids, before, cid);
    if armed.len() == 0 {
        assert(!presses(armed, cids, before).contains(input));
    } else {
        let rest = armed.drop_last();
        let last = armed[armed.len() - 1];
        assert forall|i: int, j: int| 0 <= i < j < rest.len() implies (#[trigger] rest[i]).0 != (
        #[trigger] rest[j]).0 by {
            assert(rest[i] == armed[i] && rest[j] == armed[j]);
        }
        a_key_that_goes_down_is_a_press(rest, cids, before, button, cid);
        lemma_push_holds(
            presses(rest, cids, before),
            CapturedInput::ButtonPressed(last.1),
            input,
        );
        assert forall|i: int| 0 <= i < rest.len() implies (#[trigger] rest[i]).0 != last.0 by {
            assert(rest[i] == armed[i]);
        }
        lemma_down_set(rest, cids, before, last.0);
        if presses(armed, cids, before).contains(input) {
            if presses(rest, cids, before).contains(input) {
                let i = choose|i: int|
                    0 <= i < rest.len() && (#[trigger] rest[i]).1 == button && cids.contains(
                        rest[i].0,
                    ) && !before.contains(rest[i].0);
                assert(armed[i].1 == button);
            } else {
                assert(last.1 == button);
            }
        }
        if exists|i: int|
            0 <= i < armed.len() && (#[trigger] armed[i]).1 == button && cids.contains(armed[i].0)
                && !before.contains(armed[i].0) {
            let i = choose|i: int|
                0 <= i < armed.len() && (#[trigger] armed[i]).1 == button && cids.contains(
                    armed[i].0,
                ) && !before.contains(armed[i].0);
            if i < rest.len() {
                assert(rest[i].1 == button);
            }
        }
    }
}

} // verus!
