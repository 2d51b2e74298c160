//! Choosing the action of a control.

use vstd::prelude::*;

use crate::action::{button_rank, button_rank_of, Action, ActionModel};
use crate::controls::{ButtonId, GestureDirection};
use crate::data::Data;
use crate::keyed::Table;
use crate::state::{AppState, StateModel};

verus! {

/// The mark of a control that gestures.
pub fn gesture_button_icon() -> (r: &'static str)
    ensures
        r@ == "action-icons/move.svg"@,
{
    "action-icons/move.svg"
}

/// The mark of an action.
pub open spec fn icon_of(action: Action) -> Seq<char> {
    match action {
        Action::Nothing => "action-icons/ban.svg"@,
        Action::LeftClick => "action-icons/mouse-pointer-click.svg"@,
        Action::RightClick => "action-icons/mouse-pointer-click.svg"@,
        Action::MiddleClick => "action-icons/mouse.svg"@,
        Action::MouseBack => "action-icons/circle-arrow-left.svg"@,
        Action::MouseForward => "action-icons/circle-arrow-right.svg"@,
        Action::Copy => "action-icons/copy.svg"@,
        Action::Paste => "action-icons/clipboard-paste.svg"@,
        Action::Cut => "action-icons/scissors.svg"@,
        Action::Undo => "action-icons/undo-2.svg"@,
        Action::Redo => "action-icons/redo-2.svg"@,
        Action::SelectAll => "action-icons/list-checks.svg"@,
        Action::Workflow(_) => "action-icons/list-checks.svg"@,
        Action::Find => "action-icons/search.svg"@,
        Action::Save => "action-icons/save.svg"@,
        Action::BrowserBack => "action-icons/arrow-left.svg"@,
        Action::BrowserForward => "action-icons/arrow-right.svg"@,
        Action::NewTab => "action-icons/square-plus.svg"@,
        Action::CloseTab => "action-icons/square-x.svg"@,
        Action::ReopenTab => "action-icons/rotate-ccw.svg"@,
        Action::NextTab => "action-icons/chevron-right.svg"@,
        Action::PrevTab => "action-icons/chevron-left.svg"@,
        Action::ReloadPage => "action-icons/rotate-cw.svg"@,
        Action::MissionControl => "action-icons/layout-grid.svg"@,
        Action::ShowActionsRing => "action-icons/layout-grid.svg"@,
        Action::AppExpose => "action-icons/layers.svg"@,
        Action::PreviousDesktop => "action-icons/square-arrow-left.svg"@,
        Action::NextDesktop => "action-icons/square-arrow-right.svg"@,
        Action::ShowDesktop => "action-icons/monitor.svg"@,
        Action::LaunchpadShow => "action-icons/grid-3x3.svg"@,
        Action::OpenApplication(_) => "action-icons/grid-3x3.svg"@,
        Action::LockScreen => "action-icons/lock.svg"@,
        Action::Screenshot => "action-icons/camera.svg"@,
        Action::CaptureRegion => "action-icons/camera.svg"@,
        Action::Sleep => "action-icons/moon.svg"@,
        Action::PlayPause => "action-icons/play.svg"@,
        Action::NextTrack => "action-icons/skip-forward.svg"@,
        Action::PrevTrack => "action-icons/skip-back.svg"@,
        Action::VolumeUp => "action-icons/volume-2.svg"@,
        Action::VolumeDown => "action-icons/volume-1.svg"@,
        Action::MuteVolume => "action-icons/volume-x.svg"@,
        Action::CycleDpiPresets => "action-icons/gauge.svg"@,
        Action::SetDpiPreset(_) => "action-icons/gauge.svg"@,
        Action::ToggleSmartShift => "action-icons/refresh-cw.svg"@,
        Action::ScrollUp => "action-icons/chevrons-up.svg"@,
        Action::ScrollDown => "action-icons/chevrons-down.svg"@,
        Action::HorizontalScrollLeft => "action-icons/chevrons-left.svg"@,
        Action::HorizontalScrollRight => "action-icons/chevrons-right.svg"@,
        Action::CustomShortcut(_) => "action-icons/keyboard.svg"@,
        Action::TypeText(_) => "action-icons/keyboard.svg"@,
        Action::RunAppleScript(_) => "action-icons/terminal.svg"@,
        Action::RunShellCommand(_) => "action-icons/terminal.svg"@,
    }
}

/// The mark of an action. Every action has one.
pub fn action_icon_path(action: &Action) -> (r: &'static str)
    ensures
        r@ == icon_of(*action),
{
    match action {
        Action::Nothing => "action-icons/ban.svg",
        Action::LeftClick => "action-icons/mouse-pointer-click.svg",
        Action::RightClick => "action-icons/mouse-pointer-click.svg",
        Action::MiddleClick => "action-icons/mouse.svg",
        Action::MouseBack => "action-icons/circle-arrow-left.svg",
        Action::MouseForward => "action-icons/circle-arrow-right.svg",
        Action::Copy => "action-icons/copy.svg",
        Action::Paste => "action-icons/clipboard-paste.svg",
        Action::Cut => "action-icons/scissors.svg",
        Action::Undo => "action-icons/undo-2.svg",
        Action::Redo => "action-icons/redo-2.svg",
        Action::SelectAll => "action-icons/list-checks.svg",
        Action::Workflow(_) => "action-icons/list-checks.svg",
        Action::Find => "action-icons/search.svg",
        Action::Save => "action-icons/save.svg",
        Action::BrowserBack => "action-icons/arrow-left.svg",
        Action::BrowserForward => "action-icons/arrow-right.svg",
        Action::NewTab => "action-icons/square-plus.svg",
        Action::CloseTab => "action-icons/square-x.svg",
        Action::ReopenTab => "action-icons/rotate-ccw.svg",
        Action::NextTab => "action-icons/chevron-right.svg",
        Action::PrevTab => "action-icons/chevron-left.svg",
        Action::ReloadPage => "action-icons/rotate-cw.svg",
        Action::MissionControl => "action-icons/layout-grid.svg",
        Action::ShowActionsRing => "action-icons/layout-grid.svg",
        Action::AppExpose => "action-icons/layers.svg",
        Action::PreviousDesktop => "action-icons/square-arrow-left.svg",
        Action::NextDesktop => "action-icons/square-arrow-right.svg",
        Action::ShowDesktop => "action-icons/monitor.svg",
        Action::LaunchpadShow => "action-icons/grid-3x3.svg",
        Action::OpenApplication(_) => "action-icons/grid-3x3.svg",
        Action::LockScreen => "action-icons/lock.svg",
        Action::Screenshot => "action-icons/camera.svg",
        Action::CaptureRegion => "action-icons/camera.svg",
        Action::Sleep => "action-icons/moon.svg",
        Action::PlayPause => "action-icons/play.svg",
        Action::NextTrack => "action-icons/skip-forward.svg",
        Action::PrevTrack => "action-icons/skip-back.svg",
        Action::VolumeUp => "action-icons/volume-2.svg",
        Action::VolumeDown => "action-icons/volume-1.svg",
        Action::MuteVolume => "action-icons/volume-x.svg",
        Action::CycleDpiPresets => "action-icons/gauge.svg",
        Action::SetDpiPreset(_) => "action-icons/gauge.svg",
        Action::ToggleSmartShift => "action-icons/refresh-cw.svg",
        Action::ScrollUp => "action-icons/chevrons-up.svg",
        Action::ScrollDown => "action-icons/chevrons-down.svg",
        Action::HorizontalScrollLeft => "action-icons/chevrons-left.svg",
        Action::HorizontalScrollRight => "action-icons/chevrons-right.svg",
        Action::CustomShortcut(_) => "action-icons/keyboard.svg",
        Action::TypeText(_) => "action-icons/keyboard.svg",
        Action::RunAppleScript(_) => "action-icons/terminal.svg",
        Action::RunShellCommand(_) => "action-icons/terminal.svg",
    }
}

/// What a control does where nothing is configured.
pub open spec fn default_of(m: StateModel, button: ButtonId) -> ActionModel {
    action_or_nothing(m.defaults.actions, button)
}

/// What a table has a control do; one that it leaves out does nothing.
pub open spec fn action_or_nothing(
    actions: Map<ButtonId, ActionModel>,
    button: ButtonId,
) -> ActionModel {
    if actions.contains_key(button) {
        actions[button]
    } else {
        ActionModel::Plain(Action::Nothing)
    }
}

/// What a control does that has these bindings and defaults.
pub open spec fn bound_in(
    bindings: Map<ButtonId, ActionModel>,
    defaults: Map<ButtonId, ActionModel>,
    button: ButtonId,
) -> ActionModel {
    if bindings.contains_key(button) {
        bindings[button]
    } else {
        action_or_nothing(defaults, button)
    }
}

/// What a control does.
pub open spec fn bound_to(m: StateModel, button: ButtonId) -> ActionModel {
    bound_in(m.button_bindings, m.defaults.actions, button)
}

/// What a control does that has these bindings and defaults.
pub fn bound_action_in(
    bindings: &Table<ButtonId, Action>,
    defaults: &Table<ButtonId, Action>,
    button: ButtonId,
) -> (r: Action)
    ensures
        r.deep_view() == bound_in(bindings.deep_view(), defaults.deep_view(), button),
{
    match bindings.get(&button) {
        Some(action) => action.duplicate(),
        None => match defaults.get(&button) {
            Some(action) => action.duplicate(),
            None => Action::Nothing,
        },
    }
}

/// What a movement of a control that gestures does. What is not bound does
/// nothing, but for a click, which is what the control does by default.
pub open spec fn gesture_to(
    m: StateModel,
    button: ButtonId,
    direction: GestureDirection,
) -> ActionModel {
    if m.gesture_bindings.contains_key(button) && m.gesture_bindings[button].contains_key(
        direction,
    ) {
        m.gesture_bindings[button][direction]
    } else if direction == GestureDirection::Click {
        default_of(m, button)
    } else {
        ActionModel::Plain(Action::Nothing)
    }
}

impl AppState {
    /// What a control does where nothing is configured.
    pub fn default_binding(&self, button: ButtonId) -> (r: Action)
        ensures
            r.deep_view() == default_of(self.deep_view(), button),
    {
        match self.defaults.actions.get(&button) {
            Some(action) => action.duplicate(),
            None => Action::Nothing,
        }
    }

    /// What a control does.
    pub fn bound_action(&self, button: ButtonId) -> (r: Action)
        ensures
            r.deep_view() == bound_to(self.deep_view(), button),
    {
        bound_action_in(&self.button_bindings, &self.defaults.actions, button)
    }

    /// What a movement does that is not bound.
    pub fn sparse_gesture_fallback(&self, button: ButtonId, direction: GestureDirection) -> (r:
        Action)
        ensures
            r.deep_view() == (if direction == GestureDirection::Click {
                default_of(self.deep_view(), button)
            } else {
                ActionModel::Plain(Action::Nothing)
            }),
    {
        if direction == GestureDirection::Click {
            self.default_binding(button)
        } else {
            Action::Nothing
        }
    }

    /// What a movement of a control that gestures does.
    pub fn gesture_action(&self, button: ButtonId, direction: GestureDirection) -> (r: Action)
        ensures
            r.deep_view() == gesture_to(self.deep_view(), button, direction),
    {
        match self.gesture_bindings.get(&button) {
            Some(map) => match map.get(&direction) {
                Some(action) => action.duplicate(),
                None => self.sparse_gesture_fallback(button, direction),
            },
            None => self.sparse_gesture_fallback(button, direction),
        }
    }

    /// The action that is marked as the one of a control, if it has one of its
    /// own.
    pub fn picked_action(&self, button: ButtonId) -> (r: Option<Action>)
        ensures
            r.deep_view() == (if self.deep_view().button_bindings.contains_key(button) {
                Some(self.deep_view().button_bindings[button])
            } else {
                None
            }),
    {
        match self.button_bindings.get(&button) {
            Some(action) => Some(action.duplicate()),
            None => None,
        }
    }
}

/// A movement of a control that gestures, as it is shown.
#[derive(Clone, Debug, PartialEq, Eq)]
pub struct DirectionCell {
    pub direction: GestureDirection,
    /// Tells the cells of all controls apart.
    pub id: usize,
    pub action: Action,
    /// Whether its actions are open.
    pub active: bool,
    /// Whether it does what it does by default.
    pub is_default: bool,
}

/// The place of a movement among those of a control.
pub open spec fn cell_place(direction: GestureDirection) -> int {
    match direction {
        GestureDirection::Up => 0,
        GestureDirection::Down => 1,
        GestureDirection::Left => 2,
        GestureDirection::Right => 3,
        GestureDirection::Click => 4,
    }
}

/// A movement of a control that gestures, as it is shown. Which one is
/// open is `active`.
pub fn direction_cell(
    state: &AppState,
    button: ButtonId,
    direction: GestureDirection,
    active: Option<GestureDirection>,
) -> (r: DirectionCell)
    ensures
        r.direction == direction,
        r.id == cell_place(direction) + 5 * button_rank(button),
        r.action.deep_view() == gesture_to(state.deep_view(), button, direction),
        r.active == (active == Some(direction)),
        r.is_default == (state.deep_view().defaults.gestures.contains_key(direction)
            && state.deep_view().defaults.gestures[direction] == gesture_to(
            state.deep_view(),
            button,
            direction,
        )),
{
    let place: usize = match direction {
        GestureDirection::Up => 0,
        GestureDirection::Down => 1,
        GestureDirection::Left => 2,
        GestureDirection::Right => 3,
        GestureDirection::Click => 4,
    };
    let rank: u8 = button_rank_of(button);
    let action = state.gesture_action(button, direction);
    let is_default = match state.defaults.gestures.get(&direction) {
        Some(default) => default.same(&action),
        None => false,
    };
    let active = match active {
        Some(active) => active == direction,
        None => false,
    };
    DirectionCell { direction, id: place + 5 * (rank as usize), action, active, is_default }
}

/// The movements of a control, in the shape of a plus: up; left, click, right;
/// down.
pub fn plus_card(state: &AppState, button: ButtonId, active: Option<GestureDirection>) -> (r: Vec<
    DirectionCell,
>)
    ensures
        r@.len() == 5,
        r@[0].direction == GestureDirection::Up,
        r@[1].direction == GestureDirection::Left,
        r@[2].direction == GestureDirection::Click,
        r@[3].direction == GestureDirection::Right,
        r@[4].direction == GestureDirection::Down,
        forall|k: int|
            0 <= k < 5 ==> {
                let cell = #[trigger] r@[k];
                &&& cell.id == cell_place(cell.direction) + 5 * button_rank(button)
                &&& cell.action.deep_view() == gesture_to(
                    state.deep_view(),
                    button,
                    cell.direction,
                )
                &&& cell.active == (active == Some(cell.direction))
                &&& cell.is_default == (state.deep_view().defaults.gestures.contains_key(
                    cell.direction,
                ) && state.deep_view().defaults.gestures[cell.direction] == gesture_to(
                    state.deep_view(),
                    button,
                    cell.direction,
                ))
            },
{
    let mut r: Vec<DirectionCell> = Vec::new();
    r.push(direction_cell(state, button, GestureDirection::Up, active));
    r.push(direction_cell(state, button, GestureDirection::Left, active));
    r.push(direction_cell(state, button, GestureDirection::Click, active));
    r.push(direction_cell(state, button, GestureDirection::Right, active));
    r.push(direction_cell(state, button, GestureDirection::Down, active));
    r
}

/// The movement whose actions are open once one is clicked: clicking the open
/// one closes it.
pub fn toggled_direction(
    active: Option<GestureDirection>,
    clicked: GestureDirection,
) -> (r: Option<GestureDirection>)
    ensures
        r == toggle_of(active, clicked),
{
    match active {
        Some(direction) => if direction == clicked {
            None
        } else {
            Some(clicked)
        },
        None => Some(clicked),
    }
}

/// Where a category is among sections.
pub open spec fn section_place<C>(sections: Seq<(C, Seq<ActionModel>)>, category: C) -> Option<int>
    decreases sections.len(),
{
    if sections.len() == 0 {
        None
    } else {
        match section_place(sections.drop_last(), category) {
            Some(i) => Some(i),
            None => if sections.last().0 == category {
                Some(sections.len() - 1)
            } else {
                None
            },
        }
    }
}

/// Sections with one more action: in the section of its category, or in a new
/// one.
pub open spec fn filed<C>(
    sections: Seq<(C, Seq<ActionModel>)>,
    category: C,
    action: ActionModel,
) -> Seq<(C, Seq<ActionModel>)> {
    match section_place(sections, category) {
        Some(i) => sections.update(i, (category, sections[i].1.push(action))),
        None => sections.push((category, seq![action])),
    }
}

/// Actions by category: the categories as they first come up, the actions of
/// each in order.
pub open spec fn grouped<C>(catalog: Seq<(C, ActionModel)>) -> Seq<(C, Seq<ActionModel>)>
    decreases catalog.len(),
{
    if catalog.len() == 0 {
        Seq::empty()
    } else {
        filed(grouped(catalog.drop_last()), catalog.last().0, catalog.last().1)
    }
}

proof fn lemma_section_place<C>(sections: Seq<(C, Seq<ActionModel>)>, category: C)
    ensures
        match section_place(sections, category) {
            Some(i) => 0 <= i < sections.len() && sections[i].0 == category,
            None => forall|k: int|
                0 <= k < sections.len() ==> (#[trigger] sections[k]).0 != category,
        },
    decreases sections.len(),
{
    if sections.len() > 0 {
        let rest = sections.drop_last();
        lemma_section_place(rest, category);
        if section_place(sections, category) is None {
            assert forall|k: int| 0 <= k < sections.len() implies (#[trigger] sections[k]).0
                != category by {
                if k < rest.len() {
                    assert(rest[k] == sections[k]);
                }
            }
        }
    }
}

fn find_section<C: Data>(sections: &Vec<(C, Vec<Action>)>, category: &C) -> (r: Option<usize>)
    ensures
        match r {
            Some(i) => section_place(sections.deep_view(), category.deep_view()) == Some(i as int),
            None => section_place(sections.deep_view(), category.deep_view()) is None,
        },
{
    let ghost all = sections.deep_view();
    let mut r: Option<usize> = None;
    let mut i: usize = 0;
    proof {
        assert(all.take(0) =~= Seq::empty());
    }
    while i < sections.len()
        invariant
            i <= sections@.len(),
            all == sections.deep_view(),
            match r {
                Some(k) => section_place(all.take(i as int), category.deep_view()) == Some(
                    k as int,
                ),
                None => section_place(all.take(i as int), category.deep_view()) is None,
            },
        decreases sections@.len() - i,
    {
        proof {
            assert(all.take(i as int + 1).drop_last() =~= all.take(i as int));
            assert(all.take(i as int + 1).last() == sections@[i as int].deep_view());
        }
        if r.is_none() && sections[i].0.same(category) {
            r = Some(i);
        }
        i = i + 1;
    }
    proof {
        assert(all.take(all.len() as int) =~= all);
    }
    r
}

/// Actions by category: the categories as they first come up, the actions of
/// each in order.
pub fn grouped_catalog<C: Data>(catalog: &Vec<(C, Action)>) -> (r: Vec<(C, Vec<Action>)>)
    ensures
        r.deep_view() == grouped(catalog.deep_view()),
{
    let ghost all = catalog.deep_view();
    let mut r: Vec<(C, Vec<Action>)> = Vec::new();
    let mut i: usize = 0;
    proof {
        assert(all.take(0) =~= Seq::empty());
        assert(r.deep_view() =~= Seq::empty());
    }
    while i < catalog.len()
        invariant
            i <= catalog@.len(),
            all == catalog.deep_view(),
            r.deep_view() == grouped(all.take(i as int)),
        decreases catalog@.len() - i,
    {
        let category = &catalog[i].0;
        let action = &catalog[i].1;
        let ghost was = r.deep_view();
        let ghost was_vec = r@;
        proof {
            assert(all.take(i as int + 1).drop_last() =~= all.take(i as int));
            assert(all.take(i as int + 1).last() == catalog@[i as int].deep_view());
            lemma_section_place(was, category.deep_view());
        }
        match find_section(&r, category) {
            Some(at) => {
                let mut actions = r[at].1.duplicate();
                let ghost before = actions.deep_view();
                actions.push(action.duplicate());
                proof {
                    assert(actions.deep_view() =~= before.push(action.deep_view()));
                    assert(was[at as int].1 == before);
                }
                r.set(at, (category.duplicate(), actions));
                proof {
                    assert(r.deep_view() =~= was.update(
                        at as int,
                        (category.deep_view(), before.push(action.deep_view())),
                    ));
                }
            },
            None => {
                let mut actions: Vec<Action> = Vec::new();
                actions.push(action.duplicate());
                proof {
                    assert(actions.deep_view() =~= seq![action.deep_view()]);
                }
                r.push((category.duplicate(), actions));
                proof {
                    assert(r.deep_view() =~= was.push(
                        (category.deep_view(), seq![action.deep_view()]),
                    ));
                }
            },
        }
        i = i + 1;
    }
    proof {
        assert(all.take(all.len() as int) =~= all);
    }
    r
}

/// A row of the list of actions.
#[derive(Clone, Debug, PartialEq, Eq)]
pub struct ActionRow {
    /// The section it stands in.
    pub section: usize,
    /// Tells the rows of a list apart.
    pub id: usize,
    pub action: Action,
    pub icon: &'static str,
    /// Whether it is the action that is bound.
    pub selected: bool,
}

/// What an [`ActionRow`] holds.
pub ghost struct ActionRowModel {
    pub section: nat,
    pub id: nat,
    pub action: ActionModel,
    pub selected: bool,
}

impl DeepView for ActionRow {
    type V = ActionRowModel;

    open spec fn deep_view(&self) -> ActionRowModel {
        ActionRowModel {
            section: self.section as nat,
            id: self.id as nat,
            action: self.action.deep_view(),
            selected: self.selected,
        }
    }
}

/// The rows of one section, counted from `start`.
pub open spec fn section_rows(
    actions: Seq<ActionModel>,
    section: nat,
    start: nat,
    current: Option<ActionModel>,
) -> Seq<ActionRowModel> {
    Seq::new(
        actions.len(),
        |k: int|
            ActionRowModel {
                section,
                id: (start + k) as nat,
                action: actions[k],
                selected: current == Some(actions[k]),
            },
    )
}

/// The rows of sections of actions, counted through.
pub open spec fn rows_of(sections: Seq<Seq<ActionModel>>, current: Option<ActionModel>) -> Seq<
    ActionRowModel,
>
    decreases sections.len(),
{
    if sections.len() == 0 {
        Seq::empty()
    } else {
        let before = rows_of(sections.drop_last(), current);
        before + section_rows(
            sections.last(),
            (sections.len() - 1) as nat,
            before.len(),
            current,
        )
    }
}

fn add_section(rows: &mut Vec<ActionRow>, section: usize, actions: &Vec<Action>, current: &Option<
    Action,
>)
    requires
        forall|k: int|
            0 <= k < old(rows)@.len() ==> (#[trigger] old(rows)@[k]).icon@ == icon_of(
                old(rows)@[k].action,
            ),
    ensures
        final(rows).deep_view() == old(rows).deep_view() + section_rows(
            actions.deep_view(),
            section as nat,
            old(rows)@.len(),
            current.deep_view(),
        ),
        forall|k: int|
            0 <= k < final(rows)@.len() ==> (#[trigger] final(rows)@[k]).icon@ == icon_of(
                final(rows)@[k].action,
            ),
{
    let ghost was = rows.deep_view();
    let ghost all = section_rows(
        actions.deep_view(),
        section as nat,
        was.len(),
        current.deep_view(),
    );
    let mut k: usize = 0;
    proof {
        assert(was + all.take(0) =~= was);
    }
    while k < actions.len()
        invariant
            k <= actions@.len(),
            all == section_rows(
                actions.deep_view(),
                section as nat,
                was.len(),
                current.deep_view(),
            ),
            rows.deep_view() == was + all.take(k as int),
            forall|k: int|
                0 <= k < rows@.len() ==> (#[trigger] rows@[k]).icon@ == icon_of(rows@[k].action),
        decreases actions@.len() - k,
    {
        let ghost before = rows.deep_view();
        let action = actions[k].duplicate();
        let selected = match current {
            Some(current) => current.same(&action),
            None => false,
        };
        let icon = action_icon_path(&action);
        let id: usize = rows.len();
        proof {
            assert(rows@.len() == rows.deep_view().len());
        }
        let row = ActionRow { section, id, action, icon, selected };
        let ghost model = row.deep_view();
        rows.push(row);
        proof {
            assert(rows.deep_view() =~= before.push(model));
            assert(model == all[k as int]);
            assert(was + all.take(k as int + 1) =~= before.push(all[k as int]));
        }
        k = k + 1;
    }
    proof {
        assert(all.take(all.len() as int) =~= all);
    }
}

/// The rows of sections of actions, counted through, with the one that is bound
/// marked.
pub fn action_rows(sections: &Vec<Vec<Action>>, current: &Option<Action>) -> (r: Vec<ActionRow>)
    ensures
        r.deep_view() == rows_of(sections.deep_view(), current.deep_view()),
        forall|k: int|
            0 <= k < r@.len() ==> (#[trigger] r@[k]).icon@ == icon_of(r@[k].action),
{
    let ghost all = sections.deep_view();
    let mut r: Vec<ActionRow> = Vec::new();
    let mut s: usize = 0;
    proof {
        assert(all.take(0) =~= Seq::empty());
        assert(r.deep_view() =~= Seq::empty());
    }
    while s < sections.len()
        invariant
            s <= sections@.len(),
            all == sections.deep_view(),
            r.deep_view() == rows_of(all.take(s as int), current.deep_view()),
            forall|k: int|
                0 <= k < r@.len() ==> (#[trigger] r@[k]).icon@ == icon_of(r@[k].action),
        decreases sections@.len() - s,
    {
        proof {
            assert(all.take(s as int + 1).drop_last() =~= all.take(s as int));
            assert(all.take(s as int + 1).last() == sections@[s as int].deep_view());
            assert(r.deep_view().len() == r@.len());
        }
        add_section(&mut r, s, &sections[s], current);
        s = s + 1;
    }
    proof {
        assert(all.take(all.len() as int) =~= all);
    }
    r
}

/// Every action of the catalog is offered, and none that is not of it.
pub proof fn every_action_is_offered<C>(catalog: Seq<(C, ActionModel)>, action: ActionModel)
    ensures
        (exists|k: int| 0 <= k < catalog.len() && (#[trigger] catalog[k]).1 == action)
            <==> is_offered(grouped(catalog), action),
    decreases catalog.len(),
{
    if catalog.len() > 0 {
        let rest = catalog.drop_last();
        let last = catalog.last();
        let before = grouped(rest);
        let after = grouped(catalog);
        every_action_is_offered(rest, action);
        lemma_section_place(before, last.0);
        lemma_filed(before, last.0, last.1, action);
        if exists|k: int| 0 <= k < catalog.len() && (#[trigger] catalog[k]).1 == action {
            let k = choose|k: int| 0 <= k < catalog.len() && (#[trigger] catalog[k]).1 == action;
            if k < rest.len() {
                assert(rest[k].1 == action);
            }
        }
        if is_offered(after, action) {
            if last.1 == action {
                assert(catalog[catalog.len() - 1].1 == action);
            } else {
                let k = choose|k: int| 0 <= k < rest.len() && (#[trigger] rest[k]).1 == action;
                assert(catalog[k].1 == action);
            }
        }
    }
}

/// Whether sections hold an action.
pub open spec fn is_offered<C>(
    sections: Seq<(C, Seq<ActionModel>)>,
    action: ActionModel,
) -> bool {
    exists|s: int| 0 <= s < sections.len() && (#[trigger] sections[s]).1.contains(action)
}

proof fn lemma_filed<C>(
    sections: Seq<(C, Seq<ActionModel>)>,
    category: C,
    added: ActionModel,
    action: ActionModel,
)
    ensures
        is_offered(filed(sections, category, added), action) <==> (is_offered(sections, action)
            || action == added),
{
    lemma_section_place(sections, category);
    let after = filed(sections, category, added);
    match section_place(sections, category) {
        Some(i) => {
            let was = sections[i].1;
            let now = was.push(added);
            assert(after[i].1 == now);
            assert(now[was.len() as int] == added);
            assert(now.contains(added));
            if is_offered(sections, action) {
                let s = choose|s: int|
                    0 <= s < sections.len() && (#[trigger] sections[s]).1.contains(action);
                if s == i {
                    let k = choose|k: int| 0 <= k < was.len() && was[k] == action;
                    assert(now[k] == action);
                }
                assert(after[s].1.contains(action));
            }
            if is_offered(after, action) && action != added {
                let s = choose|s: int|
                    0 <= s < after.len() && (#[trigger] after[s]).1.contains(action);
                if s == i {
                    let k = choose|k: int| 0 <= k < now.len() && now[k] == action;
                    assert(was[k] == action);
                }
                assert(sections[s].1.contains(action));
            }
        },
        None => {
            let last = after.len() - 1;
            assert(after[last].1 == seq![added]);
            assert(after[last].1[0] == added);
            assert(after[last].1.contains(added));
            if is_offered(sections, action) {
                let s = choose|s: int|
                    0 <= s < sections.len() && (#[trigger] sections[s]).1.contains(action);
                assert(after[s].1.contains(action));
            }
            if is_offered(after, action) && action != added {
                let s = choose|s: int|
                    0 <= s < after.len() && (#[trigger] after[s]).1.contains(action);
                if s == last {
                    let k = choose|k: int| 0 <= k < after[s].1.len() && after[s].1[k] == action;
                    assert(after[s].1[k] == added);
                }
                assert(sections[s].1.contains(action));
            }
        },
    }
}

/// No category is listed twice.
pub proof fn a_category_is_listed_once<C>(catalog: Seq<(C, ActionModel)>)
    ensures
        forall|i: int, j: int|
            0 <= i < j < grouped(catalog).len() ==> (#[trigger] grouped(catalog)[i]).0 != (
            #[trigger] grouped(catalog)[j]).0,
    decreases catalog.len(),
{
    if catalog.len() > 0 {
        a_category_is_listed_once(catalog.drop_last());
        lemma_section_place(grouped(catalog.drop_last()), catalog.last().0);
    }
}

/// The cells of two controls are never mistaken for one another, nor those of
/// two movements of one control.
pub proof fn cells_are_told_apart(
    a: ButtonId,
    x: GestureDirection,
    b: ButtonId,
    y: GestureDirection,
)
    requires
        cell_place(x) + 5 * button_rank(a) == cell_place(y) + 5 * button_rank(b),
    ensures
        a == b,
        x == y,
{
    assert(button_rank(a) == button_rank(b));
}

/// Clicking a movement twice closes what the first click opened.
pub proof fn a_second_click_closes(clicked: GestureDirection)
    ensures
        toggle_of(toggle_of(None, clicked), clicked) is None,
{
}

/// What is open once a movement is clicked.
pub open spec fn toggle_of(
    active: Option<GestureDirection>,
    clicked: GestureDirection,
) -> Option<GestureDirection> {
    if active == Some(clicked) {
        None
    } else {
        Some(clicked)
    }
}

/// A control does what it is bound to; one that is not bound does what it does by
/// default, and one without a default nothing.
pub proof fn a_binding_goes_before_the_default(
    bindings: Map<ButtonId, ActionModel>,
    defaults: Map<ButtonId, ActionModel>,
    button: ButtonId,
)
    ensures
        bindings.contains_key(button) ==> bound_in(bindings, defaults, button) == bindings[button],
        !bindings.contains_key(button) && defaults.contains_key(button) ==> bound_in(
            bindings,
            defaults,
            button,
        ) == defaults[button],
        !bindings.contains_key(button) && !defaults.contains_key(button) ==> bound_in(
            bindings,
            defaults,
            button,
        ) == ActionModel::Plain(Action::Nothing),
{
}

/// A movement does what is shown for it. One that is not bound does nothing, but a
/// click then does what the control does by default.
pub proof fn an_unbound_movement_does_nothing(
    m: StateModel,
    button: ButtonId,
    direction: GestureDirection,
)
    ensures
        ({
            let bound = m.gesture_bindings.contains_key(button)
                && m.gesture_bindings[button].contains_key(direction);
            &&& bound ==> gesture_to(m, button, direction) == m.gesture_bindings[button][direction]
            &&& !bound && direction != GestureDirection::Click ==> gesture_to(m, button, direction)
                == ActionModel::Plain(Action::Nothing)
            &&& !bound && direction == GestureDirection::Click
                && m.defaults.actions.contains_key(button) ==> gesture_to(m, button, direction)
                == m.defaults.actions[button]
        }),
{
}

/// Clicking a movement opens it, whichever was open before, and closes it where it was
/// open itself.
pub proof fn a_click_opens_one_movement(
    active: Option<GestureDirection>,
    clicked: GestureDirection,
)
    ensures
        active != Some(clicked) ==> toggle_of(active, clicked) == Some(clicked),
        active == Some(clicked) ==> toggle_of(active, clicked) is None,
{
}

/// The rows of the actions number through all sections, hold their actions in order,
/// and are marked exactly where they are the current action.
pub proof fn rows_number_through(
    sections: Seq<Seq<ActionModel>>,
    current: Option<ActionModel>,
    k: int,
)
    requires
        0 <= k < rows_of(sections, current).len(),
    ensures
        ({
            let row = rows_of(sections, current)[k];
            &&& row.id == k
            &&& row.section < sections.len()
            &&& sections[row.section as int].contains(row.action)
            &&& row.selected <==> current == Some(row.action)
        }),
    decreases sections.len(),
{
    if sections.len() > 0 {
        let rest = sections.drop_last();
        let before = rows_of(rest, current);
        let rows = rows_of(sections, current);
        if k < before.len() {
            rows_number_through(rest, current, k);
            assert(rows[k] == before[k]);
            assert(rest[rows[k].section as int] == sections[rows[k].section as int]);
        } else {
            let last = sections.last();
            assert(rows[k].action == last[k - before.len()]);
            assert(last.contains(last[k - before.len()]));
        }
    }
}

} // verus!
