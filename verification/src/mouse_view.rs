//! The picture of a mouse with its controls.

use vstd::prelude::*;

use crate::action::{Action, ActionModel};
use crate::bindings::open_overrides;
use crate::controls::{ButtonId, GestureDirection};
use crate::data::Data;
use crate::device::{DeviceKey, DeviceRecordModel, ResolvedAsset};
use crate::glow::GlowGeometry;
use crate::home::{glow_of, keyboard_glow};
use crate::keyed::{is_among, Table};
use crate::picker::{action_icon_path, bound_action_in, bound_in, gesture_button_icon, icon_of};
use crate::profile_scope::called;
use crate::state::{current_of, device_gestures, editing, AppState, Defaults};
use crate::text::{decimal, decimal_of, same_option};

verus! {

/// A control of a mouse. The two directions of the thumb wheel are one.
#[derive(Clone, Copy, Debug, PartialEq, Eq, Structural)]
pub enum MouseControlId {
    Button(ButtonId),
    ThumbwheelRotation,
}

/// The control that something was done to.
pub open spec fn control_of(button: ButtonId) -> MouseControlId {
    if button == ButtonId::ThumbwheelScrollUp || button == ButtonId::ThumbwheelScrollDown {
        MouseControlId::ThumbwheelRotation
    } else {
        MouseControlId::Button(button)
    }
}

impl MouseControlId {
    /// The control that something was done to.
    pub fn from_active_button(button: ButtonId) -> (r: MouseControlId)
        ensures
            r == control_of(button),
    {
        if button == ButtonId::ThumbwheelScrollUp || button == ButtonId::ThumbwheelScrollDown {
            MouseControlId::ThumbwheelRotation
        } else {
            MouseControlId::Button(button)
        }
    }

    /// The button that a control is, if it is one.
    pub fn button(self) -> (r: Option<ButtonId>)
        ensures
            r == (match self {
                MouseControlId::Button(button) => Some(button),
                MouseControlId::ThumbwheelRotation => None,
            }),
    {
        match self {
            MouseControlId::Button(button) => Some(button),
            MouseControlId::ThumbwheelRotation => None,
        }
    }
}

/// What changed in the state of the application.
#[derive(Clone, Debug, PartialEq, Eq)]
pub enum StateEvent {
    AgentChanged,
    ForegroundChanged,
    DiagnosticsChanged,
    InventoryChanged,
    DeviceSelected(DeviceKey),
    BindingsChanged(DeviceKey),
    DpiChanged(DeviceKey),
    SmartShiftChanged(DeviceKey),
    LightingChanged(DeviceKey),
    CameraChanged,
    CameraPermissionChanged,
    DeviceConfigChanged(DeviceKey),
    SettingsChanged,
}

/// Whether a change shows in the picture of the selected device.
pub fn concerns_picture(event: &StateEvent, state: &AppState) -> (r: bool)
    ensures
        r == match *event {
            StateEvent::InventoryChanged => true,
            StateEvent::DeviceSelected(_) => true,
            StateEvent::ForegroundChanged => true,
            StateEvent::BindingsChanged(key) => match current_of(state.deep_view().devices) {
                Some(record) => record.config_key == key.deep_view(),
                None => false,
            },
            StateEvent::LightingChanged(key) => match current_of(state.deep_view().devices) {
                Some(record) => record.config_key == key.deep_view(),
                None => false,
            },
            _ => false,
        },
{
    match event {
        StateEvent::InventoryChanged => true,
        StateEvent::DeviceSelected(_) => true,
        StateEvent::ForegroundChanged => true,
        StateEvent::BindingsChanged(key) => match state.current_record() {
            Some(record) => record.device_key().same(key),
            None => false,
        },
        StateEvent::LightingChanged(key) => match state.current_record() {
            Some(record) => record.device_key().same(key),
            None => false,
        },
        _ => false,
    }
}

/// What the picture shows of the state.
#[derive(Clone, Debug)]
pub struct MouseWorkspaceData {
    pub device_key: Option<String>,
    pub asset: Option<ResolvedAsset>,
    /// The control that is being used.
    pub active: Option<MouseControlId>,
    pub bindings: Table<ButtonId, Action>,
    pub gesture_maps: Table<ButtonId, Table<GestureDirection, Action>>,
    pub glow: Option<(GlowGeometry, (u8, u8, u8))>,
    pub thumbwheel: bool,
    /// What the application is called whose profile is open.
    pub editing_app: Option<String>,
    /// What the open profile overrides.
    pub overridden: Table<ButtonId, Action>,
}

/// Whether a device has a thumb wheel.
pub open spec fn has_thumbwheel(record: Option<DeviceRecordModel>) -> bool {
    record is Some && record->0.capabilities is Some && record->0.capabilities->0.thumbwheel
}

impl MouseWorkspaceData {
    /// What the picture shows of the state. `transient` says whether the key of
    /// the selected device is one of a unit that was not read.
    pub fn read(state: &AppState, active: Option<ButtonId>, transient: bool) -> (r:
        MouseWorkspaceData)
        ensures
            ({
                let m = state.deep_view();
                let record = current_of(m.devices);
                &&& r.device_key.deep_view() == match record {
                    Some(record) => Some(record.config_key),
                    None => None,
                }
                &&& r.asset.deep_view() == match record {
                    Some(record) => record.asset,
                    None => None,
                }
                &&& r.active == match active {
                    Some(button) => Some(control_of(button)),
                    None => None,
                }
                &&& r.bindings.deep_view() == m.button_bindings
                &&& r.gesture_maps.deep_view() == device_gestures(m)
                &&& match r.glow {
                    Some((geometry, color)) => record is Some && glow_of(m, record->0, transient)
                        == Some((geometry.deep_view(), color)),
                    None => record is None || glow_of(m, record->0, transient) is None,
                }
                &&& r.thumbwheel == has_thumbwheel(record)
                &&& r.editing_app.deep_view() == match editing(m) {
                    Some(app) => Some(called(m.foreground.recent, app)),
                    None => None,
                }
                &&& r.overridden.deep_view() == open_overrides(m)
            }),
    {
        let record = state.current_record();
        let device_key = match record {
            Some(record) => Some(record.config_key.duplicate()),
            None => None,
        };
        let asset = match record {
            Some(record) => record.asset.duplicate(),
            None => None,
        };
        let active = match active {
            Some(button) => Some(MouseControlId::from_active_button(button)),
            None => None,
        };
        let glow = match record {
            Some(record) => keyboard_glow(state, record, transient),
            None => None,
        };
        let thumbwheel = match record {
            Some(record) => match record.capabilities {
                Some(capabilities) => capabilities.thumbwheel,
                None => false,
            },
            None => false,
        };
        let editing_app = match state.editing_app() {
            Some(app) => Some(state.name_of_app(&app)),
            None => None,
        };
        let overridden = match state.editing_app_overrides() {
            Some(overridden) => overridden,
            None => Table::new(),
        };
        MouseWorkspaceData {
            device_key,
            asset,
            active,
            bindings: state.button_bindings.duplicate(),
            gesture_maps: state.device_gesture_maps(),
            glow,
            thumbwheel,
            editing_app,
            overridden,
        }
    }

    /// The controls that gesture and are not overridden by the open profile.
    pub fn gesture_buttons(&self) -> (r: Vec<ButtonId>)
        ensures
            r@ == not_overridden(
                self.gesture_maps.keys(),
                self.editing_app is Some,
                self.overridden.deep_view(),
            ),
    {
        let ghost keys = self.gesture_maps.keys();
        let ghost over = self.overridden.deep_view();
        let n: usize = self.gesture_maps.len();
        let mut r: Vec<ButtonId> = Vec::new();
        let mut i: usize = 0;
        proof {
            assert(keys.take(0) =~= Seq::empty());
            assert(r@ =~= Seq::empty());
        }
        while i < n
            invariant
                i <= n,
                n == keys.len(),
                keys == self.gesture_maps.keys(),
                over == self.overridden.deep_view(),
                r@ == not_overridden(keys.take(i as int), self.editing_app is Some, over),
            decreases n - i,
        {
            let button = *self.gesture_maps.key_at(i);
            proof {
                assert(keys.take(i as int + 1).drop_last() =~= keys.take(i as int));
                assert(keys.take(i as int + 1).last() == button);
            }
            if self.editing_app.is_none() || !self.overridden.contains(&button) {
                r.push(button);
            }
            i = i + 1;
        }
        proof {
            assert(keys.take(keys.len() as int) =~= keys);
        }
        r
    }
}

/// The controls that are not overridden by the open profile.
pub open spec fn not_overridden(
    buttons: Seq<ButtonId>,
    in_profile: bool,
    overridden: Map<ButtonId, ActionModel>,
) -> Seq<ButtonId>
    decreases buttons.len(),
{
    if buttons.len() == 0 {
        Seq::empty()
    } else {
        let before = not_overridden(buttons.drop_last(), in_profile, overridden);
        if !in_profile || !overridden.contains_key(buttons.last()) {
            before.push(buttons.last())
        } else {
            before
        }
    }
}

/// What is being done with the picture.
#[derive(Clone, Debug, PartialEq, Eq)]
pub struct MouseModelView {
    pub current_device_key: Option<String>,
    pub hovered: Option<MouseControlId>,
    pub selected: Option<MouseControlId>,
    /// The movement whose action is open.
    pub gesture_active_dir: Option<GestureDirection>,
    pub action_picker_open: bool,
}

impl MouseModelView {
    /// Nothing is being done yet.
    pub fn new() -> (r: MouseModelView)
        ensures
            r == (MouseModelView {
                current_device_key: None,
                hovered: None,
                selected: None,
                gesture_active_dir: None,
                action_picker_open: false,
            }),
    {
        MouseModelView {
            current_device_key: None,
            hovered: None,
            selected: None,
            gesture_active_dir: None,
            action_picker_open: false,
        }
    }

    /// Open the action of a movement, or none.
    pub fn set_gesture_selected_dir(&mut self, dir: Option<GestureDirection>)
        ensures
            *final(self) == (MouseModelView {
                gesture_active_dir: dir,
                action_picker_open: false,
                ..*old(self)
            }),
    {
        self.gesture_active_dir = dir;
        self.action_picker_open = false;
    }

    /// The movement whose action is open.
    pub fn gesture_selected_dir(&self) -> (r: Option<GestureDirection>)
        ensures
            r == self.gesture_active_dir,
    {
        self.gesture_active_dir
    }

    /// Open the list of actions, or close it.
    pub fn toggle_action_picker(&mut self)
        ensures
            *final(self) == (MouseModelView {
                action_picker_open: !old(self).action_picker_open,
                ..*old(self)
            }),
    {
        self.action_picker_open = !self.action_picker_open;
    }

    /// Close the list of actions.
    pub fn close_action_picker(&mut self)
        ensures
            *final(self) == (MouseModelView { action_picker_open: false, ..*old(self) }),
    {
        self.action_picker_open = false;
    }

    /// Select a control. Another one closes what was open for the one before.
    pub fn select(&mut self, control: MouseControlId)
        ensures
            *final(self) == after_select(*old(self), control),
    {
        let same = match self.selected {
            Some(selected) => selected == control,
            None => false,
        };
        if !same {
            self.selected = Some(control);
            self.gesture_active_dir = None;
            self.action_picker_open = false;
        }
    }

    /// The pointer came over a control, or left it.
    pub fn set_control_hovered(&mut self, control: MouseControlId, hovered: bool)
        ensures
            *final(self) == after_hover(*old(self), control, hovered),
    {
        if hovered {
            self.hovered = Some(control);
        } else {
            let same = match self.hovered {
                Some(over) => over == control,
                None => false,
            };
            if same {
                self.hovered = None;
            }
        }
    }

    /// Show a device. Another one starts from nothing.
    pub fn show_device(&mut self, device_key: Option<String>)
        ensures
            final(self).current_device_key.deep_view() == device_key.deep_view(),
            if old(self).current_device_key.deep_view() == device_key.deep_view() {
                *final(self) == *old(self)
            } else {
                &&& final(self).hovered is None
                &&& final(self).selected is None
                &&& final(self).gesture_active_dir is None
                &&& !final(self).action_picker_open
            },
    {
        if !same_option(&self.current_device_key, &device_key) {
            self.current_device_key = device_key;
            self.hovered = None;
            self.selected = None;
            self.gesture_active_dir = None;
            self.action_picker_open = false;
        }
    }

    /// The control that stands out: the one under the pointer, and else the one
    /// that is being used.
    pub fn highlight(&self, active: Option<MouseControlId>) -> (r: Option<MouseControlId>)
        ensures
            r == standing_out(*self, active),
    {
        match self.hovered {
            Some(control) => Some(control),
            None => active,
        }
    }
}

/// What is being done once a control is selected.
pub open spec fn after_select(view: MouseModelView, control: MouseControlId) -> MouseModelView {
    if view.selected == Some(control) {
        view
    } else {
        MouseModelView {
            selected: Some(control),
            gesture_active_dir: None,
            action_picker_open: false,
            ..view
        }
    }
}

/// What is being done once the pointer came over a control, or left it.
pub open spec fn after_hover(
    view: MouseModelView,
    control: MouseControlId,
    hovered: bool,
) -> MouseModelView {
    if hovered {
        MouseModelView { hovered: Some(control), ..view }
    } else if view.hovered == Some(control) {
        MouseModelView { hovered: None, ..view }
    } else {
        view
    }
}

/// What the card of a control says.
#[derive(Clone, Debug, PartialEq, Eq)]
pub enum BindingLabel {
    /// It gestures, in five directions.
    Directions,
    Action(Action),
    /// The two directions of the thumb wheel.
    Wheel { backward: Action, forward: Action },
}

/// Whether a label says what a control does.
pub open spec fn says(
    label: BindingLabel,
    control: MouseControlId,
    bindings: Map<ButtonId, ActionModel>,
    defaults: Map<ButtonId, ActionModel>,
    gesturing: Seq<ButtonId>,
) -> bool {
    match control {
        MouseControlId::Button(button) => if gesturing.contains(button) {
            label == BindingLabel::Directions
        } else {
            label matches BindingLabel::Action(action) && action.deep_view() == bound_in(
                bindings,
                defaults,
                button,
            )
        },
        MouseControlId::ThumbwheelRotation => label matches BindingLabel::Wheel {
            backward,
            forward,
        } && backward.deep_view() == bound_in(bindings, defaults, ButtonId::ThumbwheelScrollDown)
            && forward.deep_view() == bound_in(bindings, defaults, ButtonId::ThumbwheelScrollUp),
    }
}

/// What the card of a control says.
pub fn binding_label_for_control(
    control: MouseControlId,
    bindings: &Table<ButtonId, Action>,
    defaults: &Table<ButtonId, Action>,
    gesture_buttons: &Vec<ButtonId>,
) -> (r: BindingLabel)
    ensures
        says(r, control, bindings.deep_view(), defaults.deep_view(), gesture_buttons@),
{
    match control {
        MouseControlId::Button(button) => {
            proof {
                assert(gesture_buttons.deep_view() =~= gesture_buttons@);
            }
            if is_among(&button, gesture_buttons) {
                BindingLabel::Directions
            } else {
                BindingLabel::Action(bound_action_in(bindings, defaults, button))
            }
        },
        MouseControlId::ThumbwheelRotation => {
            BindingLabel::Wheel {
                backward: bound_action_in(bindings, defaults, ButtonId::ThumbwheelScrollDown),
                forward: bound_action_in(bindings, defaults, ButtonId::ThumbwheelScrollUp),
            }
        },
    }
}

impl BindingLabel {
    /// The mark on the card of a control. `preset` is the mark of what the thumb
    /// wheel does, where that has a name.
    pub fn icon(&self, preset: Option<&'static str>) -> (r: &'static str)
        ensures
            r@ == match *self {
                BindingLabel::Directions => "action-icons/move.svg"@,
                BindingLabel::Action(action) => icon_of(action),
                BindingLabel::Wheel { .. } => match preset {
                    Some(icon) => icon@,
                    None => "action-icons/chevrons-right.svg"@,
                },
            },
    {
        match self {
            BindingLabel::Directions => gesture_button_icon(),
            BindingLabel::Action(action) => action_icon_path(action),
            BindingLabel::Wheel { .. } => match preset {
                Some(icon) => icon,
                None => "action-icons/chevrons-right.svg",
            },
        }
    }
}

/// What an action is called.
#[derive(Clone, Debug, PartialEq, Eq)]
pub enum ActionText {
    /// The preset of that number, counted from one.
    DpiPreset(String),
    /// The keys as they are written.
    Shortcut(String),
    /// The name of the action.
    Named,
}

/// What an action is called.
pub fn localized_action_label(action: &Action) -> (r: ActionText)
    ensures
        match *action {
            Action::SetDpiPreset(index) => r matches ActionText::DpiPreset(number) && number@
                == decimal_of((index + 1) as nat),
            Action::CustomShortcut(keys) => r matches ActionText::Shortcut(text) && text@ == keys@,
            _ => r == ActionText::Named,
        },
{
    match action {
        Action::SetDpiPreset(index) => ActionText::DpiPreset(decimal(*index as u64 + 1)),
        Action::CustomShortcut(keys) => ActionText::Shortcut(keys.duplicate()),
        _ => ActionText::Named,
    }
}

/// The side of the picture that a card stands on.
#[derive(Clone, Copy, Debug, PartialEq, Eq, Structural)]
pub enum Side {
    Left,
    Right,
}

/// A card beside the picture.
#[derive(Clone, Copy, Debug, PartialEq, Eq, Structural)]
pub struct Label {
    pub id: MouseControlId,
    pub side: Side,
}

/// A line from a spot of the picture to a card.
#[derive(Clone, Copy, Debug, PartialEq, Eq, Structural)]
pub struct LeaderLine {
    /// The place of the card.
    pub label: usize,
    /// The place of the spot.
    pub hotspot: usize,
    pub highlighted: bool,
}

/// The first spot of a control.
pub open spec fn spot_of(hotspots: Seq<MouseControlId>, control: MouseControlId) -> Option<nat>
    decreases hotspots.len(),
{
    if hotspots.len() == 0 {
        None
    } else {
        match spot_of(hotspots.drop_last(), control) {
            Some(i) => Some(i),
            None => if hotspots.last() == control {
                Some((hotspots.len() - 1) as nat)
            } else {
                None
            },
        }
    }
}

/// The lines from spots to cards: one for each card whose control has a spot.
pub open spec fn lines_of(
    labels: Seq<Label>,
    hotspots: Seq<MouseControlId>,
    highlighted: Option<MouseControlId>,
) -> Seq<(nat, nat, bool)>
    decreases labels.len(),
{
    if labels.len() == 0 {
        Seq::empty()
    } else {
        let before = lines_of(labels.drop_last(), hotspots, highlighted);
        match spot_of(hotspots, labels.last().id) {
            Some(spot) => before.push(
                ((labels.len() - 1) as nat, spot, highlighted == Some(labels.last().id)),
            ),
            None => before,
        }
    }
}

impl DeepView for LeaderLine {
    type V = (nat, nat, bool);

    open spec fn deep_view(&self) -> (nat, nat, bool) {
        (self.label as nat, self.hotspot as nat, self.highlighted)
    }
}

fn find_spot(hotspots: &Vec<MouseControlId>, control: MouseControlId) -> (r: Option<usize>)
    ensures
        match r {
            Some(i) => spot_of(hotspots@, control) == Some(i as nat),
            None => spot_of(hotspots@, control) is None,
        },
{
    let mut r: Option<usize> = None;
    let mut i: usize = 0;
    proof {
        assert(hotspots@.take(0) =~= Seq::empty());
    }
    while i < hotspots.len()
        invariant
            i <= hotspots@.len(),
            match r {
                Some(k) => k < i && spot_of(hotspots@.take(i as int), control) == Some(k as nat),
                None => spot_of(hotspots@.take(i as int), control) is None,
            },
        decreases hotspots@.len() - i,
    {
        proof {
            assert(hotspots@.take(i as int + 1).drop_last() =~= hotspots@.take(i as int));
        }
        if r.is_none() && hotspots[i] == control {
            r = Some(i);
        }
        i = i + 1;
    }
    proof {
        assert(hotspots@.take(hotspots@.len() as int) =~= hotspots@);
    }
    r
}

/// The lines from spots to cards: one for each card whose control has a spot.
/// That of the control that stands out is highlighted.
pub fn leader_lines(
    labels: &Vec<Label>,
    hotspots: &Vec<MouseControlId>,
    highlighted: Option<MouseControlId>,
) -> (r: Vec<LeaderLine>)
    ensures
        r.deep_view() == lines_of(labels@, hotspots@, highlighted),
{
    let mut r: Vec<LeaderLine> = Vec::new();
    let mut i: usize = 0;
    proof {
        assert(labels@.take(0) =~= Seq::empty());
        assert(r.deep_view() =~= Seq::empty());
    }
    while i < labels.len()
        invariant
            i <= labels@.len(),
            r.deep_view() == lines_of(labels@.take(i as int), hotspots@, highlighted),
        decreases labels@.len() - i,
    {
        let id = labels[i].id;
        let ghost was = r.deep_view();
        proof {
            assert(labels@.take(i as int + 1).drop_last() =~= labels@.take(i as int));
            assert(labels@.take(i as int + 1).last().id == id);
        }
        match find_spot(hotspots, id) {
            Some(hotspot) => {
                let stands_out = match highlighted {
                    Some(control) => control == id,
                    None => false,
                };
                r.push(LeaderLine { label: i, hotspot, highlighted: stands_out });
                proof {
                    assert(r.deep_view() =~= was.push((i as nat, hotspot as nat, stands_out)));
                }
            },
            None => {},
        }
        i = i + 1;
    }
    proof {
        assert(labels@.take(labels@.len() as int) =~= labels@);
    }
    r
}

/// The control that stands out: the hovered one, and else the active one.
pub open spec fn standing_out(
    view: MouseModelView,
    active: Option<MouseControlId>,
) -> Option<MouseControlId> {
    if view.hovered is Some {
        view.hovered
    } else {
        active
    }
}

/// Whether a control is drawn in the accent: it is hovered, active or selected.
pub open spec fn lit(
    view: MouseModelView,
    active: Option<MouseControlId>,
    control: MouseControlId,
) -> bool {
    view.hovered == Some(control) || active == Some(control) || view.selected == Some(control)
}

/// The card of a control beside the picture.
#[derive(Debug, PartialEq, Eq)]
pub struct LabelCard {
    pub id: MouseControlId,
    pub side: Side,
    pub binding: BindingLabel,
    pub highlighted: bool,
    pub selected: bool,
}

/// The dot of a control on the picture.
#[derive(Clone, Copy, Debug, PartialEq, Eq, Structural)]
pub struct HotspotDot {
    pub highlighted: bool,
    pub selected: bool,
}

/// What is drawn of a mouse.
#[derive(Debug)]
pub struct MousePicture {
    pub cards: Vec<LabelCard>,
    pub dots: Vec<HotspotDot>,
    pub lines: Vec<LeaderLine>,
}

/// Whether a card is that of a label.
pub open spec fn is_card(
    card: LabelCard,
    label: Label,
    view: MouseModelView,
    active: Option<MouseControlId>,
    bindings: Map<ButtonId, ActionModel>,
    defaults: Map<ButtonId, ActionModel>,
    gesturing: Seq<ButtonId>,
) -> bool {
    &&& card.id == label.id
    &&& card.side == label.side
    &&& says(card.binding, label.id, bindings, defaults, gesturing)
    &&& card.highlighted == lit(view, active, label.id)
    &&& card.selected == (view.selected == Some(label.id))
}

/// Whether a dot is that of a control.
pub open spec fn is_dot(
    dot: HotspotDot,
    control: MouseControlId,
    view: MouseModelView,
    active: Option<MouseControlId>,
) -> bool {
    dot.highlighted == lit(view, active, control) && dot.selected == (view.selected == Some(
        control,
    ))
}

fn is_control(held: Option<MouseControlId>, control: MouseControlId) -> (r: bool)
    ensures
        r == (held == Some(control)),
{
    match held {
        Some(other) => other == control,
        None => false,
    }
}

impl MouseModelView {
    /// Whether a control is drawn in the accent.
    fn is_lit(&self, active: Option<MouseControlId>, control: MouseControlId) -> (r: bool)
        ensures
            r == lit(*self, active, control),
    {
        is_control(self.hovered, control) || is_control(active, control) || is_control(
            self.selected,
            control,
        )
    }

    /// The cards beside the picture, one for each label.
    pub fn label_cards(
        &self,
        bindings: &Table<ButtonId, Action>,
        defaults: &Table<ButtonId, Action>,
        gesture_buttons: &Vec<ButtonId>,
        active: Option<MouseControlId>,
        labels: &Vec<Label>,
    ) -> (r: Vec<LabelCard>)
        ensures
            r@.len() == labels@.len(),
            forall|i: int|
                0 <= i < r@.len() ==> is_card(
                    #[trigger] r@[i],
                    labels@[i],
                    *self,
                    active,
                    bindings.deep_view(),
                    defaults.deep_view(),
                    gesture_buttons@,
                ),
    {
        let mut r: Vec<LabelCard> = Vec::new();
        let mut i: usize = 0;
        while i < labels.len()
            invariant
                i <= labels@.len(),
                r@.len() == i,
                forall|k: int|
                    0 <= k < i ==> is_card(
                        #[trigger] r@[k],
                        labels@[k],
                        *self,
                        active,
                        bindings.deep_view(),
                        defaults.deep_view(),
                        gesture_buttons@,
                    ),
            decreases labels@.len() - i,
        {
            let label = labels[i];
            r.push(
                LabelCard {
                    id: label.id,
                    side: label.side,
                    binding: binding_label_for_control(
                        label.id,
                        bindings,
                        defaults,
                        gesture_buttons,
                    ),
                    highlighted: self.is_lit(active, label.id),
                    selected: is_control(self.selected, label.id),
                },
            );
            i = i + 1;
        }
        r
    }

    /// The dots on the picture, one for each spot.
    pub fn hotspot_dots(
        &self,
        active: Option<MouseControlId>,
        hotspots: &Vec<MouseControlId>,
    ) -> (r: Vec<HotspotDot>)
        ensures
            r@.len() == hotspots@.len(),
            forall|i: int|
                0 <= i < r@.len() ==> is_dot(#[trigger] r@[i], hotspots@[i], *self, active),
    {
        let mut r: Vec<HotspotDot> = Vec::new();
        let mut i: usize = 0;
        while i < hotspots.len()
            invariant
                i <= hotspots@.len(),
                r@.len() == i,
                forall|k: int|
                    0 <= k < i ==> is_dot(#[trigger] r@[k], hotspots@[k], *self, active),
            decreases hotspots@.len() - i,
        {
            let control = hotspots[i];
            r.push(
                HotspotDot {
                    highlighted: self.is_lit(active, control),
                    selected: is_control(self.selected, control),
                },
            );
            i = i + 1;
        }
        r
    }

    /// What is drawn of the mouse that `data` was read of, once the view has
    /// turned to it. What `data` leaves unbound does what the defaults have it do.
    pub fn render(
        &mut self,
        defaults: &Defaults,
        data: &MouseWorkspaceData,
        labels: &Vec<Label>,
        hotspots: &Vec<MouseControlId>,
    ) -> (r: MousePicture)
        ensures
            final(self).current_device_key.deep_view() == data.device_key.deep_view(),
            if old(self).current_device_key.deep_view() == data.device_key.deep_view() {
                *final(self) == *old(self)
            } else {
                &&& final(self).hovered is None
                &&& final(self).selected is None
                &&& final(self).gesture_active_dir is None
                &&& !final(self).action_picker_open
            },
            r.cards@.len() == labels@.len(),
            forall|i: int|
                0 <= i < r.cards@.len() ==> is_card(
                    #[trigger] r.cards@[i],
                    labels@[i],
                    *final(self),
                    data.active,
                    data.bindings.deep_view(),
                    defaults.deep_view().actions,
                    not_overridden(
                        data.gesture_maps.keys(),
                        data.editing_app is Some,
                        data.overridden.deep_view(),
                    ),
                ),
            r.dots@.len() == hotspots@.len(),
            forall|i: int|
                0 <= i < r.dots@.len() ==> is_dot(
                    #[trigger] r.dots@[i],
                    hotspots@[i],
                    *final(self),
                    data.active,
                ),
            r.lines.deep_view() == lines_of(
                labels@,
                hotspots@,
                standing_out(*final(self), data.active),
            ),
    {
        self.show_device(data.device_key.duplicate());
        let gesture_buttons = data.gesture_buttons();
        let highlighted = self.highlight(data.active);
        MousePicture {
            cards: self.label_cards(
                &data.bindings,
                &defaults.actions,
                &gesture_buttons,
                data.active,
                labels,
            ),
            dots: self.hotspot_dots(data.active, hotspots),
            lines: leader_lines(labels, hotspots, highlighted),
        }
    }
}

/// A card and a dot of the same control are lit together, and the line between
/// them only when they are.
pub proof fn card_and_dot_agree(
    card: LabelCard,
    label: Label,
    dot: HotspotDot,
    view: MouseModelView,
    active: Option<MouseControlId>,
    bindings: Map<ButtonId, ActionModel>,
    defaults: Map<ButtonId, ActionModel>,
    gesturing: Seq<ButtonId>,
)
    requires
        is_card(card, label, view, active, bindings, defaults, gesturing),
        is_dot(dot, label.id, view, active),
    ensures
        card.highlighted == dot.highlighted,
        card.selected == dot.selected,
        standing_out(view, active) == Some(label.id) ==> card.highlighted,
{
}

/// Selecting another control closes the list of actions; selecting the same
/// one again leaves it as it is.
pub proof fn another_control_closes_the_list(view: MouseModelView, control: MouseControlId)
    ensures
        after_select(view, control).selected == Some(control),
        view.selected != Some(control) ==> !after_select(view, control).action_picker_open,
        after_select(after_select(view, control), control) == after_select(view, control),
{
}

/// A pointer that leaves a control it has left already takes nothing away from
/// the one it came over since.
pub proof fn leaving_late_does_no_harm(
    view: MouseModelView,
    old_control: MouseControlId,
    new_control: MouseControlId,
)
    requires
        old_control != new_control,
    ensures
        after_hover(after_hover(view, new_control, true), old_control, false).hovered == Some(
            new_control,
        ),
{
}

/// Both directions of the thumb wheel highlight the one control.
pub proof fn the_wheel_is_one_control()
    ensures
        control_of(ButtonId::ThumbwheelScrollUp) == control_of(ButtonId::ThumbwheelScrollDown),
{
}

/// The card of a control says what the control does: its directions where it
/// gestures, else what it is bound to, else what it does by default.
pub proof fn a_card_says_what_its_control_does(
    label: BindingLabel,
    button: ButtonId,
    bindings: Map<ButtonId, ActionModel>,
    defaults: Map<ButtonId, ActionModel>,
    gesturing: Seq<ButtonId>,
)
    requires
        says(label, MouseControlId::Button(button), bindings, defaults, gesturing),
    ensures
        label is Directions <==> gesturing.contains(button),
        !gesturing.contains(button) && bindings.contains_key(button) ==> (
        label matches BindingLabel::Action(action) && action.deep_view() == bindings[button]),
        !gesturing.contains(button) && !bindings.contains_key(button) && defaults.contains_key(
            button,
        ) ==> (label matches BindingLabel::Action(action) && action.deep_view()
            == defaults[button]),
{
}

/// The card of the thumb wheel says what both of its directions do, each its own.
pub proof fn the_card_of_the_wheel_says_both_ways(
    label: BindingLabel,
    bindings: Map<ButtonId, ActionModel>,
    defaults: Map<ButtonId, ActionModel>,
    gesturing: Seq<ButtonId>,
)
    requires
        says(label, MouseControlId::ThumbwheelRotation, bindings, defaults, gesturing),
        bindings.contains_key(ButtonId::ThumbwheelScrollDown),
        bindings.contains_key(ButtonId::ThumbwheelScrollUp),
    ensures
        label matches BindingLabel::Wheel { backward, forward } && backward.deep_view()
            == bindings[ButtonId::ThumbwheelScrollDown] && forward.deep_view()
            == bindings[ButtonId::ThumbwheelScrollUp],
{
}

/// A control is drawn in the accent exactly while it is hovered, used or selected;
/// what stands out is the hovered one before the used one.
pub proof fn the_hovered_control_stands_out(
    view: MouseModelView,
    active: Option<MouseControlId>,
    control: MouseControlId,
)
    ensures
        lit(view, active, control) <==> view.hovered == Some(control) || active == Some(control)
            || view.selected == Some(control),
        view.hovered is Some ==> standing_out(view, active) == view.hovered,
        view.hovered is None ==> standing_out(view, active) == active,
{
}

/// Selecting a control, and coming over one, is about that control alone; leaving it
/// takes back just that.
pub proof fn the_pointer_is_over_one_control(
    view: MouseModelView,
    control: MouseControlId,
    other: MouseControlId,
)
    ensures
        after_hover(view, control, true).hovered == Some(control),
        after_hover(view, control, true).selected == view.selected,
        view.hovered == Some(control) ==> after_hover(view, control, false).hovered is None,
        view.hovered != Some(control) ==> after_hover(view, control, false) == view,
        after_select(view, control).hovered == view.hovered,
        after_select(view, control).current_device_key == view.current_device_key,
        view.selected != Some(control) ==> after_select(view, control).gesture_active_dir is None,
        view.selected == Some(control) ==> after_select(view, control) == view,
{
}

/// Both directions of the thumb wheel are one control, and every other button is its
/// own.
pub proof fn a_button_is_its_own_control(button: ButtonId)
    ensures
        control_of(ButtonId::ThumbwheelScrollUp) is ThumbwheelRotation,
        control_of(ButtonId::ThumbwheelScrollDown) is ThumbwheelRotation,
        button != ButtonId::ThumbwheelScrollUp && button != ButtonId::ThumbwheelScrollDown
            ==> control_of(button) == MouseControlId::Button(button),
{
}

/// In the profile of an application, a control that it overrides no longer gestures;
/// the others do, and all of them do outside of one.
pub proof fn an_overridden_control_does_not_gesture(
    buttons: Seq<ButtonId>,
    in_profile: bool,
    overridden: Map<ButtonId, ActionModel>,
    button: ButtonId,
)
    ensures
        not_overridden(buttons, in_profile, overridden).contains(button) <==> buttons.contains(
            button,
        ) && !(in_profile && overridden.contains_key(button)),
    decreases buttons.len(),
{
    let now = not_overridden(buttons, in_profile, overridden);
    if buttons.len() == 0 {
        assert(!buttons.contains(button));
    } else {
        let rest = buttons.drop_last();
        let last = buttons.last();
        let before = not_overridden(rest, in_profile, overridden);
        an_overridden_control_does_not_gesture(rest, in_profile, overridden, button);
        if rest.contains(button) {
            let i = choose|i: int| 0 <= i < rest.len() && rest[i] == button;
            assert(buttons[i] == button);
        }
        if buttons.contains(button) && button != last {
            let i = choose|i: int| 0 <= i < buttons.len() && buttons[i] == button;
            assert(rest[i] == button);
        }
        if button == last {
            assert(buttons[buttons.len() - 1] == button);
        }
        if before.contains(button) {
            let i = choose|i: int| 0 <= i < before.len() && before[i] == button;
            assert(now[i] == button);
        }
        if now.contains(button) {
            let i = choose|i: int| 0 <= i < now.len() && now[i] == button;
            if i < before.len() {
                assert(before[i] == button);
            }
        }
        if now.len() > before.len() {
            assert(now[before.len() as int] == last);
        }
    }
}

/// A line goes from the first spot of a control to its card, and is lit exactly where
/// that control stands out. A card whose control has no spot has none.
pub proof fn a_line_goes_from_a_spot_to_its_card(
    labels: Seq<Label>,
    hotspots: Seq<MouseControlId>,
    highlighted: Option<MouseControlId>,
    k: int,
)
    requires
        0 <= k < lines_of(labels, hotspots, highlighted).len(),
    ensures
        ({
            let (card, spot, is_lit) = lines_of(labels, hotspots, highlighted)[k];
            &&& card < labels.len()
            &&& spot < hotspots.len()
            &&& hotspots[spot as int] == labels[card as int].id
            &&& is_lit <==> highlighted == Some(labels[card as int].id)
        }),
    decreases labels.len(),
{
    if labels.len() > 0 {
        let rest = labels.drop_last();
        let before = lines_of(rest, hotspots, highlighted);
        if k < before.len() {
            a_line_goes_from_a_spot_to_its_card(rest, hotspots, highlighted, k);
            assert(lines_of(labels, hotspots, highlighted)[k] == before[k]);
        } else {
            lemma_spot(hotspots, labels.last().id);
        }
    }
}

proof fn lemma_spot(hotspots: Seq<MouseControlId>, control: MouseControlId)
    ensures
        match spot_of(hotspots, control) {
            Some(i) => i < hotspots.len() && hotspots[i as int] == control && forall|j: int|
                0 <= j < i ==> #[trigger] hotspots[j] != control,
            None => !hotspots.contains(control),
        },
    decreases hotspots.len(),
{
    if hotspots.len() > 0 {
        let rest = hotspots.drop_last();
        lemma_spot(rest, control);
        assert forall|j: int| 0 <= j < rest.len() implies #[trigger] rest[j] == hotspots[j] by {}
        if spot_of(hotspots, control) is None && hotspots.contains(control) {
            let i = choose|i: int| 0 <= i < hotspots.len() && hotspots[i] == control;
            assert(rest[i] == control);
        }
        if let Some(i) = spot_of(rest, control) {
            assert forall|j: int| 0 <= j < i implies #[trigger] hotspots[j] != control by {
                assert(rest[j] == hotspots[j]);
            }
        } else if hotspots.last() == control {
            assert forall|j: int| 0 <= j < rest.len() implies #[trigger] hotspots[j] != control by {
                assert(rest[j] == hotspots[j]);
                assert(rest.contains(rest[j]));
            }
        }
    }
}

/// Every card whose control has a spot has a line.
pub proof fn every_card_with_a_spot_has_a_line(
    labels: Seq<Label>,
    hotspots: Seq<MouseControlId>,
    highlighted: Option<MouseControlId>,
    i: int,
)
    requires
        0 <= i < labels.len(),
        hotspots.contains(labels[i].id),
    ensures
        exists|k: int|
            0 <= k < lines_of(labels, hotspots, highlighted).len() && (
            #[trigger] lines_of(labels, hotspots, highlighted)[k]).0 == i,
    decreases labels.len(),
{
    let rest = labels.drop_last();
    let before = lines_of(rest, hotspots, highlighted);
    let now = lines_of(labels, hotspots, highlighted);
    lemma_spot(hotspots, labels[i].id);
    if i < rest.len() {
        assert(rest[i] == labels[i]);
        every_card_with_a_spot_has_a_line(rest, hotspots, highlighted, i);
        let k = choose|k: int| 0 <= k < before.len() && (#[trigger] before[k]).0 == i;
        assert(now[k].0 == i);
    } else {
        assert(now[before.len() as int].0 == i);
    }
}

} // verus!
