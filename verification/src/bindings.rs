//! Edits of what controls, gestures and keys do.

use vstd::prelude::*;

use crate::action::{button_rank, direction_rank, Action, ActionModel, Binding, BindingModel};
use crate::config::{
    overrides_of, row_of, with_override, with_row, Config, ConfigModel, DeviceConfigModel,
};
use crate::controls::{ButtonId, GestureDirection};
use crate::data::Data;
use crate::keyed::{ascending, Table};
use crate::state::{
    bound_directions, current_key, device_gestures, editing, gesture_maps, gestures, persisted,
    projected, reloading, reprojected, seeded, shown_bindings, shown_gestures, singles, to_write,
    AppState, ConfigPersistence, DefaultsModel, EditingScope, EditingScopeModel, Save, StateModel,
};

verus! {

/// The two actions of a thumb wheel.
#[derive(Clone, Debug, PartialEq, Eq)]
pub struct ThumbwheelPair {
    pub backward: Action,
    pub forward: Action,
}

/// A row with a control bound to one action.
pub open spec fn with_single(
    row: DeviceConfigModel,
    button: ButtonId,
    action: ActionModel,
) -> DeviceConfigModel {
    DeviceConfigModel {
        bindings: row.bindings.insert(button, BindingModel::Single(action)),
        ..row
    }
}

/// A row with a control bound to one action, in one application or in all.
pub open spec fn with_action(
    row: DeviceConfigModel,
    app: Option<Seq<char>>,
    button: ButtonId,
    action: ActionModel,
) -> DeviceConfigModel {
    match app {
        Some(app) => with_override(row, app, button, Some(action)),
        None => with_single(row, button, action),
    }
}

/// A configuration with a control of a device bound to one action.
pub open spec fn config_with_action(
    config: ConfigModel,
    key: Seq<char>,
    app: Option<Seq<char>>,
    button: ButtonId,
    action: ActionModel,
) -> ConfigModel {
    with_row(config, key, with_action(row_of(config, key), app, button, action))
}

/// Bind a control of a device to one action.
fn set_action(
    config: &mut Config,
    key: &String,
    app: &Option<String>,
    button: ButtonId,
    action: Action,
)
    ensures
        final(config).deep_view() == config_with_action(
            old(config).deep_view(),
            key@,
            app.deep_view(),
            button,
            action.deep_view(),
        ),
{
    match app {
        Some(app) => config.set_per_app_binding(key, app, button, Some(action)),
        None => config.set_binding(key, button, Binding::Single(action)),
    }
}

/// Bind both directions of a thumb wheel, in one application or in all. They
/// are shown either way, and go into the configuration where the device keeps
/// settings.
pub fn apply_thumbwheel_pair(
    button_bindings: &mut Table<ButtonId, Action>,
    config: &mut Config,
    persistent_key: &Option<String>,
    app: &Option<String>,
    pair: ThumbwheelPair,
) -> (r: bool)
    ensures
        r == (persistent_key is Some),
        final(button_bindings).deep_view() == old(button_bindings).deep_view().insert(
            ButtonId::ThumbwheelScrollDown,
            pair.backward.deep_view(),
        ).insert(ButtonId::ThumbwheelScrollUp, pair.forward.deep_view()),
        final(config).deep_view() == match *persistent_key {
            Some(key) => config_with_action(
                config_with_action(
                    old(config).deep_view(),
                    key@,
                    app.deep_view(),
                    ButtonId::ThumbwheelScrollDown,
                    pair.backward.deep_view(),
                ),
                key@,
                app.deep_view(),
                ButtonId::ThumbwheelScrollUp,
                pair.forward.deep_view(),
            ),
            None => old(config).deep_view(),
        },
{
    button_bindings.insert(ButtonId::ThumbwheelScrollDown, pair.backward.duplicate());
    button_bindings.insert(ButtonId::ThumbwheelScrollUp, pair.forward.duplicate());
    match persistent_key {
        None => false,
        Some(key) => {
            set_action(config, key, app, ButtonId::ThumbwheelScrollDown, pair.backward);
            set_action(config, key, app, ButtonId::ThumbwheelScrollUp, pair.forward);
            true
        },
    }
}

/// The state with another profile open on the selected device.
pub open spec fn scoped(m: StateModel, app: Option<Seq<char>>) -> StateModel {
    reprojected(
        StateModel {
            editing_scope: match (app, current_key(m)) {
                (Some(app), Some(key)) => Some(EditingScopeModel { device_key: key, app }),
                _ => None,
            },
            ..m
        },
    )
}

/// The state with another configuration.
pub open spec fn configured(m: StateModel, config: ConfigModel) -> StateModel {
    StateModel { config, ..m }
}

/// The state with an action shown and, where the device keeps settings,
/// configured.
pub open spec fn bound(m: StateModel, button: ButtonId, action: ActionModel) -> StateModel {
    let shown = StateModel { button_bindings: m.button_bindings.insert(button, action), ..m };
    match current_key(m) {
        Some(key) => configured(
            shown,
            config_with_action(m.config, key, editing(m), button, action),
        ),
        None => shown,
    }
}

/// The state with overrides of the open profile dropped.
pub open spec fn unbound(m: StateModel, buttons: Seq<ButtonId>) -> StateModel
    decreases buttons.len(),
{
    if buttons.len() == 0 {
        m
    } else {
        let rest = unbound(m, buttons.drop_last());
        match (current_key(m), editing(m)) {
            (Some(key), Some(app)) => configured(
                rest,
                with_row(
                    rest.config,
                    key,
                    with_override(row_of(rest.config, key), app, buttons.last(), None),
                ),
            ),
            _ => rest,
        }
    }
}

proof fn lemma_unbound_scope(m: StateModel, buttons: Seq<ButtonId>)
    ensures
        unbound(m, buttons) == configured(m, unbound(m, buttons).config),
    decreases buttons.len(),
{
    if buttons.len() > 0 {
        lemma_unbound_scope(m, buttons.drop_last());
    }
}

/// What a control does when its gestures are turned off.
pub open spec fn click_of(
    defaults: DefaultsModel,
    row: DeviceConfigModel,
    button: ButtonId,
) -> ActionModel {
    let map = seeded(defaults, button, bound_directions(row, button));
    if map.contains_key(GestureDirection::Click) {
        map[GestureDirection::Click]
    } else {
        default_action(defaults, button)
    }
}

/// What a control does where nothing is configured.
pub open spec fn default_action(defaults: DefaultsModel, button: ButtonId) -> ActionModel {
    if defaults.actions.contains_key(button) {
        defaults.actions[button]
    } else {
        ActionModel::Plain(Action::Nothing)
    }
}

/// What a control does while it does not gesture.
pub open spec fn single_of(
    defaults: DefaultsModel,
    row: DeviceConfigModel,
    button: ButtonId,
) -> ActionModel {
    if row.bindings.contains_key(button) && row.bindings[button] is Single {
        row.bindings[button]->Single_0
    } else {
        default_action(defaults, button)
    }
}

/// A row with the gestures of a control turned on or off. Its one action becomes
/// the click among default directions, and the other way round.
pub open spec fn with_gesture_mode(
    defaults: DefaultsModel,
    row: DeviceConfigModel,
    button: ButtonId,
    enabled: bool,
) -> DeviceConfigModel {
    DeviceConfigModel {
        bindings: row.bindings.insert(
            button,
            if enabled {
                BindingModel::Gesture(
                    defaults.gestures.insert(
                        GestureDirection::Click,
                        single_of(defaults, row, button),
                    ),
                )
            } else {
                BindingModel::Single(click_of(defaults, row, button))
            },
        ),
        ..row
    }
}

/// A row with one direction of a control bound.
pub open spec fn with_direction(
    row: DeviceConfigModel,
    button: ButtonId,
    direction: GestureDirection,
    action: ActionModel,
) -> DeviceConfigModel {
    DeviceConfigModel {
        bindings: row.bindings.insert(
            button,
            BindingModel::Gesture(bound_directions(row, button).insert(direction, action)),
        ),
        ..row
    }
}

/// Whether the gestures of a control can be edited now.
pub open spec fn gestures_editable(m: StateModel, button: ButtonId) -> bool {
    &&& current_key(m) is Some
    &&& editing(m) is None
    &&& gestures(m.defaults, row_of(m.config, current_key(m)->0), button)
}

/// Whether the gestures of a control can be turned on or off now, and are not so
/// already.
pub open spec fn gesture_mode_changes(m: StateModel, button: ButtonId, enabled: bool) -> bool {
    &&& current_key(m) is Some
    &&& editing(m) is None
    &&& gestures(m.defaults, row_of(m.config, current_key(m)->0), button) != enabled
}

/// The state with the gestures of a control turned on or off.
pub open spec fn gesture_mode_set(m: StateModel, button: ButtonId, enabled: bool) -> StateModel {
    let key = current_key(m)->0;
    let changed = configured(
        m,
        with_row(
            m.config,
            key,
            with_gesture_mode(m.defaults, row_of(m.config, key), button, enabled),
        ),
    );
    StateModel {
        button_bindings: shown_bindings(changed),
        gesture_bindings: device_gestures(changed),
        ..changed
    }
}

/// The directions that are shown for a control.
pub open spec fn shown_directions(m: StateModel, button: ButtonId) -> Map<
    GestureDirection,
    ActionModel,
> {
    if m.gesture_bindings.contains_key(button) {
        m.gesture_bindings[button]
    } else {
        Map::empty()
    }
}

/// The state with one direction of a control bound.
pub open spec fn direction_bound(
    m: StateModel,
    button: ButtonId,
    direction: GestureDirection,
    action: ActionModel,
) -> StateModel {
    let key = current_key(m)->0;
    StateModel {
        gesture_bindings: m.gesture_bindings.insert(
            button,
            shown_directions(m, button).insert(direction, action),
        ),
        config: with_row(
            m.config,
            key,
            with_direction(row_of(m.config, key), button, direction, action),
        ),
        ..m
    }
}

/// The state with a key bound or unbound.
pub open spec fn key_bound(
    m: StateModel,
    trigger: Seq<char>,
    action: Option<ActionModel>,
) -> StateModel {
    StateModel {
        keyboard_bindings: match action {
            Some(action) => m.keyboard_bindings.insert(trigger, action),
            None => m.keyboard_bindings.remove(trigger),
        },
        config: ConfigModel {
            keyboard: match action {
                Some(action) => m.config.keyboard.insert(trigger, action),
                None => m.config.keyboard.remove(trigger),
            },
            ..m.config
        },
        ..m
    }
}

/// How many directions are bound, over the controls in `buttons`.
pub open spec fn directions_bound(
    maps: Map<ButtonId, Map<GestureDirection, ActionModel>>,
    buttons: Seq<ButtonId>,
) -> nat
    decreases buttons.len(),
{
    if buttons.len() == 0 {
        0
    } else {
        directions_bound(maps, buttons.drop_last()) + maps[buttons.last()].len()
    }
}

proof fn lemma_few_buttons(keys: Seq<ButtonId>, i: int)
    requires
        ascending::<ButtonId>(keys),
        0 <= i < keys.len(),
    ensures
        button_rank(keys[i]) >= i,
    decreases i,
{
    if i > 0 {
        lemma_few_buttons(keys, i - 1);
        assert(<ButtonId as crate::keyed::Key>::lt(keys[i - 1], keys[i]));
    }
}

proof fn lemma_few_directions(keys: Seq<GestureDirection>, i: int)
    requires
        ascending::<GestureDirection>(keys),
        0 <= i < keys.len(),
    ensures
        direction_rank(keys[i]) >= i,
    decreases i,
{
    if i > 0 {
        lemma_few_directions(keys, i - 1);
        assert(<GestureDirection as crate::keyed::Key>::lt(keys[i - 1], keys[i]));
    }
}

/// What the open profile overrides.
pub open spec fn open_overrides(m: StateModel) -> Map<ButtonId, ActionModel> {
    match (current_key(m), editing(m)) {
        (Some(key), Some(app)) => if row_of(m.config, key).per_app.contains_key(app) {
            row_of(m.config, key).per_app[app]
        } else {
            Map::empty()
        },
        _ => Map::empty(),
    }
}

impl AppState {
    /// Open the profile of an application on the selected device, or that of
    /// every application. Nothing is kept of that.
    pub fn set_editing_app(&mut self, app: Option<String>)
        ensures
            final(self).deep_view() == scoped(old(self).deep_view(), app.deep_view()),
    {
        self.editing_scope = match (app, self.current_config_key()) {
            (Some(app), Some(key)) => Some(EditingScope { device_key: key, app }),
            _ => None,
        };
        self.refresh_binding_projections();
    }

    /// Bind a control of the selected device in the open profile. On a device
    /// that keeps no settings, the binding is only shown.
    pub fn commit_binding(&mut self, button: ButtonId, action: Action) -> (r: Option<Save>)
        ensures
            current_key(old(self).deep_view()) is Some ==> {
                &&& final(self).deep_view() == persisted(
                    bound(old(self).deep_view(), button, action.deep_view()),
                    reloading(),
                )
                &&& r.deep_view() == to_write(old(self).deep_view(), reloading())
            },
            current_key(old(self).deep_view()) is None ==> {
                &&& final(self).deep_view() == bound(
                    old(self).deep_view(),
                    button,
                    action.deep_view(),
                )
                &&& r is None
            },
    {
        self.button_bindings.insert(button, action.duplicate());
        match self.current_config_key() {
            None => None,
            Some(key) => {
                let app = self.editing_app();
                set_action(&mut self.config, &key, &app, button, action);
                self.persist_and_reload()
            },
        }
    }

    /// Have a control inherit its binding again in the open profile. That of
    /// every application inherits nothing, and stays.
    pub fn clear_app_binding(&mut self, button: ButtonId) -> (r: Option<Save>)
        ensures
            clears(*old(self), seq![button], *final(self), r),
    {
        let mut buttons: Vec<ButtonId> = Vec::new();
        buttons.push(button);
        proof {
            assert(buttons@ =~= seq![button]);
        }
        self.clear_app_bindings(&buttons)
    }

    /// Have both directions of the thumb wheel inherit their bindings again.
    pub fn clear_app_thumbwheel(&mut self) -> (r: Option<Save>)
        ensures
            clears(
                *old(self),
                seq![ButtonId::ThumbwheelScrollDown, ButtonId::ThumbwheelScrollUp],
                *final(self),
                r,
            ),
    {
        let mut buttons: Vec<ButtonId> = Vec::new();
        buttons.push(ButtonId::ThumbwheelScrollDown);
        buttons.push(ButtonId::ThumbwheelScrollUp);
        proof {
            assert(buttons@ =~= seq![
                ButtonId::ThumbwheelScrollDown,
                ButtonId::ThumbwheelScrollUp,
            ]);
        }
        self.clear_app_bindings(&buttons)
    }

    fn clear_app_bindings(&mut self, buttons: &Vec<ButtonId>) -> (r: Option<Save>)
        ensures
            clears(*old(self), buttons@, *final(self), r),
    {
        let key = match self.current_config_key() {
            Some(key) => key,
            None => {
                return None;
            },
        };
        let app = match self.editing_app() {
            Some(app) => app,
            None => {
                return None;
            },
        };
        let ghost start = self.deep_view();
        let mut i: usize = 0;
        proof {
            assert(buttons@.take(0) =~= Seq::empty());
        }
        while i < buttons.len()
            invariant
                i <= buttons@.len(),
                current_key(start) == Some(key@),
                editing(start) == Some(app@),
                self.deep_view() == unbound(start, buttons@.take(i as int)),
            decreases buttons@.len() - i,
        {
            proof {
                assert(buttons@.take(i as int + 1).drop_last() =~= buttons@.take(i as int));
                lemma_unbound_scope(start, buttons@.take(i as int));
            }
            self.config.set_per_app_binding(&key, &app, buttons[i], None);
            i = i + 1;
        }
        proof {
            assert(buttons@.take(buttons@.len() as int) =~= buttons@);
            lemma_unbound_scope(start, buttons@);
        }
        self.button_bindings = self.bindings_for_current();
        self.persist_and_reload()
    }

    /// Drop the open profile, and open that of every application.
    pub fn remove_editing_app_profile(&mut self) -> (r: Option<Save>)
        ensures
            match (current_key(old(self).deep_view()), editing(old(self).deep_view())) {
                (Some(key), Some(app)) => {
                    let m = old(self).deep_view();
                    let row = row_of(m.config, key);
                    let without = configured(
                        m,
                        with_row(
                            m.config,
                            key,
                            DeviceConfigModel { per_app: row.per_app.remove(app), ..row },
                        ),
                    );
                    &&& final(self).deep_view() == persisted(scoped(without, None), reloading())
                    &&& r.deep_view() == to_write(m, reloading())
                },
                _ => final(self).deep_view() == old(self).deep_view() && r is None,
            },
    {
        let key = match self.current_config_key() {
            Some(key) => key,
            None => {
                return None;
            },
        };
        let app = match self.editing_app() {
            Some(app) => app,
            None => {
                return None;
            },
        };
        self.config.remove_app_profile(&key, &app);
        self.set_editing_app(None);
        self.persist_and_reload()
    }

    /// What the open profile overrides. `None` for that of every application,
    /// and for one without overrides.
    pub fn editing_app_overrides(&self) -> (r: Option<Table<ButtonId, Action>>)
        ensures
            r.deep_view() == match (current_key(self.deep_view()), editing(self.deep_view())) {
                (Some(key), Some(app)) => if row_of(
                    self.deep_view().config,
                    key,
                ).per_app.contains_key(app) {
                    Some(row_of(self.deep_view().config, key).per_app[app])
                } else {
                    None
                },
                _ => None,
            },
    {
        match (self.current_config_key(), self.editing_app()) {
            (Some(key), Some(app)) => self.config.per_app_overrides(&key, &app),
            _ => None,
        }
    }

    /// Bind both directions of the thumb wheel in the open profile, as one edit.
    pub fn commit_thumbwheel_preset(&mut self, pair: ThumbwheelPair) -> (r: Option<Save>)
        ensures
            ({
                let m = old(self).deep_view();
                let both = bound(
                    bound(m, ButtonId::ThumbwheelScrollDown, pair.backward.deep_view()),
                    ButtonId::ThumbwheelScrollUp,
                    pair.forward.deep_view(),
                );
                if current_key(m) is Some {
                    &&& final(self).deep_view() == persisted(both, reloading())
                    &&& r.deep_view() == to_write(m, reloading())
                } else {
                    final(self).deep_view() == both && r is None
                }
            }),
    {
        let key = self.current_config_key();
        let app = self.editing_app();
        if !apply_thumbwheel_pair(
            &mut self.button_bindings,
            &mut self.config,
            &key,
            &app,
            pair,
        ) {
            return None;
        }
        self.persist_and_reload()
    }

    /// Bind a function key of every keyboard, or unbind it.
    pub fn commit_keyboard_binding(&mut self, trigger: String, action: Option<Action>) -> (r: Option<
        Save,
    >)
        ensures
            final(self).deep_view() == persisted(
                key_bound(old(self).deep_view(), trigger@, action.deep_view()),
                reloading(),
            ),
            r.deep_view() == to_write(old(self).deep_view(), reloading()),
    {
        match action {
            Some(action) => {
                self.keyboard_bindings.insert(trigger.clone(), action.duplicate());
                self.config.keyboard.insert(trigger, action);
            },
            None => {
                self.keyboard_bindings.remove(&trigger);
                self.config.keyboard.remove(&trigger);
            },
        }
        self.persist_and_reload()
    }

    /// How many directions of the selected device are bound, whatever profile
    /// is open.
    pub fn device_gesture_binding_count(&self) -> (r: usize)
        ensures
            exists|buttons: Seq<ButtonId>|
                #![auto]
                ascending::<ButtonId>(buttons) && buttons.to_set() == device_gestures(
                    self.deep_view(),
                ).dom() && r == directions_bound(device_gestures(self.deep_view()), buttons),
    {
        let maps = self.device_gesture_maps();
        let ghost all = maps.deep_view();
        let ghost keys = maps.keys();
        let n: usize = maps.len();
        let mut count: usize = 0;
        let mut i: usize = 0;
        proof {
            if n > 0 {
                lemma_few_buttons(keys, n as int - 1);
            }
            assert(keys.take(0) =~= Seq::empty());
        }
        while i < n
            invariant
                i <= n,
                n <= 20,
                n == keys.len(),
                keys == maps.keys(),
                all == maps.deep_view(),
                count <= 5 * i,
                count == directions_bound(all, keys.take(i as int)),
            decreases n - i,
        {
            let map = maps.value_at(i);
            let directions: usize = map.len();
            proof {
                if directions > 0 {
                    lemma_few_directions(map.keys(), directions as int - 1);
                }
                assert(keys.take(i as int + 1).drop_last() =~= keys.take(i as int));
            }
            count = count + directions;
            i = i + 1;
        }
        proof {
            assert(keys.take(n as int) =~= keys);
            assert(ascending::<ButtonId>(keys) && keys.to_set() == all.dom());
        }
        count
    }

    /// Turn the gestures of a control on or off. That is a matter of every
    /// application, so nothing changes while the profile of one is open.
    pub fn commit_gesture_mode(&mut self, button: ButtonId, enabled: bool) -> (r: Option<Save>)
        ensures
            if gesture_mode_changes(old(self).deep_view(), button, enabled) {
                &&& final(self).deep_view() == persisted(
                    gesture_mode_set(old(self).deep_view(), button, enabled),
                    reloading(),
                )
                &&& r.deep_view() == to_write(old(self).deep_view(), reloading())
            } else {
                final(self).deep_view() == old(self).deep_view() && r is None
            },
    {
        let key = match self.current_config_key() {
            Some(key) => key,
            None => {
                return None;
            },
        };
        if self.editing_app().is_some() {
            return None;
        }
        let mut row = self.config.row(&key);
        if self.defaults.is_gesture_mode(&row, button) == enabled {
            return None;
        }
        let default = match self.defaults.actions.get(&button) {
            Some(action) => action.duplicate(),
            None => Action::Nothing,
        };
        let binding = if enabled {
            let click = match row.bindings.get(&button) {
                Some(Binding::Single(action)) => action.duplicate(),
                _ => default,
            };
            let mut map = self.defaults.gestures.duplicate();
            map.insert(GestureDirection::Click, click);
            Binding::Gesture(map)
        } else {
            let directions = match row.bindings.get(&button) {
                Some(Binding::Gesture(map)) => self.defaults.seed(button, map),
                _ => {
                    let none: Table<GestureDirection, Action> = Table::new();
                    self.defaults.seed(button, &none)
                },
            };
            let click = match directions.get(&GestureDirection::Click) {
                Some(action) => action.duplicate(),
                None => default,
            };
            Binding::Single(click)
        };
        row.bindings.insert(button, binding);
        self.config.put_row(&key, row);
        self.button_bindings = self.bindings_for_current();
        self.gesture_bindings = self.device_gesture_maps();
        self.persist_and_reload()
    }

    /// Bind one direction of a control that gestures, where it does and may be edited.
    fn bind_direction(
        &mut self,
        button: ButtonId,
        direction: GestureDirection,
        action: Action,
    ) -> (r: Option<Save>)
        ensures
            if gestures_editable(old(self).deep_view(), button) {
                &&& final(self).deep_view() == persisted(
                    direction_bound(old(self).deep_view(), button, direction, action.deep_view()),
                    reloading(),
                )
                &&& r.deep_view() == to_write(old(self).deep_view(), reloading())
            } else {
                final(self).deep_view() == old(self).deep_view() && r is None
            },
    {
        let key = match self.current_config_key() {
            Some(key) => key,
            None => {
                return None;
            },
        };
        if self.editing_app().is_some() {
            return None;
        }
        let mut row = self.config.row(&key);
        if !self.defaults.is_gesture_mode(&row, button) {
            return None;
        }
        let mut shown = match self.gesture_bindings.get(&button) {
            Some(map) => map.duplicate(),
            None => Table::new(),
        };
        shown.insert(direction, action.duplicate());
        self.gesture_bindings.insert(button, shown);
        let mut map = match row.bindings.get(&button) {
            Some(Binding::Gesture(map)) => map.duplicate(),
            _ => Table::new(),
        };
        map.insert(direction, action);
        row.bindings.insert(button, Binding::Gesture(map));
        self.config.put_row(&key, row);
        self.persist_and_reload()
    }

    /// Bind one direction of a control that gestures. Nothing changes where it
    /// does not gesture, or while the profile of an application is open.
    pub fn commit_gesture_binding(
        &mut self,
        button: ButtonId,
        direction: GestureDirection,
        action: Action,
    ) -> (r: Option<Save>)
        ensures
            if gestures_editable(old(self).deep_view(), button) {
                &&& final(self).deep_view() == persisted(
                    direction_bound(old(self).deep_view(), button, direction, action.deep_view()),
                    reloading(),
                )
                &&& r.deep_view() == to_write(old(self).deep_view(), reloading())
            } else {
                final(self).deep_view() == old(self).deep_view() && r is None
            },
            !(old(self).config_persistence is ReadOnly) ==> forall|
                control: ButtonId,
                way: GestureDirection,
            |
                (#[trigger] shown_for(final(self).deep_view(), control, way)) == (if control
                    == button && way == direction && gestures_editable(
                    old(self).deep_view(),
                    button,
                ) {
                    Some(action.deep_view())
                } else {
                    shown_for(old(self).deep_view(), control, way)
                }),
    {
        let ghost before = self.deep_view();
        let ghost bound = action.deep_view();
        let r = self.bind_direction(button, direction, action);
        proof {
            if gestures_editable(before, button) && !(before.config_persistence is ReadOnly) {
                lemma_shown_alone(before, button, direction, bound);
            }
        }
        r
    }
}

/// What dropping overrides of the open profile comes to.
pub open spec fn clears(
    before: AppState,
    buttons: Seq<ButtonId>,
    after: AppState,
    r: Option<Save>,
) -> bool {
    let m = before.deep_view();
    if current_key(m) is Some && editing(m) is Some {
        let without = unbound(m, buttons);
        &&& after.deep_view() == persisted(
            StateModel { button_bindings: shown_bindings(without), ..without },
            reloading(),
        )
        &&& r.deep_view() == to_write(m, reloading())
    } else {
        after.deep_view() == m && r is None
    }
}

/// Binding a control in the profile of an application leaves alone what it does
/// in every other.
pub proof fn a_profile_leaves_the_others_alone(
    m: StateModel,
    button: ButtonId,
    action: ActionModel,
    other: Seq<char>,
)
    requires
        current_key(m) is Some,
        editing(m) is Some,
        other != editing(m)->0,
    ensures
        ({
            let key = current_key(m)->0;
            let before = row_of(m.config, key);
            let after = row_of(bound(m, button, action).config, key);
            &&& after.bindings == before.bindings
            &&& overrides_of(after, other) == overrides_of(before, other)
            &&& overrides_of(after, editing(m)->0) == overrides_of(before, editing(m)->0).insert(
                button,
                action,
            )
        }),
{
    let overrides = overrides_of(row_of(m.config, current_key(m)->0), editing(m)->0).insert(
        button,
        action,
    );
    assert(overrides.contains_key(button));
    assert(overrides != Map::<ButtonId, ActionModel>::empty());
}

/// Turning the gestures of a control on and off again leaves it with the action
/// that it had.
pub proof fn gestures_give_back_the_single_action(
    defaults: DefaultsModel,
    row: DeviceConfigModel,
    button: ButtonId,
)
    ensures
        ({
            let on = with_gesture_mode(defaults, row, button, true);
            let off = with_gesture_mode(defaults, on, button, false);
            &&& gestures(defaults, on, button)
            &&& !gestures(defaults, off, button)
            &&& single_of(defaults, off, button) == single_of(defaults, row, button)
        }),
{
    let on = with_gesture_mode(defaults, row, button, true);
    assert(bound_directions(on, button) == defaults.gestures.insert(
        GestureDirection::Click,
        single_of(defaults, row, button),
    ));
}

/// Binding a control of one device leaves every other device alone.
pub proof fn a_binding_concerns_one_device(
    m: StateModel,
    button: ButtonId,
    action: ActionModel,
    other: Seq<char>,
)
    requires
        current_key(m) != Some(other),
    ensures
        row_of(bound(m, button, action).config, other) == row_of(m.config, other),
{
}

/// Whether the panels show what the configuration says of the selected device in
/// the open profile, and of the keys of every keyboard.
pub open spec fn panels_agree(m: StateModel) -> bool {
    &&& m.button_bindings == shown_bindings(m)
    &&& m.gesture_bindings == shown_gestures(m)
    &&& m.keyboard_bindings == m.config.keyboard
}

/// What is shown for a direction of a control, if anything is.
pub open spec fn shown_for(m: StateModel, button: ButtonId, direction: GestureDirection) -> Option<
    ActionModel,
> {
    if m.gesture_bindings.contains_key(button) && m.gesture_bindings[button].contains_key(
        direction,
    ) {
        Some(m.gesture_bindings[button][direction])
    } else {
        None
    }
}

/// Binding one direction of a control shows the new action for it, and leaves what
/// is shown for every other direction and for every other control as it was.
pub proof fn a_direction_is_bound_alone(
    m: StateModel,
    button: ButtonId,
    direction: GestureDirection,
    action: ActionModel,
    control: ButtonId,
    way: GestureDirection,
)
    requires
        m.config_persistence != ConfigPersistence::UserFile ==> m.config_persistence
            == ConfigPersistence::MemoryOnly,
    ensures
        ({
            let after = persisted(direction_bound(m, button, direction, action), reloading());
            &&& shown_for(after, button, direction) == Some(action)
            &&& control != button || way != direction ==> shown_for(after, control, way)
                == shown_for(m, control, way)
            &&& control != button ==> (after.gesture_bindings.contains_key(control)
                <==> m.gesture_bindings.contains_key(control))
            &&& after.button_bindings == m.button_bindings
            &&& after.keyboard_bindings == m.keyboard_bindings
            &&& after.devices == m.devices
        }),
{
}

proof fn lemma_shown_alone(
    m: StateModel,
    button: ButtonId,
    direction: GestureDirection,
    action: ActionModel,
)
    requires
        !(m.config_persistence is ReadOnly),
    ensures
        forall|control: ButtonId, way: GestureDirection|
            (#[trigger] shown_for(
                persisted(direction_bound(m, button, direction, action), reloading()),
                control,
                way,
            )) == (if control == button && way == direction {
                Some(action)
            } else {
                shown_for(m, control, way)
            }),
{
    let after = persisted(direction_bound(m, button, direction, action), reloading());
    assert forall|control: ButtonId, way: GestureDirection|
        (#[trigger] shown_for(after, control, way)) == (if control == button && way == direction {
            Some(action)
        } else {
            shown_for(m, control, way)
        }) by {
        a_direction_is_bound_alone(m, button, direction, action, control, way);
    }
}

/// The direction goes into the configuration of the selected device alone, beside
/// the directions that are bound there already.
pub proof fn a_bound_direction_is_kept_beside_the_others(
    m: StateModel,
    button: ButtonId,
    direction: GestureDirection,
    action: ActionModel,
    key: Seq<char>,
    way: GestureDirection,
    control: ButtonId,
    other: Seq<char>,
)
    requires
        current_key(m) == Some(key),
    ensures
        ({
            let before = row_of(m.config, key);
            let config = direction_bound(m, button, direction, action).config;
            let after = config.devices[key];
            let map = after.bindings[button]->Gesture_0;
            &&& config.devices.contains_key(key)
            &&& after.bindings.contains_key(button) && after.bindings[button] is Gesture
            &&& map.contains_key(direction) && map[direction] == action
            &&& way != direction ==> if before.bindings.contains_key(button) && (
            before.bindings[button] matches BindingModel::Gesture(old_map) && old_map.contains_key(
                way,
            )) {
                map.contains_key(way) && map[way] == before.bindings[button]->Gesture_0[way]
            } else {
                !map.contains_key(way)
            }
            &&& control != button ==> (after.bindings.contains_key(control)
                <==> before.bindings.contains_key(control))
            &&& control != button && before.bindings.contains_key(control)
                ==> after.bindings[control] == before.bindings[control]
            &&& after == (DeviceConfigModel { bindings: after.bindings, ..before })
            &&& other != key ==> (config.devices.contains_key(other)
                <==> m.config.devices.contains_key(other))
            &&& other != key && m.config.devices.contains_key(other) ==> config.devices[other]
                == m.config.devices[other]
            &&& config == (ConfigModel { devices: config.devices, ..m.config })
        }),
{
}

/// Panels that agree with the configuration still do after a direction was bound
/// on a control that gestures.
pub proof fn a_bound_direction_is_shown_as_it_is_kept(
    m: StateModel,
    button: ButtonId,
    direction: GestureDirection,
    action: ActionModel,
)
    requires
        gestures_editable(m, button),
        panels_agree(m),
    ensures
        panels_agree(direction_bound(m, button, direction, action)),
{
    let key = current_key(m)->0;
    let after = direction_bound(m, button, direction, action);
    let before_row = row_of(m.config, key);
    let row = row_of(after.config, key);
    assert(current_key(after) == Some(key));
    assert(editing(after) is None);
    assert(singles(row.bindings) =~= singles(before_row.bindings)) by {
        assert forall|b: ButtonId| row.bindings.contains_key(b) && row.bindings[b] is Single
            <==> before_row.bindings.contains_key(b) && before_row.bindings[b] is Single by {
            if b == button && before_row.bindings.contains_key(b) {
                assert(before_row.bindings[b] is Gesture);
            }
        }
    }
    assert(after.button_bindings =~= shown_bindings(after));
    let want = gesture_maps(m.defaults, row);
    assert forall|b: ButtonId| after.gesture_bindings.contains_key(b) <==> want.contains_key(b) by {
    }
    assert forall|b: ButtonId| #[trigger] after.gesture_bindings.contains_key(b) implies
        after.gesture_bindings[b] == want[b] by {
        if b == button {
            let bound = bound_directions(before_row, button);
            assert(m.gesture_bindings[button] == seeded(m.defaults, button, bound));
            assert(seeded(m.defaults, button, bound).insert(direction, action) =~= seeded(
                m.defaults,
                button,
                bound.insert(direction, action),
            ));
        }
    }
    assert(after.gesture_bindings =~= want);
}

/// Binding a control shows the new action for it and leaves what every other
/// control is shown to do. It is kept for the selected device in the open profile,
/// and nowhere else.
pub proof fn a_control_is_bound_alone(
    m: StateModel,
    button: ButtonId,
    action: ActionModel,
    control: ButtonId,
)
    ensures
        ({
            let after = bound(m, button, action);
            &&& after.button_bindings.contains_key(button)
            &&& after.button_bindings[button] == action
            &&& control != button ==> (after.button_bindings.contains_key(control)
                <==> m.button_bindings.contains_key(control))
            &&& control != button && m.button_bindings.contains_key(control)
                ==> after.button_bindings[control] == m.button_bindings[control]
            &&& current_key(m) is None ==> after.config == m.config
            &&& current_key(m) matches Some(key) ==> {
                let before = row_of(m.config, key);
                let row = after.config.devices[key];
                &&& after.config.devices.contains_key(key)
                &&& match editing(m) {
                    None => {
                        &&& row.bindings.contains_key(button) && row.bindings[button]
                            == BindingModel::Single(action)
                        &&& row.bindings.remove(button) == before.bindings.remove(button)
                        &&& row == (DeviceConfigModel { bindings: row.bindings, ..before })
                    },
                    Some(app) => {
                        &&& row.per_app.contains_key(app)
                        &&& row.per_app[app].contains_key(button)
                        &&& row.per_app[app][button] == action
                        &&& row == (DeviceConfigModel { per_app: row.per_app, ..before })
                    },
                }
                &&& after.config.devices.remove(key) == m.config.devices.remove(key)
                &&& after.config == (ConfigModel { devices: after.config.devices, ..m.config })
            }
            &&& after == (StateModel {
                button_bindings: after.button_bindings,
                config: after.config,
                ..m
            })
        }),
{
    let after = bound(m, button, action);
    if let Some(key) = current_key(m) {
        let before = row_of(m.config, key);
        let row = after.config.devices[key];
        assert(after.config.devices.remove(key) =~= m.config.devices.remove(key));
        match editing(m) {
            None => {
                assert(row.bindings.remove(button) =~= before.bindings.remove(button));
            },
            Some(app) => {
                let overrides = overrides_of(before, app).insert(button, action);
                assert(overrides.contains_key(button));
            },
        }
    }
}

/// What a control is shown to do is what it is kept to do: panels that agree with
/// the configuration still do after a control was bound.
pub proof fn a_bound_control_is_shown_as_it_is_kept(
    m: StateModel,
    button: ButtonId,
    action: ActionModel,
)
    requires
        current_key(m) is Some,
        m.button_bindings == shown_bindings(m),
    ensures
        bound(m, button, action).button_bindings == shown_bindings(bound(m, button, action)),
{
    let key = current_key(m)->0;
    let after = bound(m, button, action);
    let row = row_of(after.config, key);
    let before = row_of(m.config, key);
    assert(current_key(after) == Some(key));
    assert(editing(after) == editing(m));
    match editing(m) {
        None => {
            assert(after.button_bindings =~= shown_bindings(after));
        },
        Some(app) => {
            let overrides = overrides_of(before, app).insert(button, action);
            assert(overrides.contains_key(button));
            assert(overrides_of(row, app) == overrides);
            assert(after.button_bindings =~= shown_bindings(after));
        },
    }
}

proof fn lemma_unbound(m: StateModel, key: Seq<char>, app: Seq<char>, buttons: Seq<ButtonId>)
    requires
        current_key(m) == Some(key),
        editing(m) == Some(app),
    ensures
        ({
            let before = row_of(m.config, key);
            let config = unbound(m, buttons).config;
            let row = row_of(config, key);
            &&& row == (DeviceConfigModel { per_app: row.per_app, ..before })
            &&& row.per_app.remove(app) == before.per_app.remove(app)
            &&& config.devices.remove(key) == m.config.devices.remove(key)
            &&& config == (ConfigModel { devices: config.devices, ..m.config })
            &&& forall|b: ButtonId|
                #[trigger] overrides_of(row, app).contains_key(b) <==> overrides_of(
                    before,
                    app,
                ).contains_key(b) && !buttons.contains(b)
            &&& forall|b: ButtonId|
                #[trigger] overrides_of(row, app).contains_key(b) ==> overrides_of(row, app)[b]
                    == overrides_of(before, app)[b]
        }),
    decreases buttons.len(),
{
    let before = row_of(m.config, key);
    if buttons.len() == 0 {
        assert(forall|b: ButtonId| !buttons.contains(b));
    } else {
        let rest = buttons.drop_last();
        let last = buttons.last();
        lemma_unbound(m, key, app, rest);
        let so_far = row_of(unbound(m, rest).config, key);
        let config = unbound(m, buttons).config;
        let row = row_of(config, key);
        assert(config.devices.remove(key) =~= m.config.devices.remove(key)) by {
            assert(config.devices.remove(key) =~= unbound(m, rest).config.devices.remove(key));
        }
        assert(row.per_app.remove(app) =~= before.per_app.remove(app)) by {
            assert(row.per_app.remove(app) =~= so_far.per_app.remove(app));
        }
        assert(overrides_of(row, app) =~= overrides_of(so_far, app).remove(last));
        assert forall|b: ButtonId| buttons.contains(b) <==> rest.contains(b) || b == last by {
            if rest.contains(b) {
                let i = choose|i: int| 0 <= i < rest.len() && rest[i] == b;
                assert(buttons[i] == b);
            }
            if b == last {
                assert(buttons[buttons.len() - 1] == b);
            }
            if buttons.contains(b) && b != last {
                let i = choose|i: int| 0 <= i < buttons.len() && buttons[i] == b;
                assert(rest[i] == b);
            }
        }
    }
}

/// Overrides that are dropped are gone from the open profile, and the controls do
/// again what they do without it. The other overrides, profiles and devices stay.
pub proof fn a_dropped_override_is_inherited_again(
    m: StateModel,
    buttons: Seq<ButtonId>,
    key: Seq<char>,
    app: Seq<char>,
    button: ButtonId,
)
    requires
        current_key(m) == Some(key),
        editing(m) == Some(app),
    ensures
        ({
            let before = row_of(m.config, key);
            let without = unbound(m, buttons);
            let row = row_of(without.config, key);
            let shown = shown_bindings(without);
            let global = projected(m.defaults, before, None);
            &&& buttons.contains(button) ==> (shown.contains_key(button) <==> global.contains_key(
                button,
            ))
            &&& buttons.contains(button) && global.contains_key(button) ==> shown[button]
                == global[button]
            &&& !buttons.contains(button) ==> (shown.contains_key(button) <==> shown_bindings(
                m,
            ).contains_key(button))
            &&& !buttons.contains(button) && shown.contains_key(button) ==> shown[button]
                == shown_bindings(m)[button]
            &&& row.bindings == before.bindings
            &&& row.per_app.remove(app) == before.per_app.remove(app)
            &&& row == (DeviceConfigModel { per_app: row.per_app, ..before })
            &&& without.config.devices.remove(key) == m.config.devices.remove(key)
            &&& without == (StateModel { config: without.config, ..m })
        }),
{
    lemma_unbound(m, key, app, buttons);
    lemma_unbound_scope(m, buttons);
    let without = unbound(m, buttons);
    let before = row_of(m.config, key);
    let row = row_of(without.config, key);
    assert(current_key(without) == Some(key) && editing(without) == Some(app));
    assert(overrides_of(row, app).contains_key(button) <==> overrides_of(before, app).contains_key(
        button,
    ) && !buttons.contains(button));
}

/// Turning the gestures of a control on or off does just that, for this control of
/// the selected device. Turned on, its click does what the control did and its
/// directions what they do by default; turned off, it does what its click did.
/// Whatever else is bound stays.
pub proof fn gestures_are_turned_on_or_off_alone(
    m: StateModel,
    button: ButtonId,
    enabled: bool,
    control: ButtonId,
    way: GestureDirection,
)
    requires
        gesture_mode_changes(m, button, enabled),
    ensures
        ({
            let key = current_key(m)->0;
            let before = row_of(m.config, key);
            let after = gesture_mode_set(m, button, enabled);
            let row = after.config.devices[key];
            &&& after.config.devices.contains_key(key)
            &&& row.bindings.contains_key(button)
            &&& row.bindings[button] is Gesture <==> enabled
            &&& row.bindings.remove(button) == before.bindings.remove(button)
            &&& row == (DeviceConfigModel { bindings: row.bindings, ..before })
            &&& after.config.devices.remove(key) == m.config.devices.remove(key)
            &&& after.gesture_bindings.contains_key(button) <==> enabled
            &&& enabled && before.bindings.contains_key(button) ==> BindingModel::Single(
                row.bindings[button]->Gesture_0[GestureDirection::Click],
            ) == before.bindings[button]
            &&& enabled && !before.bindings.contains_key(button)
                && m.defaults.actions.contains_key(button)
                ==> row.bindings[button]->Gesture_0[GestureDirection::Click]
                == m.defaults.actions[button]
            &&& enabled && way != GestureDirection::Click && m.defaults.gestures.contains_key(way)
                ==> after.gesture_bindings[button][way] == m.defaults.gestures[way]
            &&& !enabled && before.bindings.contains_key(button) && (
            before.bindings[button] matches BindingModel::Gesture(map) && map.contains_key(
                GestureDirection::Click,
            )) ==> after.button_bindings.contains_key(button) && after.button_bindings[button]
                == before.bindings[button]->Gesture_0[GestureDirection::Click]
            &&& panels_agree(StateModel { keyboard_bindings: after.config.keyboard, ..after })
            &&& after == (StateModel {
                button_bindings: after.button_bindings,
                gesture_bindings: after.gesture_bindings,
                config: after.config,
                ..m
            })
        }),
{
    let key = current_key(m)->0;
    let before = row_of(m.config, key);
    let after = gesture_mode_set(m, button, enabled);
    let row = after.config.devices[key];
    assert(row.bindings.remove(button) =~= before.bindings.remove(button));
    assert(after.config.devices.remove(key) =~= m.config.devices.remove(key));
    assert(current_key(after) == Some(key));
    assert(editing(after) is None);
}

/// Gestures are edited only in the profile of every application, of a device that
/// keeps settings, on a control that gestures.
pub proof fn gestures_are_edited_where_they_are(m: StateModel, button: ButtonId)
    ensures
        gestures_editable(m, button) ==> current_key(m) is Some && editing(m) is None
            && device_gestures(m).contains_key(button),
        current_key(m) is Some && editing(m) is None && device_gestures(m).contains_key(button)
            ==> gestures_editable(m, button),
        gesture_mode_changes(m, button, true) ==> !device_gestures(m).contains_key(button),
        gesture_mode_changes(m, button, false) ==> device_gestures(m).contains_key(button),
        current_key(m) is Some && editing(m) is None ==> gesture_mode_changes(m, button, true)
            || gesture_mode_changes(m, button, false),
        editing(m) is Some || current_key(m) is None ==> !gesture_mode_changes(m, button, true)
            && !gesture_mode_changes(m, button, false) && !gestures_editable(m, button),
{
}

/// A key is bound, or unbound, alone, and is shown as it is kept.
pub proof fn a_key_is_bound_alone(
    m: StateModel,
    trigger: Seq<char>,
    action: Option<ActionModel>,
    key: Seq<char>,
)
    ensures
        ({
            let after = key_bound(m, trigger, action);
            &&& match action {
                Some(action) => {
                    &&& after.keyboard_bindings.contains_key(trigger)
                    &&& after.keyboard_bindings[trigger] == action
                    &&& after.config.keyboard.contains_key(trigger)
                    &&& after.config.keyboard[trigger] == action
                },
                None => !after.keyboard_bindings.contains_key(trigger)
                    && !after.config.keyboard.contains_key(trigger),
            }
            &&& after.keyboard_bindings.remove(trigger) == m.keyboard_bindings.remove(trigger)
            &&& after.config.keyboard.remove(trigger) == m.config.keyboard.remove(trigger)
            &&& m.keyboard_bindings == m.config.keyboard ==> after.keyboard_bindings
                == after.config.keyboard
            &&& after.config == (ConfigModel { keyboard: after.config.keyboard, ..m.config })
            &&& after == (StateModel {
                keyboard_bindings: after.keyboard_bindings,
                config: after.config,
                ..m
            })
        }),
{
    let after = key_bound(m, trigger, action);
    assert(after.keyboard_bindings.remove(trigger) =~= m.keyboard_bindings.remove(trigger));
    assert(after.config.keyboard.remove(trigger) =~= m.config.keyboard.remove(trigger));
}

/// Opening a profile opens that of the application on the selected device, or that
/// of every application, and shows it. Nothing of it is kept.
pub proof fn the_profile_that_is_opened_is_shown(m: StateModel, app: Option<Seq<char>>)
    ensures
        ({
            let after = scoped(m, app);
            &&& current_key(m) is Some ==> editing(after) == app
            &&& current_key(m) is None ==> editing(after) is None
            &&& after.button_bindings == shown_bindings(after)
            &&& after.gesture_bindings == shown_gestures(after)
            &&& after.config == m.config
            &&& after == (StateModel {
                editing_scope: after.editing_scope,
                button_bindings: after.button_bindings,
                gesture_bindings: after.gesture_bindings,
                ..m
            })
        }),
{
}

/// The two directions of a thumb wheel do not get in each other's way: whichever is
/// bound first, both are bound as they were meant.
pub proof fn both_directions_of_a_wheel_are_bound(
    m: StateModel,
    backward: ActionModel,
    forward: ActionModel,
)
    ensures
        ({
            let both = bound(
                bound(m, ButtonId::ThumbwheelScrollDown, backward),
                ButtonId::ThumbwheelScrollUp,
                forward,
            );
            &&& both.button_bindings[ButtonId::ThumbwheelScrollDown] == backward
            &&& both.button_bindings[ButtonId::ThumbwheelScrollUp] == forward
            &&& current_key(m) matches Some(key) ==> {
                let row = both.config.devices[key];
                match editing(m) {
                    None => row.bindings[ButtonId::ThumbwheelScrollDown] == BindingModel::Single(
                        backward,
                    ) && row.bindings[ButtonId::ThumbwheelScrollUp] == BindingModel::Single(
                        forward,
                    ),
                    Some(app) => row.per_app[app][ButtonId::ThumbwheelScrollDown] == backward
                        && row.per_app[app][ButtonId::ThumbwheelScrollUp] == forward,
                }
            }
        }),
{
    let once = bound(m, ButtonId::ThumbwheelScrollDown, backward);
    a_control_is_bound_alone(m, ButtonId::ThumbwheelScrollDown, backward, ButtonId::Back);
    a_control_is_bound_alone(once, ButtonId::ThumbwheelScrollUp, forward, ButtonId::Back);
    assert(current_key(once) == current_key(m) && editing(once) == editing(m));
    if let Some(key) = current_key(m) {
        if let Some(app) = editing(m) {
            let row = row_of(once.config, key);
            let overrides = overrides_of(row, app).insert(ButtonId::ThumbwheelScrollUp, forward);
            assert(overrides.contains_key(ButtonId::ThumbwheelScrollUp));
        }
    }
}

/// Dropping overrides in the open profile shows at once what is inherited, leaves the
/// rest of what is shown, and is kept; without an open profile nothing happens.
pub proof fn dropped_overrides_are_shown_and_kept(
    before: AppState,
    buttons: Seq<ButtonId>,
    after: AppState,
    r: Option<Save>,
)
    requires
        clears(before, buttons, after, r),
    ensures
        ({
            let m = before.deep_view();
            let now = after.deep_view();
            &&& editing(m) is None ==> now == m && r is None
            &&& editing(m) is Some && !(m.config_persistence is ReadOnly) ==> {
                &&& now.button_bindings == shown_bindings(now)
                &&& now.gesture_bindings == m.gesture_bindings
                &&& now.keyboard_bindings == m.keyboard_bindings
                &&& now.devices == m.devices
                &&& now.editing_scope == m.editing_scope
                &&& now.config == unbound(m, buttons).config
                &&& r is Some <==> m.config_persistence == ConfigPersistence::UserFile
                &&& r is None ==> now.outbox == m.outbox.push(
                    crate::state::CommandModel::ReloadConfig,
                )
                &&& r matches Some(save) ==> save.reload && now.outbox == m.outbox
            }
        }),
{
    let m = before.deep_view();
    let now = after.deep_view();
    lemma_unbound_scope(m, buttons);
    if editing(m) is Some {
        let without = unbound(m, buttons);
        assert(shown_bindings(without) == shown_bindings(
            StateModel { button_bindings: shown_bindings(without), ..without },
        ));
    }
}

/// A control that gestures does, once that is turned off, what its click did; a click
/// that is not bound does what it does by default.
pub proof fn a_click_is_what_is_left(
    defaults: DefaultsModel,
    row: DeviceConfigModel,
    button: ButtonId,
)
    ensures
        ({
            let bound = row.bindings.contains_key(button) && (
            row.bindings[button] matches BindingModel::Gesture(map) && map.contains_key(
                GestureDirection::Click,
            ));
            let seeds = defaults.seeded_buttons.contains(button) && defaults.gestures.contains_key(
                GestureDirection::Click,
            );
            &&& bound ==> click_of(defaults, row, button)
                == row.bindings[button]->Gesture_0[GestureDirection::Click]
            &&& !bound && seeds ==> click_of(defaults, row, button)
                == defaults.gestures[GestureDirection::Click]
            &&& !bound && !seeds && defaults.actions.contains_key(button) ==> click_of(
                defaults,
                row,
                button,
            ) == defaults.actions[button]
            &&& !bound && !seeds && !defaults.actions.contains_key(button) ==> click_of(
                defaults,
                row,
                button,
            ) == ActionModel::Plain(Action::Nothing)
        }),
{
}

/// The bound directions are counted over every control that gestures.
pub proof fn directions_are_counted_over_all_controls(
    maps: Map<ButtonId, Map<GestureDirection, ActionModel>>,
    buttons: Seq<ButtonId>,
    button: ButtonId,
)
    ensures
        directions_bound(maps, Seq::empty()) == 0,
        directions_bound(maps, buttons.push(button)) == directions_bound(maps, buttons)
            + maps[button].len(),
{
    assert(buttons.push(button).drop_last() =~= buttons);
}

/// What the open profile overrides is what is kept for it, and nothing without one.
pub proof fn the_open_profile_overrides_what_is_kept(m: StateModel, button: ButtonId)
    ensures
        open_overrides(m).contains_key(button) <==> (current_key(m) matches Some(key) && (editing(
            m,
        ) matches Some(app) && m.config.devices.contains_key(key)
            && m.config.devices[key].per_app.contains_key(app)
            && m.config.devices[key].per_app[app].contains_key(button))),
        open_overrides(m).contains_key(button) ==> open_overrides(m)[button]
            == m.config.devices[current_key(m)->0].per_app[editing(m)->0][button],
{
}

} // verus!
