//! Actions that controls can be bound to.

use vstd::prelude::*;

use crate::controls::{ButtonId, GestureDirection};
use crate::data::Data;
use crate::keyed::{Key, Table};

verus! {

/// The place of a control in the order of its kind.
pub open spec fn button_rank(x: ButtonId) -> int {
    match x {
        ButtonId::MiddleClick => 0,
        ButtonId::Back => 1,
        ButtonId::Forward => 2,
        ButtonId::WheelTiltLeft => 3,
        ButtonId::WheelTiltRight => 4,
        ButtonId::GestureButton => 5,
        ButtonId::HapticPanel => 6,
        ButtonId::DpiToggle => 7,
        ButtonId::Thumbwheel => 8,
        ButtonId::ThumbwheelScrollDown => 9,
        ButtonId::ThumbwheelScrollUp => 10,
        ButtonId::KeySearch => 11,
        ButtonId::KeyDictation => 12,
        ButtonId::KeyEmoji => 13,
        ButtonId::KeyScreenCapture => 14,
        ButtonId::KeyMicMute => 15,
        ButtonId::KeyPlayPause => 16,
        ButtonId::KeyMute => 17,
        ButtonId::KeyVolumeDown => 18,
        ButtonId::KeyVolumeUp => 19,
    }
}

/// The place of a control in the order of its kind.
pub fn button_rank_of(x: ButtonId) -> (r: u8)
    ensures
        r == button_rank(x),
{
    match x {
        ButtonId::MiddleClick => 0,
        ButtonId::Back => 1,
        ButtonId::Forward => 2,
        ButtonId::WheelTiltLeft => 3,
        ButtonId::WheelTiltRight => 4,
        ButtonId::GestureButton => 5,
        ButtonId::HapticPanel => 6,
        ButtonId::DpiToggle => 7,
        ButtonId::Thumbwheel => 8,
        ButtonId::ThumbwheelScrollDown => 9,
        ButtonId::ThumbwheelScrollUp => 10,
        ButtonId::KeySearch => 11,
        ButtonId::KeyDictation => 12,
        ButtonId::KeyEmoji => 13,
        ButtonId::KeyScreenCapture => 14,
        ButtonId::KeyMicMute => 15,
        ButtonId::KeyPlayPause => 16,
        ButtonId::KeyMute => 17,
        ButtonId::KeyVolumeDown => 18,
        ButtonId::KeyVolumeUp => 19,
    }
}

impl DeepView for ButtonId {
    type V = ButtonId;

    open spec fn deep_view(&self) -> ButtonId {
        *self
    }
}

impl Data for ButtonId {
    fn duplicate(&self) -> (r: Self) {
        *self
    }

    fn same(&self, other: &Self) -> (r: bool) {
        *self == *other
    }
}

impl Key for ButtonId {
    open spec fn lt(a: ButtonId, b: ButtonId) -> bool {
        button_rank(a) < button_rank(b)
    }

    proof fn irreflexive(a: ButtonId) {
    }

    proof fn transitive(a: ButtonId, b: ButtonId, c: ButtonId) {
    }

    proof fn total(a: ButtonId, b: ButtonId) {
    }

    fn before(&self, other: &Self) -> (r: bool) {
        button_rank_of(*self) < button_rank_of(*other)
    }
}

/// The place of a direction in the order of its kind.
pub open spec fn direction_rank(x: GestureDirection) -> int {
    match x {
        GestureDirection::Up => 0,
        GestureDirection::Down => 1,
        GestureDirection::Left => 2,
        GestureDirection::Right => 3,
        GestureDirection::Click => 4,
    }
}

/// The place of a direction in the order of its kind.
fn direction_rank_of(x: GestureDirection) -> (r: u8)
    ensures
        r == direction_rank(x),
{
    match x {
        GestureDirection::Up => 0,
        GestureDirection::Down => 1,
        GestureDirection::Left => 2,
        GestureDirection::Right => 3,
        GestureDirection::Click => 4,
    }
}

impl DeepView for GestureDirection {
    type V = GestureDirection;

    open spec fn deep_view(&self) -> GestureDirection {
        *self
    }
}

impl Data for GestureDirection {
    fn duplicate(&self) -> (r: Self) {
        *self
    }

    fn same(&self, other: &Self) -> (r: bool) {
        *self == *other
    }
}

impl Key for GestureDirection {
    open spec fn lt(a: GestureDirection, b: GestureDirection) -> bool {
        direction_rank(a) < direction_rank(b)
    }

    proof fn irreflexive(a: GestureDirection) {
    }

    proof fn transitive(a: GestureDirection, b: GestureDirection, c: GestureDirection) {
    }

    proof fn total(a: GestureDirection, b: GestureDirection) {
    }

    fn before(&self, other: &Self) -> (r: bool) {
        direction_rank_of(*self) < direction_rank_of(*other)
    }
}

/// What a control does.
#[derive(Clone, Debug, PartialEq, Eq)]
pub enum Action {
    Nothing,
    LeftClick,
    RightClick,
    MiddleClick,
    MouseBack,
    MouseForward,
    Copy,
    Paste,
    Cut,
    Undo,
    Redo,
    SelectAll,
    Find,
    Save,
    BrowserBack,
    BrowserForward,
    NewTab,
    CloseTab,
    ReopenTab,
    NextTab,
    PrevTab,
    ReloadPage,
    MissionControl,
    ShowActionsRing,
    AppExpose,
    PreviousDesktop,
    NextDesktop,
    ShowDesktop,
    LaunchpadShow,
    LockScreen,
    Screenshot,
    CaptureRegion,
    Sleep,
    PlayPause,
    NextTrack,
    PrevTrack,
    VolumeUp,
    VolumeDown,
    MuteVolume,
    CycleDpiPresets,
    ToggleSmartShift,
    ScrollUp,
    ScrollDown,
    HorizontalScrollLeft,
    HorizontalScrollRight,
    Workflow(String),
    OpenApplication(String),
    SetDpiPreset(u8),
    CustomShortcut(String),
    TypeText(String),
    RunAppleScript(String),
    RunShellCommand(String),
}

/// What an [`Action`] holds.
pub ghost enum ActionModel {
    /// One that is no more than its name.
    Plain(Action),
    Workflow(Seq<char>),
    OpenApplication(Seq<char>),
    SetDpiPreset(u8),
    CustomShortcut(Seq<char>),
    TypeText(Seq<char>),
    RunAppleScript(Seq<char>),
    RunShellCommand(Seq<char>),
}

impl DeepView for Action {
    type V = ActionModel;

    open spec fn deep_view(&self) -> ActionModel {
        match self {
            Action::Workflow(x) => ActionModel::Workflow(x.deep_view()),
            Action::OpenApplication(x) => ActionModel::OpenApplication(x.deep_view()),
            Action::SetDpiPreset(x) => ActionModel::SetDpiPreset(x.deep_view()),
            Action::CustomShortcut(x) => ActionModel::CustomShortcut(x.deep_view()),
            Action::TypeText(x) => ActionModel::TypeText(x.deep_view()),
            Action::RunAppleScript(x) => ActionModel::RunAppleScript(x.deep_view()),
            Action::RunShellCommand(x) => ActionModel::RunShellCommand(x.deep_view()),
            _ => ActionModel::Plain(*self),
        }
    }
}

impl Data for Action {
    fn duplicate(&self) -> (r: Self) {
        match self {
            Action::Nothing => Action::Nothing,
            Action::LeftClick => Action::LeftClick,
            Action::RightClick => Action::RightClick,
            Action::MiddleClick => Action::MiddleClick,
            Action::MouseBack => Action::MouseBack,
            Action::MouseForward => Action::MouseForward,
            Action::Copy => Action::Copy,
            Action::Paste => Action::Paste,
            Action::Cut => Action::Cut,
            Action::Undo => Action::Undo,
            Action::Redo => Action::Redo,
            Action::SelectAll => Action::SelectAll,
            Action::Find => Action::Find,
            Action::Save => Action::Save,
            Action::BrowserBack => Action::BrowserBack,
            Action::BrowserForward => Action::BrowserForward,
            Action::NewTab => Action::NewTab,
            Action::CloseTab => Action::CloseTab,
            Action::ReopenTab => Action::ReopenTab,
            Action::NextTab => Action::NextTab,
            Action::PrevTab => Action::PrevTab,
            Action::ReloadPage => Action::ReloadPage,
            Action::MissionControl => Action::MissionControl,
            Action::ShowActionsRing => Action::ShowActionsRing,
            Action::AppExpose => Action::AppExpose,
            Action::PreviousDesktop => Action::PreviousDesktop,
            Action::NextDesktop => Action::NextDesktop,
            Action::ShowDesktop => Action::ShowDesktop,
            Action::LaunchpadShow => Action::LaunchpadShow,
            Action::LockScreen => Action::LockScreen,
            Action::Screenshot => Action::Screenshot,
            Action::CaptureRegion => Action::CaptureRegion,
            Action::Sleep => Action::Sleep,
            Action::PlayPause => Action::PlayPause,
            Action::NextTrack => Action::NextTrack,
            Action::PrevTrack => Action::PrevTrack,
            Action::VolumeUp => Action::VolumeUp,
            Action::VolumeDown => Action::VolumeDown,
            Action::MuteVolume => Action::MuteVolume,
            Action::CycleDpiPresets => Action::CycleDpiPresets,
            Action::ToggleSmartShift => Action::ToggleSmartShift,
            Action::ScrollUp => Action::ScrollUp,
            Action::ScrollDown => Action::ScrollDown,
            Action::HorizontalScrollLeft => Action::HorizontalScrollLeft,
            Action::HorizontalScrollRight => Action::HorizontalScrollRight,
            Action::Workflow(x) => Action::Workflow(x.duplicate()),
            Action::OpenApplication(x) => Action::OpenApplication(x.duplicate()),
            Action::SetDpiPreset(x) => Action::SetDpiPreset(x.duplicate()),
            Action::CustomShortcut(x) => Action::CustomShortcut(x.duplicate()),
            Action::TypeText(x) => Action::TypeText(x.duplicate()),
            Action::RunAppleScript(x) => Action::RunAppleScript(x.duplicate()),
            Action::RunShellCommand(x) => Action::RunShellCommand(x.duplicate()),
        }
    }

    fn same(&self, other: &Self) -> (r: bool) {
        match self {
            Action::Nothing => matches!(other, Action::Nothing),
            Action::LeftClick => matches!(other, Action::LeftClick),
            Action::RightClick => matches!(other, Action::RightClick),
            Action::MiddleClick => matches!(other, Action::MiddleClick),
            Action::MouseBack => matches!(other, Action::MouseBack),
            Action::MouseForward => matches!(other, Action::MouseForward),
            Action::Copy => matches!(other, Action::Copy),
            Action::Paste => matches!(other, Action::Paste),
            Action::Cut => matches!(other, Action::Cut),
            Action::Undo => matches!(other, Action::Undo),
            Action::Redo => matches!(other, Action::Redo),
            Action::SelectAll => matches!(other, Action::SelectAll),
            Action::Find => matches!(other, Action::Find),
            Action::Save => matches!(other, Action::Save),
            Action::BrowserBack => matches!(other, Action::BrowserBack),
            Action::BrowserForward => matches!(other, Action::BrowserForward),
            Action::NewTab => matches!(other, Action::NewTab),
            Action::CloseTab => matches!(other, Action::CloseTab),
            Action::ReopenTab => matches!(other, Action::ReopenTab),
            Action::NextTab => matches!(other, Action::NextTab),
            Action::PrevTab => matches!(other, Action::PrevTab),
            Action::ReloadPage => matches!(other, Action::ReloadPage),
            Action::MissionControl => matches!(other, Action::MissionControl),
            Action::ShowActionsRing => matches!(other, Action::ShowActionsRing),
            Action::AppExpose => matches!(other, Action::AppExpose),
            Action::PreviousDesktop => matches!(other, Action::PreviousDesktop),
            Action::NextDesktop => matches!(other, Action::NextDesktop),
            Action::ShowDesktop => matches!(other, Action::ShowDesktop),
            Action::LaunchpadShow => matches!(other, Action::LaunchpadShow),
            Action::LockScreen => matches!(other, Action::LockScreen),
            Action::Screenshot => matches!(other, Action::Screenshot),
            Action::CaptureRegion => matches!(other, Action::CaptureRegion),
            Action::Sleep => matches!(other, Action::Sleep),
            Action::PlayPause => matches!(other, Action::PlayPause),
            Action::NextTrack => matches!(other, Action::NextTrack),
            Action::PrevTrack => matches!(other, Action::PrevTrack),
            Action::VolumeUp => matches!(other, Action::VolumeUp),
            Action::VolumeDown => matches!(other, Action::VolumeDown),
            Action::MuteVolume => matches!(other, Action::MuteVolume),
            Action::CycleDpiPresets => matches!(other, Action::CycleDpiPresets),
            Action::ToggleSmartShift => matches!(other, Action::ToggleSmartShift),
            Action::ScrollUp => matches!(other, Action::ScrollUp),
            Action::ScrollDown => matches!(other, Action::ScrollDown),
            Action::HorizontalScrollLeft => matches!(other, Action::HorizontalScrollLeft),
            Action::HorizontalScrollRight => matches!(other, Action::HorizontalScrollRight),
            Action::Workflow(x) => match other {
                Action::Workflow(y) => x.same(y),
                _ => false,
            },
            Action::OpenApplication(x) => match other {
                Action::OpenApplication(y) => x.same(y),
                _ => false,
            },
            Action::SetDpiPreset(x) => match other {
                Action::SetDpiPreset(y) => x.same(y),
                _ => false,
            },
            Action::CustomShortcut(x) => match other {
                Action::CustomShortcut(y) => x.same(y),
                _ => false,
            },
            Action::TypeText(x) => match other {
                Action::TypeText(y) => x.same(y),
                _ => false,
            },
            Action::RunAppleScript(x) => match other {
                Action::RunAppleScript(y) => x.same(y),
                _ => false,
            },
            Action::RunShellCommand(x) => match other {
                Action::RunShellCommand(y) => x.same(y),
                _ => false,
            },
        }
    }
}

/// What a control of a device is bound to.
#[derive(Clone, Debug, PartialEq, Eq)]
pub enum Binding {
    /// One action.
    Single(Action),
    /// An action for each direction.
    Gesture(Table<GestureDirection, Action>),
}

/// What a [`Binding`] holds.
pub ghost enum BindingModel {
    Single(ActionModel),
    Gesture(Map<GestureDirection, ActionModel>),
}

impl DeepView for Binding {
    type V = BindingModel;

    open spec fn deep_view(&self) -> BindingModel {
        match self {
            Binding::Single(action) => BindingModel::Single(action.deep_view()),
            Binding::Gesture(map) => BindingModel::Gesture(map.deep_view()),
        }
    }
}

impl Data for Binding {
    fn duplicate(&self) -> (r: Self) {
        match self {
            Binding::Single(action) => Binding::Single(action.duplicate()),
            Binding::Gesture(map) => Binding::Gesture(map.duplicate()),
        }
    }

    fn same(&self, other: &Self) -> (r: bool) {
        match (self, other) {
            (Binding::Single(a), Binding::Single(b)) => a.same(b),
            (Binding::Gesture(a), Binding::Gesture(b)) => a.same(b),
            _ => false,
        }
    }
}

} // verus!
