//! The controls of a device and the reports they send.

use vstd::prelude::*;

verus! {

/// A physical control, under the name its presses are dispatched as.
#[derive(Clone, Copy, Debug, PartialEq, Eq, PartialOrd, Ord, Hash, Structural)]
pub enum ButtonId {
    MiddleClick,
    Back,
    Forward,
    WheelTiltLeft,
    WheelTiltRight,
    GestureButton,
    HapticPanel,
    DpiToggle,
    Thumbwheel,
    ThumbwheelScrollDown,
    ThumbwheelScrollUp,
    KeySearch,
    KeyDictation,
    KeyEmoji,
    KeyScreenCapture,
    KeyMicMute,
    KeyPlayPause,
    KeyMute,
    KeyVolumeDown,
    KeyVolumeUp,
}

/// One of the five things a gesture-mode control can do.
#[derive(Clone, Copy, Debug, PartialEq, Eq, PartialOrd, Ord, Hash, Structural)]
pub enum GestureDirection {
    Up,
    Down,
    Left,
    Right,
    Click,
}

/// What one revolution of the thumb wheel measures in each reporting mode.
#[derive(Clone, Copy, Debug, PartialEq, Eq, Structural)]
pub struct WheelResolution {
    /// Increments per revolution in native mode.
    pub native: u16,
    /// Increments per revolution in diverted mode.
    pub diverted: u16,
}

/// One input captured from the active device.
#[derive(Clone, Copy, Debug, PartialEq, Eq, Structural)]
pub enum CapturedInput {
    /// A completed swipe, or a click, from a diverted gesture source.
    Gesture(ButtonId, GestureDirection),
    /// A diverted control's physical down edge.
    ButtonDown(ButtonId),
    /// Thumb-wheel rotation, in the wheel's diverted increments.
    Scroll { increments: i16, resolution: WheelResolution },
    /// A diverted control's physical up edge.
    ButtonUp(ButtonId),
    /// A tap without an observable hold.
    ButtonPulse(ButtonId),
    /// A diverted key went down.
    ButtonPressed(ButtonId),
}

/// Controls that can be diverted as plain buttons, by control identifier.
pub open spec fn standard_button(cid: u16) -> Option<ButtonId> {
    if cid == 0x0052 {
        Some(ButtonId::MiddleClick)
    } else if cid == 0x0053 {
        Some(ButtonId::Back)
    } else if cid == 0x0056 {
        Some(ButtonId::Forward)
    } else if cid == 0x005b {
        Some(ButtonId::WheelTiltLeft)
    } else if cid == 0x005d {
        Some(ButtonId::WheelTiltRight)
    } else {
        None
    }
}

/// The standard buttons that can be diverted, with the control identifier and
/// the name each is dispatched as. A button is diverted only when its binding
/// leaves the default.
pub fn divertable_standard_buttons() -> (r: Vec<(u16, ButtonId)>)
    ensures
        r@ == seq![
            (0x0052u16, ButtonId::MiddleClick),
            (0x0053u16, ButtonId::Back),
            (0x0056u16, ButtonId::Forward),
            (0x005bu16, ButtonId::WheelTiltLeft),
            (0x005du16, ButtonId::WheelTiltRight),
        ],
        forall|i: int|
            0 <= i < r@.len() ==> standard_button((#[trigger] r@[i]).0) == Some(r@[i].1),
{
    let mut r: Vec<(u16, ButtonId)> = Vec::new();
    r.push((0x0052, ButtonId::MiddleClick));
    r.push((0x0053, ButtonId::Back));
    r.push((0x0056, ButtonId::Forward));
    r.push((0x005b, ButtonId::WheelTiltLeft));
    r.push((0x005d, ButtonId::WheelTiltRight));
    r
}

/// The keyboard keys that can be diverted, by control identifier.
pub open spec fn keyboard_key(cid: u16) -> Option<ButtonId> {
    if cid == 0x00d4 {
        Some(ButtonId::KeySearch)
    } else if cid == 0x0103 {
        Some(ButtonId::KeyDictation)
    } else if cid == 0x0108 {
        Some(ButtonId::KeyEmoji)
    } else if cid == 0x010a {
        Some(ButtonId::KeyScreenCapture)
    } else if cid == 0x011c {
        Some(ButtonId::KeyMicMute)
    } else if cid == 0x00e5 {
        Some(ButtonId::KeyPlayPause)
    } else if cid == 0x00e7 {
        Some(ButtonId::KeyMute)
    } else if cid == 0x00e8 {
        Some(ButtonId::KeyVolumeDown)
    } else if cid == 0x00e9 {
        Some(ButtonId::KeyVolumeUp)
    } else {
        None
    }
}

/// The key that a control identifier stands for.
pub fn keyboard_key_button(cid: u16) -> (r: Option<ButtonId>)
    ensures
        r == keyboard_key(cid),
{
    match cid {
        0x00d4 => Some(ButtonId::KeySearch),
        0x0103 => Some(ButtonId::KeyDictation),
        0x0108 => Some(ButtonId::KeyEmoji),
        0x010a => Some(ButtonId::KeyScreenCapture),
        0x011c => Some(ButtonId::KeyMicMute),
        0x00e5 => Some(ButtonId::KeyPlayPause),
        0x00e7 => Some(ButtonId::KeyMute),
        0x00e8 => Some(ButtonId::KeyVolumeDown),
        0x00e9 => Some(ButtonId::KeyVolumeUp),
        _ => None,
    }
}

/// Control identifiers of the two gesture sources: the dedicated gesture
/// button, and the haptic panel.
#[derive(Clone, Copy, Debug, PartialEq, Eq, Structural)]
pub struct GestureSources {
    /// The dedicated gesture button.
    pub gesture_button: u16,
    /// The haptic panel.
    pub haptic_panel: u16,
}

impl GestureSources {
    /// The name a gesture source is dispatched as.
    pub open spec fn spec_button(self, cid: u16) -> Option<ButtonId> {
        if cid == self.gesture_button {
            Some(ButtonId::GestureButton)
        } else if cid == self.haptic_panel {
            Some(ButtonId::HapticPanel)
        } else {
            None
        }
    }

    /// The name a gesture source is dispatched as; `None` for a control that
    /// is no gesture source.
    pub fn gesture_source_button(&self, cid: u16) -> (r: Option<ButtonId>)
        ensures
            r == self.spec_button(cid),
    {
        if cid == self.gesture_button {
            Some(ButtonId::GestureButton)
        } else if cid == self.haptic_panel {
            Some(ButtonId::HapticPanel)
        } else {
            None
        }
    }
}

/// A control as the device lists it.
#[derive(Clone, Copy, Debug, PartialEq, Eq, Structural)]
pub struct ControlInfo {
    /// Control identifier.
    pub cid: u16,
    /// Whether the control can be diverted.
    pub divertable: bool,
    /// Whether the control can report raw motion while diverted.
    pub raw_xy: bool,
}

/// Whether the table lists `cid` as divertable.
pub open spec fn can_divert(controls: Seq<ControlInfo>, cid: u16) -> bool {
    exists|i: int|
        0 <= i < controls.len() && (#[trigger] controls[i]).cid == cid && controls[i].divertable
}

/// Whether the table lists `cid` as able to report raw motion.
pub open spec fn can_report_motion(controls: Seq<ControlInfo>, cid: u16) -> bool {
    exists|i: int|
        0 <= i < controls.len() && (#[trigger] controls[i]).cid == cid && controls[i].raw_xy
}

/// Whether the table lists `cid` as divertable.
pub fn is_divertable(controls: &Vec<ControlInfo>, cid: u16) -> (r: bool)
    ensures
        r == can_divert(controls@, cid),
{
    let mut i: usize = 0;
    while i < controls.len()
        invariant
            i <= controls@.len(),
            forall|j: int|
                0 <= j < i ==> !((#[trigger] controls@[j]).cid == cid && controls@[j].divertable),
        decreases controls@.len() - i,
    {
        if controls[i].cid == cid && controls[i].divertable {
            proof {
                assert(controls@[i as int].cid == cid);
            }
            return true;
        }
        i = i + 1;
    }
    false
}

/// Whether the table lists `cid` as able to report raw motion.
pub fn supports_raw_xy(controls: &Vec<ControlInfo>, cid: u16) -> (r: bool)
    ensures
        r == can_report_motion(controls@, cid),
{
    let mut i: usize = 0;
    while i < controls.len()
        invariant
            i <= controls@.len(),
            forall|j: int|
                0 <= j < i ==> !((#[trigger] controls@[j]).cid == cid && controls@[j].raw_xy),
        decreases controls@.len() - i,
    {
        if controls[i].cid == cid && controls[i].raw_xy {
            proof {
                assert(controls@[i as int].cid == cid);
            }
            return true;
        }
        i = i + 1;
    }
    false
}

/// Whether `cids` lists `cid`.
pub fn lists(cids: &Vec<u16>, cid: u16) -> (r: bool)
    ensures
        r == cids@.contains(cid),
{
    let mut i: usize = 0;
    while i < cids.len()
        invariant
            i <= cids@.len(),
            forall|j: int| 0 <= j < i ==> cids@[j] != cid,
        decreases cids@.len() - i,
    {
        if cids[i] == cid {
            proof {
                assert(cids@[i as int] == cid);
            }
            return true;
        }
        i = i + 1;
    }
    false
}

/// How a control reports, as the device answers.
#[derive(Clone, Copy, Debug, PartialEq, Eq, Structural)]
pub struct CidReporting {
    /// Whether the control is diverted.
    pub diverted: bool,
    /// Whether the control reports raw motion.
    pub raw_xy: bool,
    /// Control whose function this one performs.
    pub remap: u16,
}

/// A change of how a control reports; `None` leaves a bit as it is.
#[derive(Clone, Copy, Debug, PartialEq, Eq, Structural)]
pub struct CidReportingChange {
    /// Divert the control, or hand it back.
    pub diverted: Option<bool>,
    /// Report raw motion, or stop.
    pub raw_xy: Option<bool>,
    /// Divert the control for good.
    pub persistent: Option<bool>,
    /// Report raw motion whatever else is set.
    pub forced_raw_xy: Option<bool>,
    /// Control whose function this one performs.
    pub remap: u16,
}

/// The write that diverts a control: it turns the diversion on, keeps the
/// control's remap target, and leaves every other bit alone.
pub fn divert_change(reporting: CidReporting, raw_xy: bool) -> (r: CidReportingChange)
    ensures
        r == (CidReportingChange {
            diverted: Some(true),
            raw_xy: Some(raw_xy),
            persistent: None,
            forced_raw_xy: None,
            remap: reporting.remap,
        }),
{
    CidReportingChange {
        diverted: Some(true),
        raw_xy: Some(raw_xy),
        persistent: None,
        forced_raw_xy: None,
        remap: reporting.remap,
    }
}

/// The write that hands a control back.
///
/// Not a replay of what the control reported before: a control can already be
/// diverted when a session arms it, and replaying that would hand the button
/// back with nothing listening to it.
pub open spec fn spec_undivert_change(reporting: CidReporting) -> CidReportingChange {
    CidReportingChange {
        diverted: Some(false),
        raw_xy: Some(false),
        persistent: None,
        forced_raw_xy: None,
        remap: reporting.remap,
    }
}

/// The write that hands a control back: it turns the diversion off, keeps the
/// control's remap target, and leaves every other bit alone.
pub fn undivert_change(reporting: CidReporting) -> (r: CidReportingChange)
    ensures
        r == spec_undivert_change(reporting),
{
    CidReportingChange {
        diverted: Some(false),
        raw_xy: Some(false),
        persistent: None,
        forced_raw_xy: None,
        remap: reporting.remap,
    }
}

/// How a control reports after a change.
pub open spec fn after_change(reporting: CidReporting, change: CidReportingChange) -> CidReporting {
    CidReporting {
        diverted: match change.diverted {
            Some(b) => b,
            None => reporting.diverted,
        },
        raw_xy: match change.raw_xy {
            Some(b) => b,
            None => reporting.raw_xy,
        },
        remap: change.remap,
    }
}

/// A control that is handed back is never left diverted, not even when it was
/// diverted before the session, and keeps its remap target.
pub proof fn a_restored_control_is_live(original: CidReporting, current: CidReporting)
    ensures
        !after_change(current, spec_undivert_change(original)).diverted,
        !after_change(current, spec_undivert_change(original)).raw_xy,
        after_change(current, spec_undivert_change(original)).remap == original.remap,
{
}

/// Why a capture session is shutting down.
#[derive(Clone, Copy, Debug, PartialEq, Eq, Structural)]
pub enum CaptureStop {
    /// Normal stop: restore diverted controls.
    Graceful,
    /// The channel is dying: skip the restoring writes.
    Revoked,
}

/// Why a capture session could not start, or had to stop.
#[derive(Debug)]
pub enum GestureError {
    /// The transport failed while the device was found or opened.
    Hid(String),
    /// No connected device matched the capture route.
    DeviceNotFound,
    /// The device at this index did not answer.
    DeviceUnreachable(u8),
    /// A feature call returned an error.
    Hidpp(String),
}

/// The hexadecimal digit for `n`.
pub open spec fn hex_digit(n: int) -> char {
    if n < 10 {
        (n + '0' as int) as char
    } else {
        (n - 10 + 'a' as int) as char
    }
}

/// The hexadecimal digit for `n`.
pub(crate) fn hex_char(n: u8) -> (r: char)
    requires
        n < 16,
    ensures
        r == hex_digit(n as int),
{
    match n {
        0 => '0',
        1 => '1',
        2 => '2',
        3 => '3',
        4 => '4',
        5 => '5',
        6 => '6',
        7 => '7',
        8 => '8',
        9 => '9',
        10 => 'a',
        11 => 'b',
        12 => 'c',
        13 => 'd',
        14 => 'e',
        _ => 'f',
    }
}

impl GestureError {
    /// What the error says.
    pub open spec fn spec_message(self) -> Seq<char> {
        match self {
            GestureError::Hid(_) => "HID transport error"@,
            GestureError::DeviceNotFound => "no connected device matched the capture route"@,
            GestureError::DeviceUnreachable(index) => "device at index 0x"@.push(
                hex_digit(index as int / 16),
            ).push(hex_digit(index as int % 16)) + " did not respond to HID++"@,
            GestureError::Hidpp(context) => "HID++ protocol error: "@ + context@,
        }
    }

    /// What the error says.
    pub fn message(&self) -> (r: String)
        ensures
            r@ == self.spec_message(),
    {
        match self {
            GestureError::Hid(_) => "HID transport error".to_owned(),
            GestureError::DeviceNotFound => {
                "no connected device matched the capture route".to_owned()
            },
            GestureError::DeviceUnreachable(index) => {
                let mut text = "device at index 0x".to_owned();
                text.push(hex_char(*index / 16));
                text.push(hex_char(*index % 16));
                text.append(" did not respond to HID++");
                text
            },
            GestureError::Hidpp(context) => {
                let mut text = "HID++ protocol error: ".to_owned();
                text.append(context.as_str());
                text
            },
        }
    }
}

/// A control that can be diverted is known by one name, and no two by the same.
pub proof fn controls_go_by_names_of_their_own(a: u16, b: u16)
    requires
        a != b,
    ensures
        standard_button(a) is Some ==> standard_button(a) != standard_button(b),
        keyboard_key(a) is Some ==> keyboard_key(a) != keyboard_key(b),
        standard_button(a) is Some ==> keyboard_key(b) != standard_button(a),
{
}

/// A change sets what it names and leaves the rest.
pub proof fn a_change_sets_what_it_names(reporting: CidReporting, change: CidReportingChange)
    ensures
        change.diverted matches Some(b) ==> after_change(reporting, change).diverted == b,
        change.diverted is None ==> after_change(reporting, change).diverted == reporting.diverted,
        change.raw_xy matches Some(b) ==> after_change(reporting, change).raw_xy == b,
        change.raw_xy is None ==> after_change(reporting, change).raw_xy == reporting.raw_xy,
        after_change(reporting, change).remap == change.remap,
{
}

/// A control can be diverted exactly where the device lists it so.
pub proof fn a_control_can_what_the_device_lists(controls: Seq<ControlInfo>, cid: u16)
    ensures
        can_divert(controls, cid) <==> exists|i: int|
            0 <= i < controls.len() && (#[trigger] controls[i]).cid == cid
                && controls[i].divertable,
        can_report_motion(controls, cid) <==> exists|i: int|
            0 <= i < controls.len() && (#[trigger] controls[i]).cid == cid && controls[i].raw_xy,
{
}

} // verus!
