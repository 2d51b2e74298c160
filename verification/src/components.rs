//! Small controls, and the sizes of things.

use vstd::prelude::*;

use crate::data::Data;

verus! {

/// A switch whose state its owner keeps.
#[derive(Clone, Debug, PartialEq, Eq)]
pub struct Toggle {
    pub selected: bool,
    pub disabled: bool,
    /// What stands beside it; `None` to say whether it is on.
    pub label: Option<String>,
}

impl Toggle {
    /// A switch that is off.
    pub fn new() -> (r: Toggle)
        ensures
            r == (Toggle { selected: false, disabled: false, label: None }),
    {
        Toggle { selected: false, disabled: false, label: None }
    }

    /// The switch with another label.
    pub fn label(self, label: Option<String>) -> (r: Toggle)
        ensures
            r == (Toggle { label, ..self }),
    {
        Toggle { label, ..self }
    }

    /// The switch in another state.
    pub fn selected(self, selected: bool) -> (r: Toggle)
        ensures
            r == (Toggle { selected, ..self }),
    {
        Toggle { selected, ..self }
    }

    /// The switch, to be pressed or not.
    pub fn disabled(self, disabled: bool) -> (r: Toggle)
        ensures
            r == (Toggle { disabled, ..self }),
    {
        Toggle { disabled, ..self }
    }

    /// Whether the switch is on.
    pub fn is_selected(&self) -> (r: bool)
        ensures
            r == self.selected,
    {
        self.selected
    }

    /// The state that pressing the switch asks its owner for; `None` if it
    /// cannot be pressed.
    pub fn press(&self) -> (r: Option<bool>)
        ensures
            r == (if self.disabled {
                None
            } else {
                Some(!self.selected)
            }),
    {
        if self.disabled {
            None
        } else {
            Some(!self.selected)
        }
    }

    /// What stands beside the switch.
    pub fn shown_label(&self) -> (r: String)
        ensures
            r@ == match self.label {
                Some(label) => label@,
                None => if self.selected {
                    "On"@
                } else {
                    "Off"@
                },
            },
    {
        match &self.label {
            Some(label) => label.duplicate(),
            None => if self.selected {
                "On".to_owned()
            } else {
                "Off".to_owned()
            },
        }
    }
}

/// Keep the hint of an input in the current language, saying whether it
/// changed. One that did not is left alone: setting it shows the input anew.
pub fn localize_placeholder(placeholder: &mut String, text: &String) -> (r: bool)
    ensures
        final(placeholder)@ == text@,
        r == (old(placeholder)@ != text@),
        !r ==> *final(placeholder) == *old(placeholder),
{
    if *placeholder == *text {
        false
    } else {
        *placeholder = text.duplicate();
        true
    }
}

/// What a click on a chip with a mark to remove it asks for.
#[derive(Clone, Copy, Debug, PartialEq, Eq, Structural)]
pub enum ChipClick {
    Apply,
    Remove,
}

/// What a click on a chip asks for: a click on its mark removes it, and does
/// nothing else. Only one that can be removed has a mark.
pub fn chip_click(removable: bool, on_mark: bool) -> (r: ChipClick)
    ensures
        r == (if removable && on_mark {
            ChipClick::Remove
        } else {
            ChipClick::Apply
        }),
{
    if removable && on_mark {
        ChipClick::Remove
    } else {
        ChipClick::Apply
    }
}

/// The standard size of text, in pixels.
pub const BASE_REM_SIZE_IN_PX: u32 = 16;

/// Distances that grow with the size of text.
#[derive(Clone, Copy, Debug, PartialEq, Eq, PartialOrd, Ord, Hash, Structural)]
pub enum DynamicSpacing {
    /// 12 pixels at the standard size.
    Base12,
    /// 16 pixels at the standard size.
    Base16,
    /// 20 pixels at the standard size.
    Base20,
}

/// A distance at the standard size of text, in pixels.
pub open spec fn base_distance(spacing: DynamicSpacing) -> int {
    match spacing {
        DynamicSpacing::Base12 => 12,
        DynamicSpacing::Base16 => 16,
        DynamicSpacing::Base20 => 20,
    }
}

impl DynamicSpacing {
    /// The distance at the standard size of text, in pixels.
    pub fn base_pixels(self) -> (r: u32)
        ensures
            r == base_distance(self),
    {
        match self {
            DynamicSpacing::Base12 => 12,
            DynamicSpacing::Base16 => 16,
            DynamicSpacing::Base20 => 20,
        }
    }
}

} // verus!
