//! The icon that the application wears, and the icons of other applications.

use vstd::prelude::*;

use crate::text::concat;

verus! {

/// What is done about the icon of the application.
#[derive(Clone, Debug, PartialEq, Eq)]
pub enum IconStep {
    /// Nothing.
    Leave,
    /// It goes back to what it was shipped with.
    Reset,
    /// It is set from a file.
    Wear(String),
}

/// What is done about the icon when one is chosen.
pub open spec fn on_choice(is_default: bool, file: Option<String>) -> IconStep {
    if is_default {
        IconStep::Reset
    } else {
        match file {
            Some(file) => IconStep::Wear(file),
            None => IconStep::Leave,
        }
    }
}

/// What is done about the icon at the start.
pub open spec fn on_start(is_default: bool, file: Option<String>) -> IconStep {
    if is_default {
        IconStep::Leave
    } else {
        on_choice(false, file)
    }
}

/// What is done about the icon when one is chosen. `file` is where the chosen
/// one is shipped; one that is not shipped is left alone.
pub fn apply(is_default: bool, file: Option<String>) -> (r: IconStep)
    ensures
        r == on_choice(is_default, file),
{
    if is_default {
        IconStep::Reset
    } else {
        match file {
            Some(file) => IconStep::Wear(file),
            None => IconStep::Leave,
        }
    }
}

/// What is done about the icon at the start. The default is left alone, so that
/// one that was put there by hand stays; any other is set anew, since an update
/// drops it.
pub fn restore(is_default: bool, file: Option<String>) -> (r: IconStep)
    ensures
        r == on_start(is_default, file),
{
    if is_default {
        IconStep::Leave
    } else {
        apply(false, file)
    }
}

/// The file that an icon is shipped in.
pub fn alternate_file(icon: &str) -> (r: String)
    ensures
        r@ == icon@ + ".icns"@,
{
    concat(icon, ".icns")
}

/// The file that an icon is shown from.
pub fn preview_file(icon: &str) -> (r: String)
    ensures
        r@ == icon@ + ".png"@,
{
    concat(icon, ".png")
}

/// Pixels with red and blue exchanged. Bytes that make no whole pixel stay.
pub open spec fn swapped(bytes: Seq<u8>) -> Seq<u8> {
    Seq::new(
        bytes.len(),
        |i: int|
            if i >= bytes.len() - bytes.len() % 4 {
                bytes[i]
            } else if i % 4 == 0 {
                bytes[i + 2]
            } else if i % 4 == 2 {
                bytes[i - 2]
            } else {
                bytes[i]
            },
    )
}

/// Exchange red and blue in place.
pub fn swap_red_and_blue(bytes: &mut Vec<u8>)
    ensures
        final(bytes)@ == swapped(old(bytes)@),
{
    let ghost was = bytes@;
    let n: usize = bytes.len();
    let whole: usize = n - n % 4;
    let mut i: usize = 0;
    while i < whole
        invariant
            i <= whole,
            i % 4 == 0,
            whole == n - n % 4,
            n == was.len(),
            bytes@.len() == n,
            forall|k: int| 0 <= k < i ==> #[trigger] bytes@[k] == swapped(was)[k],
            forall|k: int| i <= k < n ==> #[trigger] bytes@[k] == was[k],
        decreases whole - i,
    {
        let red = bytes[i];
        let blue = bytes[i + 2];
        bytes.set(i, blue);
        bytes.set(i + 2, red);
        i = i + 4;
    }
    proof {
        assert(bytes@ =~= swapped(was));
    }
}

/// `image::RgbaImage::from_raw`: whether there are enough bytes for an image of
/// four bytes a pixel, and the bytes as the image holds them, which is as they
/// were. Of a row that alone has more bytes than can be counted it is left
/// unsaid.
#[verifier::external_body]
fn rgba_frame(width: u32, height: u32, rgba: Vec<u8>) -> (r: Option<Vec<u8>>)
    ensures
        4 * width <= usize::MAX ==> (r is Some <==> 4 * width * height <= rgba@.len()),
        r matches Some(frame) ==> frame@ == rgba@ && 4 * width * height <= rgba@.len(),
{
    image::RgbaImage::from_raw(width, height, rgba).map(|frame| frame.into_raw())
}

/// An icon as it is painted: with blue first. `None` if there are too few bytes
/// for it.
pub fn render_image_from_rgba(width: u32, height: u32, rgba: Vec<u8>) -> (r: Option<Vec<u8>>)
    ensures
        4 * width <= usize::MAX ==> (r is Some <==> 4 * width * height <= rgba@.len()),
        r matches Some(frame) ==> frame@ == swapped(rgba@) && 4 * width * height <= rgba@.len(),
{
    let mut bytes = rgba;
    swap_red_and_blue(&mut bytes);
    rgba_frame(width, height, bytes)
}

/// Exchanging red and blue twice changes nothing.
pub proof fn swapping_twice_changes_nothing(bytes: Seq<u8>)
    ensures
        swapped(swapped(bytes)) == bytes,
{
    let once = swapped(bytes);
    let twice = swapped(once);
    assert forall|i: int| 0 <= i < bytes.len() implies #[trigger] twice[i] == bytes[i] by {
        let whole = bytes.len() - bytes.len() % 4;
        if i < whole {
            if i % 4 == 0 {
                assert((i + 2) % 4 == 2 && i + 2 < whole);
                assert(once[i + 2] == bytes[i]);
            } else if i % 4 == 2 {
                assert((i - 2) % 4 == 0);
                assert(once[i - 2] == bytes[i]);
            }
        }
    }
    assert(twice =~= bytes);
}

/// Only a choice, never a start, takes away an icon that was put there by hand.
pub proof fn a_start_never_resets(is_default: bool, file: Option<String>)
    ensures
        on_start(is_default, file) != IconStep::Reset,
        on_choice(true, file) == IconStep::Reset,
{
}

/// An icon that was chosen is worn where it is shipped, at once and at every start;
/// one that is not shipped changes nothing.
pub proof fn a_chosen_icon_is_worn(file: String)
    ensures
        on_choice(false, Some(file)) == IconStep::Wear(file),
        on_start(false, Some(file)) == IconStep::Wear(file),
        on_choice(false, None) == IconStep::Leave,
        on_start(false, None) == IconStep::Leave,
        on_start(true, Some(file)) == IconStep::Leave,
{
}

/// The first and third byte of every pixel change places; the others stay.
pub proof fn red_and_blue_change_places(bytes: Seq<u8>, pixel: int)
    requires
        0 <= pixel,
        4 * pixel + 4 <= bytes.len(),
    ensures
        swapped(bytes).len() == bytes.len(),
        swapped(bytes)[4 * pixel] == bytes[4 * pixel + 2],
        swapped(bytes)[4 * pixel + 1] == bytes[4 * pixel + 1],
        swapped(bytes)[4 * pixel + 2] == bytes[4 * pixel],
        swapped(bytes)[4 * pixel + 3] == bytes[4 * pixel + 3],
{
    let whole = bytes.len() - bytes.len() % 4;
    assert(4 * pixel + 3 < whole);
    assert((4 * pixel) % 4 == 0);
    assert((4 * pixel + 1) % 4 == 1);
    assert((4 * pixel + 2) % 4 == 2);
    assert((4 * pixel + 3) % 4 == 3);
}

} // verus!
