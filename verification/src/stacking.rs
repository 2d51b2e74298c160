//! Where the Actions Ring window goes: its place in the native z-order and its
//! position on the screen under the pointer.

use vstd::prelude::*;
use vstd::std_specs::cmp::PartialEqSpec;

verus! {

/// Where the overlay has to be inserted relative to the foreground window.
#[derive(Clone, Copy, Debug, Eq, PartialEq)]
pub enum RelativeStackTarget<T> {
    /// The overlay already sits right above the foreground window.
    Keep,
    /// Insert the overlay after this window.
    After(T),
    /// Insert the overlay at the top of the ordinary windows.
    Top,
    /// Insert the overlay at the top of the topmost band.
    Topmost,
}

/// The insertion point that puts `overlay` right above `foreground`.
///
/// The overlay joins the band (topmost or not) that the foreground window is
/// in. Within the band it goes after the foreground window's predecessor; when
/// the predecessor is missing, is the foreground window itself, or belongs to
/// the other band, it goes to the top of the band.
pub open spec fn spec_stack_target<T: Copy + Eq>(
    overlay: T,
    foreground: Option<T>,
    predecessor: Option<T>,
    overlay_is_topmost: bool,
    foreground_is_topmost: bool,
    predecessor_is_topmost: bool,
) -> RelativeStackTarget<T> {
    match foreground {
        None => RelativeStackTarget::Top,
        Some(f) => if f.eq_spec(&overlay) {
            RelativeStackTarget::Top
        } else {
            match predecessor {
                Some(p) if p.eq_spec(&overlay) && overlay_is_topmost == foreground_is_topmost =>
                    RelativeStackTarget::Keep,
                Some(p) if foreground_is_topmost == predecessor_is_topmost && !p.eq_spec(&f) =>
                    RelativeStackTarget::After(p),
                _ => if foreground_is_topmost {
                    RelativeStackTarget::Topmost
                } else {
                    RelativeStackTarget::Top
                },
            }
        },
    }
}

/// Choose where the overlay has to be inserted to sit right above the
/// foreground window without crossing into the other stacking band.
pub fn choose_windows_stack_target<T: Copy + Eq>(
    overlay: T,
    foreground: Option<T>,
    predecessor: Option<T>,
    overlay_is_topmost: bool,
    foreground_is_topmost: bool,
    predecessor_is_topmost: bool,
) -> (r: RelativeStackTarget<T>)
    requires
        T::obeys_eq_spec(),
    ensures
        r == spec_stack_target(
            overlay,
            foreground,
            predecessor,
            overlay_is_topmost,
            foreground_is_topmost,
            predecessor_is_topmost,
        ),
{
    let front = match foreground {
        Some(candidate) => {
            if candidate == overlay {
                return RelativeStackTarget::Top;
            }
            candidate
        },
        None => {
            return RelativeStackTarget::Top;
        },
    };
    if let Some(before) = predecessor {
        if before == overlay && overlay_is_topmost == foreground_is_topmost {
            return RelativeStackTarget::Keep;
        }
        if foreground_is_topmost == predecessor_is_topmost && !(before == front) {
            return RelativeStackTarget::After(before);
        }
    }
    if foreground_is_topmost {
        RelativeStackTarget::Topmost
    } else {
        RelativeStackTarget::Top
    }
}

/// The overlay ends up in the topmost band only above a topmost foreground
/// window, whatever the stacking order was.
pub proof fn stack_target_stays_in_the_foreground_band(
    overlay: u64,
    foreground: Option<u64>,
    predecessor: Option<u64>,
    overlay_is_topmost: bool,
    foreground_is_topmost: bool,
    predecessor_is_topmost: bool,
)
    ensures
        ({
            let target = spec_stack_target(
                overlay,
                foreground,
                predecessor,
                overlay_is_topmost,
                foreground_is_topmost,
                predecessor_is_topmost,
            );
            &&& target is Topmost ==> foreground_is_topmost
            &&& target is Keep ==> overlay_is_topmost == foreground_is_topmost
            &&& target is After ==> predecessor_is_topmost == foreground_is_topmost
        }),
{
}

/// A window on screen, front to back, as the window server lists it.
#[derive(Clone, Copy, Debug, PartialEq, Eq)]
pub struct MacWindowCandidate {
    /// Window number.
    pub number: i64,
    /// Process that owns the window.
    pub owner_pid: i32,
    /// Window layer; ordinary windows are on layer zero.
    pub layer: i32,
    /// Whether the window's bounds contain the pointer.
    pub under_cursor: bool,
}

/// An ordinary window of the frontmost application other than the overlay.
pub open spec fn is_stack_candidate(
    frontmost_pid: i32,
    overlay_window_number: i64,
    c: MacWindowCandidate,
) -> bool {
    c.owner_pid == frontmost_pid && c.number != overlay_window_number && c.layer == 0
}

/// The window to stack above: the first ordinary window of the frontmost
/// application that is under the pointer, else its first ordinary window.
pub fn select_frontmost_macos_window(
    frontmost_pid: i32,
    overlay_window_number: i64,
    candidates: &Vec<MacWindowCandidate>,
) -> (r: Option<i64>)
    ensures
        match r {
            Some(n) => exists|i: int|
                {
                    &&& 0 <= i < candidates@.len()
                    &&& #[trigger] candidates@[i].number == n
                    &&& is_stack_candidate(frontmost_pid, overlay_window_number, candidates@[i])
                    &&& forall|j: int|
                        0 <= j < i && is_stack_candidate(
                            frontmost_pid,
                            overlay_window_number,
                            #[trigger] candidates@[j],
                        ) ==> candidates@[i].under_cursor && !candidates@[j].under_cursor
                    &&& candidates@[i].under_cursor || forall|j: int|
                        0 <= j < candidates@.len() && is_stack_candidate(
                            frontmost_pid,
                            overlay_window_number,
                            #[trigger] candidates@[j],
                        ) ==> !candidates@[j].under_cursor
                },
            None => forall|j: int|
                0 <= j < candidates@.len() ==> !is_stack_candidate(
                    frontmost_pid,
                    overlay_window_number,
                    #[trigger] candidates@[j],
                ),
        },
{
    let mut fallback: Option<i64> = None;
    let ghost mut first: int = 0;
    let mut i: usize = 0;
    while i < candidates.len()
        invariant
            i <= candidates@.len(),
            forall|j: int|
                0 <= j < i && is_stack_candidate(
                    frontmost_pid,
                    overlay_window_number,
                    #[trigger] candidates@[j],
                ) ==> !candidates@[j].under_cursor,
            match fallback {
                Some(n) => {
                    &&& 0 <= first < i
                    &&& candidates@[first].number == n
                    &&& is_stack_candidate(frontmost_pid, overlay_window_number, candidates@[first])
                    &&& forall|j: int|
                        0 <= j < first ==> !is_stack_candidate(
                            frontmost_pid,
                            overlay_window_number,
                            #[trigger] candidates@[j],
                        )
                },
                None => forall|j: int|
                    0 <= j < i ==> !is_stack_candidate(
                        frontmost_pid,
                        overlay_window_number,
                        #[trigger] candidates@[j],
                    ),
            },
        decreases candidates@.len() - i,
    {
        let c = candidates[i];
        if c.owner_pid == frontmost_pid && c.number != overlay_window_number && c.layer == 0 {
            if fallback.is_none() {
                fallback = Some(c.number);
                proof {
                    first = i as int;
                }
            }
            if c.under_cursor {
                proof {
                    assert(candidates@[i as int].number == c.number);
                }
                return Some(c.number);
            }
        }
        i = i + 1;
    }
    fallback
}

/// The window that the overlay is placed above on an X11 root.
pub open spec fn spec_active_sibling(overlay: u32, active: Option<u32>) -> Option<u32> {
    match active {
        Some(a) => if a != 0 && a != overlay {
            Some(a)
        } else {
            None
        },
        None => None,
    }
}

/// The active window when it is a usable stacking sibling of `overlay`: a real
/// window other than the overlay itself.
pub fn select_x11_active_sibling(overlay: u32, active_root_child: Option<u32>) -> (r: Option<u32>)
    ensures
        r == spec_active_sibling(overlay, active_root_child),
{
    match active_root_child {
        Some(active) => if active != 0 && active != overlay {
            Some(active)
        } else {
            None
        },
        None => None,
    }
}

/// How many ancestors of a window are asked for before giving up.
pub const ROOT_WALK_LIMIT: u32 = 32;

/// A walk from a window up to the child of the root that contains it. Each
/// step asks the server for the tree around `current`.
#[derive(Clone, Copy, Debug, PartialEq, Eq, Structural)]
pub struct RootChildWalk {
    /// Root the walk must stay under.
    pub root: u32,
    /// Window whose tree is asked for next.
    pub current: u32,
    /// Queries left.
    pub left: u32,
}

/// What a reply of the server does to a walk.
#[derive(Clone, Copy, Debug, PartialEq, Eq, Structural)]
pub enum RootWalkStep {
    /// Ask for the tree around the walk's new window.
    Query(RootChildWalk),
    /// The walk is over.
    Done(Option<u32>),
}

impl RootChildWalk {
    /// Begin a walk at `window`; there is nothing to walk from the root itself
    /// or from no window.
    pub fn start(root: u32, window: u32) -> (r: Option<RootChildWalk>)
        ensures
            r is None <==> window == 0 || window == root,
            r matches Some(walk) ==> walk == (RootChildWalk {
                root,
                current: window,
                left: ROOT_WALK_LIMIT,
            }),
    {
        if window == 0 || window == root {
            None
        } else {
            Some(RootChildWalk { root, current: window, left: ROOT_WALK_LIMIT })
        }
    }

    /// What the reply to the query for `current` leads to. A failed query, or
    /// a window on another root, ends the walk with nothing.
    pub open spec fn spec_advance(self, reply: Option<(u32, u32)>) -> RootWalkStep {
        match reply {
            None => RootWalkStep::Done(None),
            Some((tree_root, parent)) => if tree_root != self.root {
                RootWalkStep::Done(None)
            } else if parent == self.root {
                RootWalkStep::Done(Some(self.current))
            } else if parent == 0 || parent == self.current || self.left <= 1 {
                RootWalkStep::Done(None)
            } else {
                RootWalkStep::Query(
                    RootChildWalk { root: self.root, current: parent, left: (self.left - 1) as u32 },
                )
            },
        }
    }

    /// Take the server's reply, the root and the parent of `current`, or
    /// `None` when the query failed.
    pub fn advance(self, reply: Option<(u32, u32)>) -> (r: RootWalkStep)
        ensures
            r == self.spec_advance(reply),
    {
        match reply {
            None => RootWalkStep::Done(None),
            Some((tree_root, parent)) => if tree_root != self.root {
                RootWalkStep::Done(None)
            } else if parent == self.root {
                RootWalkStep::Done(Some(self.current))
            } else if parent == 0 || parent == self.current || self.left <= 1 {
                RootWalkStep::Done(None)
            } else {
                RootWalkStep::Query(
                    RootChildWalk { root: self.root, current: parent, left: self.left - 1 },
                )
            },
        }
    }
}

/// Every step of a walk either ends it or uses up one of its queries, so a
/// walk asks at most [`ROOT_WALK_LIMIT`] times whatever the server replies.
pub proof fn root_walk_always_ends(walk: RootChildWalk, reply: Option<(u32, u32)>)
    ensures
        walk.spec_advance(reply) matches RootWalkStep::Query(next) ==> next.left < walk.left
            && next.left > 0 && next.root == walk.root,
{
}

/// `v` moved into `low..=high`.
pub open spec fn clamped(v: int, low: int, high: int) -> int {
    if v < low {
        low
    } else if v > high {
        high
    } else {
        v
    }
}

/// The origin along one axis of a window `extent` long that is centred on
/// `cursor` and then moved inside `low..high`. A window that does not fit is
/// put at `low`.
pub open spec fn spec_centered_origin(cursor: int, extent: int, low: int, high: int) -> int {
    let extent = if extent < 1 {
        1
    } else {
        extent
    };
    let last = if high - extent < low {
        low
    } else {
        high - extent
    };
    clamped(cursor - extent / 2, low, last)
}

/// The origin along one axis of a window that is centred on the pointer and
/// kept on the screen.
pub fn centered_origin(cursor: i32, extent: i32, low: i32, high: i32) -> (r: i32)
    requires
        i32::MIN <= cursor - extent / 2,
        i32::MIN <= high - extent,
        high - 1 >= i32::MIN,
    ensures
        r == spec_centered_origin(cursor as int, extent as int, low as int, high as int),
{
    let size: i32 = if extent < 1 {
        1
    } else {
        extent
    };
    let mut last: i32 = high - size;
    if last < low {
        last = low;
    }
    let desired: i32 = cursor - size / 2;
    if desired < low {
        low
    } else if desired > last {
        last
    } else {
        desired
    }
}

/// A ring that fits on the screen is shown wholly on it.
pub proof fn centered_window_stays_on_screen(cursor: int, extent: int, low: int, high: int)
    requires
        1 <= extent <= high - low,
    ensures
        low <= spec_centered_origin(cursor, extent, low, high),
        spec_centered_origin(cursor, extent, low, high) + extent <= high,
{
}

/// Away from the edges the ring is centred on the pointer.
pub proof fn centered_window_keeps_the_pointer_in_its_middle(
    cursor: int,
    extent: int,
    low: int,
    high: int,
)
    requires
        1 <= extent,
        low <= cursor - extent / 2,
        cursor - extent / 2 + extent <= high,
    ensures
        spec_centered_origin(cursor, extent, low, high) == cursor - extent / 2,
{
}

/// No native application policy is required away from macOS.
pub fn configure_application() {
}

/// Other window systems need no additional native window configuration.
pub fn configure_windows() {
}

/// The overlay goes right above the window in front: behind what is directly above that
/// window, where both are in one band; it stays where it is already there; and without
/// a window in front it goes to the top.
pub proof fn the_overlay_goes_above_the_window_in_front(
    overlay: u64,
    foreground: u64,
    predecessor: u64,
    overlay_is_topmost: bool,
    foreground_is_topmost: bool,
    predecessor_is_topmost: bool,
)
    requires
        foreground != overlay,
    ensures
        spec_stack_target(
            overlay,
            None,
            Some(predecessor),
            overlay_is_topmost,
            foreground_is_topmost,
            predecessor_is_topmost,
        ) is Top,
        spec_stack_target(
            overlay,
            Some(overlay),
            Some(predecessor),
            overlay_is_topmost,
            foreground_is_topmost,
            predecessor_is_topmost,
        ) is Top,
        ({
            let target = spec_stack_target(
                overlay,
                Some(foreground),
                Some(predecessor),
                overlay_is_topmost,
                foreground_is_topmost,
                predecessor_is_topmost,
            );
            &&& target is Keep <==> predecessor == overlay && overlay_is_topmost
                == foreground_is_topmost
            &&& !(target is Keep) && predecessor_is_topmost == foreground_is_topmost && predecessor
                != foreground ==> target == RelativeStackTarget::After(predecessor)
            &&& predecessor != overlay && predecessor_is_topmost != foreground_is_topmost ==> (
            target is Topmost <==> foreground_is_topmost)
        }),
{
}

/// An ordinary window of the application in front is one to go above; the overlay
/// itself, a window of another application, and one of another layer are not.
pub proof fn only_an_ordinary_window_in_front_counts(
    pid: i32,
    overlay: i64,
    c: MacWindowCandidate,
)
    ensures
        c.number == overlay ==> !is_stack_candidate(pid, overlay, c),
        c.owner_pid != pid ==> !is_stack_candidate(pid, overlay, c),
        c.layer != 0 ==> !is_stack_candidate(pid, overlay, c),
        c.number != overlay && c.owner_pid == pid && c.layer == 0 ==> is_stack_candidate(
            pid,
            overlay,
            c,
        ),
{
}

/// The overlay goes above the active window, unless there is none or it is that itself.
pub proof fn the_active_window_is_gone_above(overlay: u32, active: u32)
    ensures
        spec_active_sibling(overlay, None) is None,
        spec_active_sibling(overlay, Some(overlay)) is None,
        spec_active_sibling(overlay, Some(0)) is None,
        active != 0 && active != overlay ==> spec_active_sibling(overlay, Some(active)) == Some(
            active,
        ),
{
}

/// The walk to the root ends at the window whose parent the root is, goes on to the
/// parent otherwise, and finds nothing where it leaves the root or the query fails.
pub proof fn a_walk_ends_below_the_root(walk: RootChildWalk, parent: u32, other_root: u32)
    ensures
        walk.spec_advance(Some((walk.root, walk.root))) == RootWalkStep::Done(Some(walk.current)),
        walk.spec_advance(None) == RootWalkStep::Done(None),
        other_root != walk.root ==> walk.spec_advance(Some((other_root, parent)))
            == RootWalkStep::Done(None),
        parent != walk.root && parent != 0 && parent != walk.current && walk.left > 1
            ==> walk.spec_advance(Some((walk.root, parent))) == RootWalkStep::Query(
            RootChildWalk { root: walk.root, current: parent, left: (walk.left - 1) as u32 },
        ),
        parent != walk.root && walk.left <= 1 ==> walk.spec_advance(Some((walk.root, parent)))
            == RootWalkStep::Done(None),
{
}

/// A window that does not fit begins where the screen does, and one that fits is moved
/// no further than it has to be.
pub proof fn a_window_is_moved_as_little_as_needed(cursor: int, extent: int, low: int, high: int)
    requires
        1 <= extent,
    ensures
        high - extent <= low ==> spec_centered_origin(cursor, extent, low, high) == low,
        high - extent > low && cursor - extent / 2 < low ==> spec_centered_origin(
            cursor,
            extent,
            low,
            high,
        ) == low,
        high - extent > low && cursor - extent / 2 > high - extent ==> spec_centered_origin(
            cursor,
            extent,
            low,
            high,
        ) == high - extent,
{
}

} // verus!
