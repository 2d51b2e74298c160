//! The enclosed see-through cells of a render.
//!
//! A render is binned to a grid of cells, and a cell is see-through when any
//! pixel in its bin is. See-through cells that are connected to the border of
//! the grid are outside of the silhouette; the others are holes.

use vstd::prelude::*;
use vstd::arithmetic::div_mod::{
    lemma_div_pos_is_pos, lemma_fundamental_div_mod, lemma_fundamental_div_mod_converse,
    lemma_mod_bound,
};

use crate::glow::{
    covered, covers, mask_is_valid, mask_segments, GlowGeometry, GlowMask, GlowSeg,
    COMPUTED_MASK_MAX_W, HOLE_ALPHA, MAX_MASK_DIM,
};
use crate::ipc::{parts_at_slashes, parts_of, path_extension};

verus! {

/// Cells are numbered row by row. Two cells touch when they share an edge.
pub open spec fn touch(w: int, a: int, b: int) -> bool {
    ||| b == a + 1 && a % w != w - 1
    ||| b == a - 1 && a % w != 0
    ||| b == a + w
    ||| b == a - w
}

/// Whether a cell is in the first or last row or column.
pub open spec fn on_border(w: int, h: int, i: int) -> bool {
    i % w == 0 || i % w == w - 1 || i < w || i >= w * (h - 1)
}

/// A walk over see-through cells that begins on the border and ends at `i`.
pub open spec fn reaches(clear: Seq<bool>, w: int, h: int, path: Seq<int>, i: int) -> bool {
    &&& path.len() > 0
    &&& path.last() == i
    &&& on_border(w, h, path[0])
    &&& forall|k: int| 0 <= k < path.len() ==> 0 <= #[trigger] path[k] < clear.len()
    &&& forall|k: int| 0 <= k < path.len() ==> clear[#[trigger] path[k]]
    &&& forall|k: int| 0 <= k < path.len() - 1 ==> touch(w, #[trigger] path[k], path[k + 1])
}

/// Whether a cell is connected to the border through see-through cells.
pub open spec fn outside(clear: Seq<bool>, w: int, h: int, i: int) -> bool {
    exists|path: Seq<int>| reaches(clear, w, h, path, i)
}

/// Whether a cell is see-through and enclosed.
pub open spec fn is_hole(clear: Seq<bool>, w: int, h: int, i: int) -> bool {
    0 <= i < clear.len() && clear[i] && !outside(clear, w, h, i)
}

/// What is known of a cell while the outside is being flooded.
#[derive(Clone, Copy, Debug, PartialEq, Eq, Structural)]
enum Mark {
    Solid,
    Clear,
    Outside,
}

spec fn clear_marks(marks: Seq<Mark>) -> nat
    decreases marks.len(),
{
    if marks.len() == 0 {
        0
    } else {
        clear_marks(marks.drop_last()) + (if marks.last() is Clear {
            1nat
        } else {
            0nat
        })
    }
}

proof fn lemma_mark_outside(marks: Seq<Mark>, i: int)
    requires
        0 <= i < marks.len(),
        marks[i] is Clear,
    ensures
        clear_marks(marks.update(i, Mark::Outside)) + 1 == clear_marks(marks),
    decreases marks.len(),
{
    let next = marks.update(i, Mark::Outside);
    if i == marks.len() - 1 {
        assert(next.drop_last() =~= marks.drop_last());
    } else {
        assert(next.drop_last() =~= marks.drop_last().update(i, Mark::Outside));
        lemma_mark_outside(marks.drop_last(), i);
    }
}

/// Marks agree with the grid, and everything marked outside is outside.
spec fn sound(clear: Seq<bool>, w: int, h: int, marks: Seq<Mark>) -> bool {
    &&& marks.len() == clear.len()
    &&& forall|i: int| 0 <= i < clear.len() ==> (clear[i] <==> !((#[trigger] marks[i]) is Solid))
    &&& forall|i: int|
        0 <= i < clear.len() && (#[trigger] marks[i]) is Outside ==> outside(clear, w, h, i)
}

/// No unmarked see-through cell touches cell `i`.
spec fn settled(w: int, marks: Seq<Mark>, i: int) -> bool {
    forall|j: int|
        0 <= j < marks.len() && touch(w, i, j) ==> !((#[trigger] marks[j]) is Clear)
}

/// Whether `i` still waits in the queue.
spec fn waits(queue: Seq<usize>, head: int, i: int) -> bool {
    exists|k: int| head <= k < queue.len() && (#[trigger] queue[k]) as int == i
}

/// Everything in the queue is marked outside.
#[verifier::opaque]
spec fn queue_marked(queue: Seq<usize>, marks: Seq<Mark>) -> bool {
    forall|k: int|
        0 <= k < queue.len() ==> (#[trigger] queue[k]) < marks.len() && marks[queue[k] as int]
            is Outside
}

/// Every cell marked outside, but for `but`, waits or is settled.
#[verifier::opaque]
spec fn worked_off(
    w: int,
    marks: Seq<Mark>,
    queue: Seq<usize>,
    head: int,
    but: Option<int>,
) -> bool {
    forall|i: int|
        0 <= i < marks.len() && (#[trigger] marks[i]) is Outside && but != Some(i) ==> waits(
            queue,
            head,
            i,
        ) || settled(w, marks, i)
}

/// Mark `j` outside if it is see-through and unmarked.
fn visit(
    marks: &mut Vec<Mark>,
    queue: &mut Vec<usize>,
    j: usize,
    Ghost(clear): Ghost<Seq<bool>>,
    Ghost(w): Ghost<int>,
    Ghost(h): Ghost<int>,
    Ghost(head): Ghost<int>,
    Ghost(but): Ghost<Option<int>>,
)
    requires
        j < old(marks)@.len(),
        sound(clear, w, h, old(marks)@),
        queue_marked(old(queue)@, old(marks)@),
        worked_off(w, old(marks)@, old(queue)@, head, but),
        0 <= head <= old(queue)@.len(),
        old(marks)@[j as int] is Clear ==> outside(clear, w, h, j as int),
    ensures
        sound(clear, w, h, final(marks)@),
        queue_marked(final(queue)@, final(marks)@),
        worked_off(w, final(marks)@, final(queue)@, head, but),
        head <= final(queue)@.len(),
        !(final(marks)@[j as int] is Clear),
        forall|i: int|
            0 <= i < old(marks)@.len() ==> (final(marks)@[i] is Clear ==> (#[trigger] old(marks)@[i]) is Clear),
        forall|i: int|
            0 <= i < old(marks)@.len() ==> ((#[trigger] old(marks)@[i]) is Outside ==> final(marks)@[i] is Outside),
        clear_marks(final(marks)@) * 2 + final(queue)@.len() <= clear_marks(old(marks)@) * 2 + old(queue)@.len(),
        forall|k: int| 0 <= k < old(queue)@.len() ==> final(queue)@[k] == #[trigger] old(queue)@[k],
        final(queue)@.len() >= old(queue)@.len(),
{
    if let Mark::Clear = marks[j] {
        let ghost before = marks@;
        let ghost line = queue@;
        marks.set(j, Mark::Outside);
        queue.push(j);
        proof {
            reveal(queue_marked);
            reveal(worked_off);
            lemma_mark_outside(before, j as int);
            assert forall|i: int|
                0 <= i < marks@.len() && (#[trigger] marks@[i]) is Outside && but != Some(
                    i,
                ) implies waits(queue@, head, i) || settled(w, marks@, i) by {
                if i == j {
                    assert(queue@[line.len() as int] as int == i);
                } else {
                    assert(before[i] is Outside);
                    if waits(line, head, i) {
                        let k = choose|k: int|
                            head <= k < line.len() && (#[trigger] line[k]) as int == i;
                        assert(queue@[k] as int == i);
                    } else {
                        assert(settled(w, before, i));
                        assert forall|n: int| 0 <= n < marks@.len() && touch(w, i, n) implies !((
                        #[trigger] marks@[n]) is Clear) by {
                            assert(!(before[n] is Clear));
                        }
                    }
                }
            }
        }
    }
}

proof fn lemma_step_outside(clear: Seq<bool>, w: int, h: int, i: int, j: int)
    requires
        outside(clear, w, h, i),
        touch(w, i, j),
        0 <= j < clear.len(),
        clear[j],
    ensures
        outside(clear, w, h, j),
{
    let path = choose|path: Seq<int>| reaches(clear, w, h, path, i);
    let next = path.push(j);
    assert forall|k: int| 0 <= k < next.len() - 1 implies touch(
        w,
        #[trigger] next[k],
        next[k + 1],
    ) by {
        if k < path.len() - 1 {
            assert(touch(w, path[k], path[k + 1]));
        } else {
            assert(next[k] == i && next[k + 1] == j);
        }
    }
    assert(reaches(clear, w, h, next, j));
}

proof fn lemma_border_outside(clear: Seq<bool>, w: int, h: int, i: int)
    requires
        0 <= i < clear.len(),
        clear[i],
        on_border(w, h, i),
    ensures
        outside(clear, w, h, i),
{
    assert(reaches(clear, w, h, seq![i], i));
}

proof fn lemma_settled(w: int, marks: Seq<Mark>, queue: Seq<usize>, head: int, p: int)
    requires
        worked_off(w, marks, queue, head, Some(p)),
        settled(w, marks, p),
    ensures
        worked_off(w, marks, queue, head, None),
{
    reveal(worked_off);
}

/// Taking the first cell off the queue leaves that cell to be settled.
proof fn lemma_pop(w: int, marks: Seq<Mark>, queue: Seq<usize>, head: int)
    requires
        0 <= head < queue.len(),
        queue_marked(queue, marks),
        worked_off(w, marks, queue, head, None),
    ensures
        queue[head] < marks.len(),
        marks[queue[head] as int] is Outside,
        worked_off(w, marks, queue, head + 1, Some(queue[head] as int)),
{
    reveal(queue_marked);
    reveal(worked_off);
    let p = queue[head] as int;
    assert forall|i: int|
        0 <= i < marks.len() && (#[trigger] marks[i]) is Outside && Some(p) != Some(
            i,
        ) implies waits(queue, head + 1, i) || settled(w, marks, i) by {
        if waits(queue, head, i) {
            let k = choose|k: int| head <= k < queue.len() && (#[trigger] queue[k]) as int == i;
            assert(k != head);
            assert(waits(queue, head + 1, i));
        }
    }
}

/// Marking only ever turns unmarked cells into outside cells.
#[verifier::opaque]
spec fn grown(before: Seq<Mark>, after: Seq<Mark>) -> bool {
    &&& before.len() == after.len()
    &&& forall|i: int|
        0 <= i < before.len() ==> ((#[trigger] after[i]) is Clear ==> before[i] is Clear)
    &&& forall|i: int|
        0 <= i < before.len() ==> ((#[trigger] before[i]) is Outside ==> after[i] is Outside)
}

/// Visit `j`, which touches the outside cell `p`, if it is a cell at all.
fn visit_next_to(
    marks: &mut Vec<Mark>,
    queue: &mut Vec<usize>,
    p: usize,
    j: Option<usize>,
    Ghost(clear): Ghost<Seq<bool>>,
    Ghost(w): Ghost<int>,
    Ghost(h): Ghost<int>,
    Ghost(head): Ghost<int>,
)
    requires
        p < old(marks)@.len(),
        old(marks)@[p as int] is Outside,
        j matches Some(j) ==> j < old(marks)@.len() && touch(w, p as int, j as int),
        sound(clear, w, h, old(marks)@),
        queue_marked(old(queue)@, old(marks)@),
        worked_off(w, old(marks)@, old(queue)@, head, Some(p as int)),
        0 <= head <= old(queue)@.len(),
    ensures
        sound(clear, w, h, final(marks)@),
        queue_marked(final(queue)@, final(marks)@),
        worked_off(w, final(marks)@, final(queue)@, head, Some(p as int)),
        head <= final(queue)@.len(),
        grown(old(marks)@, final(marks)@),
        final(marks)@.len() == old(marks)@.len(),
        final(marks)@[p as int] is Outside,
        j matches Some(j) ==> !(final(marks)@[j as int] is Clear),
        clear_marks(final(marks)@) * 2 + final(queue)@.len() <= clear_marks(old(marks)@) * 2 + old(queue)@.len(),
{
    proof {
        reveal(grown);
    }
    if let Some(j) = j {
        proof {
            if marks@[j as int] is Clear {
                lemma_step_outside(clear, w, h, p as int, j as int);
            }
        }
        visit(
            marks,
            queue,
            j,
            Ghost(clear),
            Ghost(w),
            Ghost(h),
            Ghost(head),
            Ghost(Some(p as int)),
        );
    }
}

proof fn lemma_all_visited(
    w: int,
    p: int,
    around: Seq<Option<usize>>,
    m0: Seq<Mark>,
    m1: Seq<Mark>,
    m2: Seq<Mark>,
    m3: Seq<Mark>,
    m4: Seq<Mark>,
)
    requires
        grown(m0, m1),
        grown(m1, m2),
        grown(m2, m3),
        grown(m3, m4),
        around.len() == 4,
        m0.len() <= usize::MAX,
        around[0] matches Some(j) ==> j < m0.len() && !(m1[j as int] is Clear),
        around[1] matches Some(j) ==> j < m0.len() && !(m2[j as int] is Clear),
        around[2] matches Some(j) ==> j < m0.len() && !(m3[j as int] is Clear),
        around[3] matches Some(j) ==> j < m0.len() && !(m4[j as int] is Clear),
        forall|j: int|
            0 <= j < m0.len() && #[trigger] touch(w, p, j) ==> exists|k: int|
                0 <= k < 4 && (#[trigger] around[k]) == Some(j as usize),
    ensures
        grown(m0, m4),
        settled(w, m4, p),
{
    reveal(grown);
    assert forall|i: int| 0 <= i < m0.len() && (#[trigger] m4[i]) is Clear implies m3[i] is Clear
        && m2[i] is Clear && m1[i] is Clear && m0[i] is Clear by {}
    assert forall|i: int|
        0 <= i < m0.len() && (#[trigger] m0[i]) is Outside implies m4[i] is Outside by {
        assert(m1[i] is Outside);
        assert(m2[i] is Outside);
        assert(m3[i] is Outside);
    }
    assert forall|j: int| 0 <= j < m4.len() && touch(w, p, j) implies !((
    #[trigger] m4[j]) is Clear) by {
        if m4[j] is Clear {
            let k = choose|k: int| 0 <= k < 4 && (#[trigger] around[k]) == Some(j as usize);
            assert(m3[j] is Clear);
        }
    }
}

/// The cells that touch cell `p` of a grid of `n` cells.
fn cells_around(p: usize, w: usize, n: usize) -> (r: (
    Option<usize>,
    Option<usize>,
    Option<usize>,
    Option<usize>,
))
    requires
        0 < w,
        p < n,
    ensures
        r.0 matches Some(j) ==> j < n && touch(w as int, p as int, j as int),
        r.1 matches Some(j) ==> j < n && touch(w as int, p as int, j as int),
        r.2 matches Some(j) ==> j < n && touch(w as int, p as int, j as int),
        r.3 matches Some(j) ==> j < n && touch(w as int, p as int, j as int),
        forall|j: int|
            0 <= j < n && #[trigger] touch(w as int, p as int, j) ==> r.0 == Some(j as usize)
                || r.1 == Some(j as usize) || r.2 == Some(j as usize) || r.3 == Some(j as usize),
{
    let col: usize = p % w;
    proof {
        if p == 0 {
            vstd::arithmetic::div_mod::lemma_small_mod(0, w as nat);
        }
    }
    let left: Option<usize> = if col > 0 {
        Some((p - 1) as usize)
    } else {
        None
    };
    let right: Option<usize> = if col != w - 1 && p + 1 < n {
        Some((p + 1) as usize)
    } else {
        None
    };
    let up: Option<usize> = if p >= w {
        Some((p - w) as usize)
    } else {
        None
    };
    let down: Option<usize> = if w < n - p {
        Some((p + w) as usize)
    } else {
        None
    };
    (left, right, up, down)
}

/// Visit the cells that touch `p`, which leaves `p` settled.
fn spread(
    marks: &mut Vec<Mark>,
    queue: &mut Vec<usize>,
    p: usize,
    w: usize,
    Ghost(clear): Ghost<Seq<bool>>,
    Ghost(h): Ghost<int>,
    Ghost(head): Ghost<int>,
)
    requires
        0 < w,
        p < old(marks)@.len(),
        old(marks)@[p as int] is Outside,
        sound(clear, w as int, h, old(marks)@),
        queue_marked(old(queue)@, old(marks)@),
        worked_off(w as int, old(marks)@, old(queue)@, head, Some(p as int)),
        0 <= head <= old(queue)@.len(),
    ensures
        sound(clear, w as int, h, final(marks)@),
        queue_marked(final(queue)@, final(marks)@),
        worked_off(w as int, final(marks)@, final(queue)@, head, None),
        head <= final(queue)@.len(),
        grown(old(marks)@, final(marks)@),
        clear_marks(final(marks)@) * 2 + final(queue)@.len() <= clear_marks(old(marks)@) * 2 + old(queue)@.len(),
{
    let ghost wi = w as int;
    let (left, right, up, down) = cells_around(p, w, marks.len());
    let ghost around = seq![left, right, up, down];
    let ghost m0 = marks@;
    visit_next_to(marks, queue, p, left, Ghost(clear), Ghost(wi), Ghost(h), Ghost(head));
    let ghost m1 = marks@;
    visit_next_to(marks, queue, p, right, Ghost(clear), Ghost(wi), Ghost(h), Ghost(head));
    let ghost m2 = marks@;
    visit_next_to(marks, queue, p, up, Ghost(clear), Ghost(wi), Ghost(h), Ghost(head));
    let ghost m3 = marks@;
    visit_next_to(marks, queue, p, down, Ghost(clear), Ghost(wi), Ghost(h), Ghost(head));
    proof {
        assert forall|j: int| 0 <= j < m0.len() && #[trigger] touch(wi, p as int, j) implies exists|
            k: int,
        |
            0 <= k < 4 && (#[trigger] around[k]) == Some(j as usize) by {
            if left == Some(j as usize) {
                assert(around[0] == Some(j as usize));
            } else if right == Some(j as usize) {
                assert(around[1] == Some(j as usize));
            } else if up == Some(j as usize) {
                assert(around[2] == Some(j as usize));
            } else {
                assert(around[3] == Some(j as usize));
            }
        }
        lemma_all_visited(wi, p as int, around, m0, m1, m2, m3, marks@);
        lemma_settled(wi, marks@, queue@, head, p as int);
    }
}

/// When nothing waits any more, exactly the outside is marked.
proof fn lemma_flooded(
    clear: Seq<bool>,
    w: int,
    h: int,
    marks: Seq<Mark>,
    path: Seq<int>,
    i: int,
)
    requires
        sound(clear, w, h, marks),
        forall|b: int|
            0 <= b < marks.len() && on_border(w, h, b) ==> !((#[trigger] marks[b]) is Clear),
        forall|k: int|
            0 <= k < marks.len() && (#[trigger] marks[k]) is Outside ==> settled(w, marks, k),
        reaches(clear, w, h, path, i),
    ensures
        marks[i] is Outside,
    decreases path.len(),
{
    assert(clear[path[path.len() - 1]]);
    if path.len() == 1 {
        assert(path[0] == i);
        assert(!(marks[i] is Clear));
    } else {
        let before = path.drop_last();
        let p = path[path.len() - 2];
        assert forall|k: int| 0 <= k < before.len() implies 0 <= #[trigger] before[k]
            < clear.len() by {
            assert(before[k] == path[k]);
        }
        assert forall|k: int| 0 <= k < before.len() implies clear[#[trigger] before[k]] by {
            assert(before[k] == path[k]);
        }
        assert forall|k: int| 0 <= k < before.len() - 1 implies touch(
            w,
            #[trigger] before[k],
            before[k + 1],
        ) by {
            assert(touch(w, path[k], path[k + 1]));
        }
        assert(reaches(clear, w, h, before, p));
        lemma_flooded(clear, w, h, marks, before, p);
        assert(touch(w, path[path.len() - 2], path[path.len() - 2 + 1]));
        assert(settled(w, marks, p));
        assert(!(marks[i] is Clear));
    }
}

/// Which cells of a grid are holes.
pub fn enclosed(clear: &Vec<bool>, w: usize, h: usize) -> (r: Vec<bool>)
    requires
        0 < w,
        0 < h,
        clear@.len() == w * h,
    ensures
        r@.len() == clear@.len(),
        forall|i: int|
            0 <= i < clear@.len() ==> (#[trigger] r@[i] <==> is_hole(clear@, w as int, h as int, i)),
{
    let n: usize = clear.len();
    let mut marks: Vec<Mark> = Vec::new();
    let mut i: usize = 0;
    while i < n
        invariant
            n == clear@.len(),
            i <= n,
            marks@.len() == i,
            forall|k: int|
                0 <= k < i ==> (#[trigger] marks@[k]) == (if clear@[k] {
                    Mark::Clear
                } else {
                    Mark::Solid
                }),
        decreases n - i,
    {
        if clear[i] {
            marks.push(Mark::Clear);
        } else {
            marks.push(Mark::Solid);
        }
        i = i + 1;
    }
    let mut queue: Vec<usize> = Vec::new();
    let mut b: usize = 0;
    let ghost wi = w as int;
    let ghost hi = h as int;
    proof {
        assert(w * (h - 1) == w * h - w) by (nonlinear_arith);
        assert(w * h >= w) by (nonlinear_arith)
            requires
                h >= 1,
                w >= 1,
        ;
    }
    let last_row: usize = n - w;
    proof {
        reveal(queue_marked);
        reveal(worked_off);
    }
    while b < n
        invariant
            n == clear@.len(),
            n == marks@.len(),
            0 < w,
            wi == w,
            hi == h,
            last_row == wi * (hi - 1),
            b <= n,
            sound(clear@, wi, hi, marks@),
            queue_marked(queue@, marks@),
            worked_off(wi, marks@, queue@, 0, None),
            forall|k: int|
                0 <= k < b && on_border(wi, hi, k) ==> !((#[trigger] marks@[k]) is Clear),
        decreases n - b,
    {
        let ghost before = marks@;
        let col: usize = b % w;
        if col == 0 || col == w - 1 || b < w || b >= last_row {
            proof {
                if marks@[b as int] is Clear {
                    lemma_border_outside(clear@, wi, hi, b as int);
                }
            }
            visit(
                &mut marks,
                &mut queue,
                b,
                Ghost(clear@),
                Ghost(wi),
                Ghost(hi),
                Ghost(0),
                Ghost(None),
            );
        }
        proof {
            assert forall|k: int| 0 <= k < b + 1 && on_border(wi, hi, k) implies !((
            #[trigger] marks@[k]) is Clear) by {
                if marks@[k] is Clear {
                    assert(before[k] is Clear);
                }
            }
        }
        b = b + 1;
    }
    let mut head: usize = 0;
    while head < queue.len()
        invariant
            n == clear@.len(),
            n == marks@.len(),
            0 < w,
            wi == w,
            hi == h,
            head <= queue@.len(),
            sound(clear@, wi, hi, marks@),
            queue_marked(queue@, marks@),
            worked_off(wi, marks@, queue@, head as int, None),
            forall|k: int|
                0 <= k < n && on_border(wi, hi, k) ==> !((#[trigger] marks@[k]) is Clear),
        decreases clear_marks(marks@) * 2 + (queue@.len() - head),
    {
        let p: usize = queue[head];
        proof {
            lemma_pop(wi, marks@, queue@, head as int);
        }
        head = head + 1;
        let ghost before = marks@;
        spread(&mut marks, &mut queue, p, w, Ghost(clear@), Ghost(hi), Ghost(head as int));
        proof {
            reveal(grown);
            assert forall|k: int| 0 <= k < n && on_border(wi, hi, k) implies !((
            #[trigger] marks@[k]) is Clear) by {
                if marks@[k] is Clear {
                    assert(before[k] is Clear);
                }
            }
        }
    }
    proof {
        assert forall|k: int| 0 <= k < marks@.len() && (#[trigger] marks@[k]) is Outside implies settled(
            wi,
            marks@,
            k,
        ) by {
            reveal(worked_off);
            assert(!waits(queue@, head as int, k));
        }
    }
    let mut r: Vec<bool> = Vec::new();
    let mut k: usize = 0;
    while k < n
        invariant
            n == clear@.len(),
            n == marks@.len(),
            wi == w,
            hi == h,
            k <= n,
            r@.len() == k,
            sound(clear@, wi, hi, marks@),
            forall|b: int|
                0 <= b < marks@.len() && on_border(wi, hi, b) ==> !((#[trigger] marks@[b])
                    is Clear),
            forall|i: int|
                0 <= i < marks@.len() && (#[trigger] marks@[i]) is Outside ==> settled(
                    wi,
                    marks@,
                    i,
                ),
            forall|i: int| 0 <= i < k ==> (#[trigger] r@[i] <==> is_hole(clear@, wi, hi, i)),
        decreases n - k,
    {
        let hole = match marks[k] {
            Mark::Clear => true,
            _ => false,
        };
        proof {
            if outside(clear@, wi, hi, k as int) {
                let path = choose|path: Seq<int>| reaches(clear@, wi, hi, path, k as int);
                lemma_flooded(clear@, wi, hi, marks@, path, k as int);
            }
        }
        r.push(hole);
        k = k + 1;
    }
    r
}

/// The first cell of a run.
pub open spec fn run_start(seg: GlowSeg, w: int) -> int {
    seg.row * w + seg.col
}

/// Whether `segments` are the maximal runs of marked cells before cell `end`,
/// in order.
pub open spec fn maximal_runs(
    segments: Seq<GlowSeg>,
    marked: Seq<bool>,
    w: int,
    end: int,
) -> bool {
    &&& forall|k: int|
        0 <= k < segments.len() ==> 0 < (#[trigger] segments[k]).len && segments[k].col
            + segments[k].len <= w && run_start(segments[k], w) + segments[k].len <= end
    &&& forall|k: int, i: int|
        0 <= k < segments.len() && #[trigger] covers(segments[k], w, i) ==> marked[i]
    &&& forall|k: int|
        0 <= k < segments.len() && (#[trigger] segments[k]).col > 0 ==> !marked[run_start(
            segments[k],
            w,
        ) - 1]
    &&& forall|k: int|
        0 <= k < segments.len() && (#[trigger] segments[k]).col + segments[k].len < w
            ==> !marked[run_start(segments[k], w) + segments[k].len]
    &&& forall|a: int, b: int|
        0 <= a < b < segments.len() ==> run_start(#[trigger] segments[a], w) + segments[a].len
            <= run_start(#[trigger] segments[b], w)
    &&& forall|i: int| 0 <= i < end && #[trigger] marked[i] ==> covered(segments, w, i)
}

proof fn lemma_push_run(
    segments: Seq<GlowSeg>,
    seg: GlowSeg,
    marked: Seq<bool>,
    w: int,
    start: int,
    stop: int,
)
    requires
        maximal_runs(segments, marked, w, start),
        run_start(seg, w) == start,
        start < stop <= marked.len(),
        seg.len == stop - start,
        seg.col + seg.len <= w,
        forall|i: int| start <= i < stop ==> #[trigger] marked[i],
        seg.col > 0 ==> !marked[start - 1],
        seg.col + seg.len < w ==> !marked[stop],
    ensures
        maximal_runs(segments.push(seg), marked, w, stop),
{
    let next = segments.push(seg);
    assert forall|k: int, i: int|
        0 <= k < next.len() && #[trigger] covers(next[k], w, i) implies marked[i] by {
        if k < segments.len() {
            assert(covers(segments[k], w, i));
        } else {
            assert(start <= i < stop);
        }
    }
    assert forall|i: int| 0 <= i < stop && #[trigger] marked[i] implies covered(next, w, i) by {
        if i < start {
            let k = choose|k: int| 0 <= k < segments.len() && covers(#[trigger] segments[k], w, i);
            assert(covers(next[k], w, i));
        } else {
            assert(covers(next[segments.len() as int], w, i));
        }
    }
}

/// Facts on cell `i` of a grid of `w * h` cells.
proof fn lemma_cell(w: int, h: int, i: int)
    requires
        0 < w,
        0 < h,
        0 <= i < w * h,
    ensures
        0 <= i / w < h,
        0 <= i % w < w,
        (i / w) * w + i % w == i,
        i - i % w + w <= w * h,
{
    lemma_fundamental_div_mod(i, w);
    lemma_mod_bound(i, w);
    lemma_div_pos_is_pos(i, w);
    assert((i / w) * w == w * (i / w)) by (nonlinear_arith);
    if i / w >= h {
        assert(w * (i / w) >= w * h) by (nonlinear_arith)
            requires
                i / w >= h,
                w > 0,
        ;
    }
    assert(w * (i / w) + w <= w * h) by (nonlinear_arith)
        requires
            i / w <= h - 1,
            w > 0,
    ;
}

/// The maximal runs of marked cells, row by row.
fn collect_runs(marked: &Vec<bool>, w: u32, h: u32) -> (segments: Vec<GlowSeg>)
    requires
        0 < w <= MAX_MASK_DIM,
        0 < h <= MAX_MASK_DIM,
        marked@.len() == w * h,
    ensures
        maximal_runs(segments@, marked@, w as int, marked@.len() as int),
{
    let n: usize = marked.len();
    let mut segments: Vec<GlowSeg> = Vec::new();
    let mut i: usize = 0;
    let ghost wi = w as int;
    let ghost hi = h as int;
    proof {
        lemma_small(w as int);
    }
    while i < n
        invariant
            n == marked@.len(),
            n == wi * hi,
            i <= n,
            wi == w,
            hi == h,
            0 < w <= 8192,
            0 < h <= 8192,
            maximal_runs(segments@, marked@, wi, i as int),
            i as int % wi == 0 || !marked@[i - 1] || (i < n && !marked@[i as int]),
        decreases n - i,
    {
        proof {
            lemma_cell(wi, hi, i as int);
        }
        if marked[i] {
            let start: usize = i;
            let col: usize = start % w as usize;
            let row: usize = start / w as usize;
            let line: usize = start - col + w as usize;
            while i < line && marked[i]
                invariant
                    n == marked@.len(),
                    line <= n,
                    start <= i <= line,
                    forall|k: int| start <= k < i ==> #[trigger] marked@[k],
                decreases line - i,
            {
                i = i + 1;
            }
            let seg = GlowSeg { col: col as u32, row: row as u32, len: (i - start) as u32 };
            proof {
                assert(run_start(seg, wi) == start);
                if col > 0 {
                    assert(!marked@[start - 1]);
                }
                lemma_push_run(segments@, seg, marked@, wi, start as int, i as int);
                if i == line {
                    assert(line as int == wi * (start as int / wi) + wi) by {
                        lemma_fundamental_div_mod(start as int, wi);
                    }
                    assert(wi * (start as int / wi) + wi == (start as int / wi + 1) * wi)
                        by (nonlinear_arith);
                    lemma_fundamental_div_mod_converse(
                        line as int,
                        wi,
                        start as int / wi + 1,
                        0,
                    );
                }
            }
            segments.push(seg);
        } else {
            proof {
                lemma_skip(segments@, marked@, wi, i as int);
            }
            i = i + 1;
        }
    }
    segments
}

proof fn lemma_small(w: int)
    requires
        0 < w,
    ensures
        0int % w == 0,
{
    vstd::arithmetic::div_mod::lemma_small_mod(0, w as nat);
}

proof fn lemma_skip(segments: Seq<GlowSeg>, marked: Seq<bool>, w: int, i: int)
    requires
        maximal_runs(segments, marked, w, i),
        0 <= i < marked.len(),
        !marked[i],
    ensures
        maximal_runs(segments, marked, w, i + 1),
{
}

/// `a / b`, rounded up.
pub open spec fn ceil_div(a: int, b: int) -> int {
    (a + b - 1) / b
}

/// How many pixels a cell is wide and high.
pub open spec fn bin_size(src_w: int) -> int {
    ceil_div(src_w, COMPUTED_MASK_MAX_W as int)
}

/// The cell that pixel `p` falls into, with `scale` pixels to a cell and `w`
/// cells to a row.
pub open spec fn bin_of(p: int, src_w: int, scale: int, w: int) -> int {
    ((p / src_w) / scale) * w + (p % src_w) / scale
}

/// Whether any pixel of cell `c` is see-through.
pub open spec fn see_through(alpha: Seq<u8>, src_w: int, scale: int, w: int, c: int) -> bool {
    exists|p: int|
        0 <= p < alpha.len() && #[trigger] alpha[p] < HOLE_ALPHA && bin_of(p, src_w, scale, w) == c
}

/// The grid of see-through cells of a render.
pub open spec fn clear_grid(src_w: int, src_h: int, alpha: Seq<u8>) -> Seq<bool> {
    let scale = bin_size(src_w);
    let w = ceil_div(src_w, scale);
    let h = ceil_div(src_h, scale);
    Seq::new((w * h) as nat, |c: int| see_through(alpha, src_w, scale, w, c))
}

/// The alpha channel of `n` pixels with red, green, blue and alpha bytes.
pub open spec fn alpha_of(pixels: Seq<u8>, n: int) -> Seq<u8> {
    Seq::new(n as nat, |p: int| pixels[4 * p + 3])
}

/// Whether a render's size is acceptable.
pub open spec fn size_is_valid(src_w: u32, src_h: u32) -> bool {
    0 < src_w <= MAX_MASK_DIM && 0 < src_h <= MAX_MASK_DIM
}

/// Whether a render has an enclosed see-through cell.
pub open spec fn has_hole(src_w: int, src_h: int, alpha: Seq<u8>) -> bool {
    let clear = clear_grid(src_w, src_h, alpha);
    let w = ceil_div(src_w, bin_size(src_w));
    let h = ceil_div(src_h, bin_size(src_w));
    exists|i: int| #[trigger] is_hole(clear, w, h, i)
}

/// The holes of a grid as a mask.
pub open spec fn hole_mask(clear: Seq<bool>, w: int, h: int) -> Seq<bool> {
    Seq::new(clear.len(), |i: int| is_hole(clear, w, h, i))
}

proof fn lemma_ceil_div(a: int, b: int, x: int)
    requires
        0 < a,
        0 < b,
        0 <= x < a,
    ensures
        0 <= x / b < ceil_div(a, b),
        0 < ceil_div(a, b) <= a,
{
    lemma_div_pos_is_pos(x, b);
    let q = ceil_div(a, b);
    lemma_fundamental_div_mod(a + b - 1, b);
    lemma_mod_bound(a + b - 1, b);
    lemma_fundamental_div_mod(x, b);
    lemma_mod_bound(x, b);
    assert(b * q >= a);
    if x / b >= q {
        assert(b * (x / b) >= b * q) by (nonlinear_arith)
            requires
                x / b >= q,
                b > 0,
        ;
    }
    if q > a {
        assert(b * q >= b * (a + 1)) by (nonlinear_arith)
            requires
                q >= a + 1,
                b > 0,
        ;
        assert(b * (a + 1) == a * b + b) by (nonlinear_arith);
        assert(a * b >= a) by (nonlinear_arith)
            requires
                b >= 1,
                a > 0,
        ;
    }
}

proof fn lemma_bin(p: int, src_w: int, src_h: int, scale: int)
    requires
        0 < src_w,
        0 < src_h,
        0 < scale,
        0 <= p < src_w * src_h,
    ensures
        0 <= p / src_w < src_h,
        0 <= p % src_w < src_w,
        0 <= (p / src_w) / scale < ceil_div(src_h, scale),
        0 <= (p % src_w) / scale < ceil_div(src_w, scale),
        0 <= ((p / src_w) / scale) * ceil_div(src_w, scale),
        0 <= bin_of(p, src_w, scale, ceil_div(src_w, scale)) < ceil_div(src_w, scale) * ceil_div(
            src_h,
            scale,
        ),
{
    lemma_cell(src_w, src_h, p);
    lemma_ceil_div(src_h, scale, p / src_w);
    lemma_ceil_div(src_w, scale, p % src_w);
    let w = ceil_div(src_w, scale);
    let h = ceil_div(src_h, scale);
    let row = (p / src_w) / scale;
    assert(0 <= row * w && row * w + w <= w * h) by (nonlinear_arith)
        requires
            0 <= row <= h - 1,
            0 < w,
    ;
}

/// Round `a / b` up.
fn round_up_div(a: u32, b: u32) -> (r: u32)
    requires
        0 < a <= 8192,
        0 < b <= 8192,
    ensures
        r == ceil_div(a as int, b as int),
        0 < r <= a,
{
    proof {
        lemma_ceil_div(a as int, b as int, 0);
    }
    (a + b - 1) / b
}

/// Bin a render into cells.
fn bin_pixels(src_w: u32, src_h: u32, pixels: &Vec<u8>, scale: u32, w: u32, h: u32) -> (r: Vec<
    bool,
>)
    requires
        size_is_valid(src_w, src_h),
        pixels@.len() >= 4 * (src_w * src_h),
        0 < scale <= 8192,
        scale == bin_size(src_w as int),
        w == ceil_div(src_w as int, scale as int),
        h == ceil_div(src_h as int, scale as int),
        w <= 8192,
        h <= 8192,
    ensures
        r@ == clear_grid(
            src_w as int,
            src_h as int,
            alpha_of(pixels@, src_w * src_h),
        ),
        r@.len() == w * h,
{
    proof {
        assert(src_w * src_h <= 8192 * 8192) by (nonlinear_arith)
            requires
                src_w <= 8192,
                src_h <= 8192,
        ;
        assert(w * h <= 8192 * 8192 && 0 <= w * h) by (nonlinear_arith)
            requires
                w <= 8192,
                h <= 8192,
        ;
    }
    let total: u32 = src_w * src_h;
    let cells: u32 = w * h;
    let mut r: Vec<bool> = Vec::new();
    let mut i: u32 = 0;
    while i < cells
        invariant
            i <= cells,
            r@.len() == i,
            forall|k: int| 0 <= k < i ==> !#[trigger] r@[k],
        decreases cells - i,
    {
        r.push(false);
        i = i + 1;
    }
    let ghost alpha = alpha_of(pixels@, total as int);
    let ghost sw = src_w as int;
    let ghost sc = scale as int;
    let ghost wi = w as int;
    let mut p: u32 = 0;
    while p < total
        invariant
            p <= total,
            total <= 8192 * 8192,
            total == src_w * src_h,
            0 < src_w <= 8192,
            0 < src_h <= 8192,
            0 < scale <= 8192,
            sw == src_w,
            sc == scale,
            wi == w,
            wi == ceil_div(sw, sc),
            h == ceil_div(src_h as int, sc),
            cells == w * h,
            cells <= 8192 * 8192,
            r@.len() == cells,
            pixels@.len() >= 4 * total,
            alpha == alpha_of(pixels@, total as int),
            forall|c: int|
                0 <= c < cells ==> (#[trigger] r@[c] <==> exists|q: int|
                    0 <= q < p && #[trigger] alpha[q] < HOLE_ALPHA && bin_of(q, sw, sc, wi) == c),
        decreases total - p,
    {
        let ghost before = r@;
        proof {
            lemma_bin(p as int, sw, src_h as int, sc);
        }
        let row: u32 = (p / src_w) / scale;
        let col: u32 = (p % src_w) / scale;
        let c: u32 = row * w + col;
        let clear = pixels[4 * p as usize + 3] < HOLE_ALPHA;
        if clear {
            r.set(c as usize, true);
        }
        proof {
            assert(alpha[p as int] == pixels@[4 * p + 3]);
            assert forall|k: int| 0 <= k < cells implies (#[trigger] r@[k] <==> exists|q: int|
                0 <= q < p + 1 && #[trigger] alpha[q] < HOLE_ALPHA && bin_of(q, sw, sc, wi)
                    == k) by {
                if r@[k] {
                    if k == c && clear {
                        assert(alpha[p as int] < HOLE_ALPHA);
                    } else {
                        assert(before[k]);
                        let q = choose|q: int|
                            0 <= q < p && #[trigger] alpha[q] < HOLE_ALPHA && bin_of(q, sw, sc, wi)
                                == k;
                        assert(alpha[q] < HOLE_ALPHA);
                    }
                } else {
                    assert(!before[k]);
                }
            }
        }
        p = p + 1;
    }
    proof {
        let grid = clear_grid(src_w as int, src_h as int, alpha);
        assert(grid.len() == r@.len());
        assert forall|c: int| 0 <= c < r@.len() implies #[trigger] r@[c] == grid[c] by {
            assert(grid[c] == see_through(alpha, sw, sc, wi, c));
        }
        assert(r@ =~= grid);
    }
    r
}

impl GlowGeometry {
    /// The enclosed see-through cells of a render as runs, from its pixels with
    /// red, green, blue and alpha bytes. `None` when the size is out of range
    /// or nothing is enclosed.
    pub fn from_pixels(src_w: u32, src_h: u32, pixels: &Vec<u8>) -> (r: Option<GlowGeometry>)
        requires
            size_is_valid(src_w, src_h) ==> pixels@.len() >= 4 * (src_w * src_h),
        ensures
            geometry_of(src_w, src_h, alpha_of(pixels@, src_w * src_h), r),
    {
        if src_w == 0 || src_h == 0 || src_w > MAX_MASK_DIM || src_h > MAX_MASK_DIM {
            return None;
        }
        let ghost alpha = alpha_of(pixels@, src_w * src_h);
        let scale: u32 = round_up_div(src_w, COMPUTED_MASK_MAX_W);
        let w: u32 = round_up_div(src_w, scale);
        let h: u32 = round_up_div(src_h, scale);
        let clear = bin_pixels(src_w, src_h, pixels, scale, w, h);
        let holes = enclosed(&clear, w as usize, h as usize);
        let segments = collect_runs(&holes, w, h);
        let ghost wi = w as int;
        let ghost hi = h as int;
        proof {
            assert(holes@ =~= hole_mask(clear@, wi, hi));
            if segments@.len() == 0 {
                assert forall|i: int| !#[trigger] is_hole(clear@, wi, hi, i) by {
                    if is_hole(clear@, wi, hi, i) {
                        assert(holes@[i]);
                        assert(covered(segments@, wi, i));
                    }
                }
            } else {
                let seg = segments@[0];
                let i = run_start(seg, wi);
                assert(covers(segments@[0], wi, i));
                assert(holes@[i]);
                assert(0 <= seg.row * wi) by (nonlinear_arith)
                    requires
                        0 < wi,
                ;
                assert(is_hole(clear@, wi, hi, i));
            }
        }
        if segments.len() == 0 {
            return None;
        }
        Some(GlowGeometry { width: w, height: h, segments })
    }
}

/// What the geometry of a render with a given alpha channel is.
pub open spec fn geometry_of(
    src_w: u32,
    src_h: u32,
    alpha: Seq<u8>,
    r: Option<GlowGeometry>,
) -> bool {
    let scale = bin_size(src_w as int);
    let w = ceil_div(src_w as int, scale);
    let h = ceil_div(src_h as int, scale);
    let clear = clear_grid(src_w as int, src_h as int, alpha);
    &&& r is Some <==> size_is_valid(src_w, src_h) && has_hole(src_w as int, src_h as int, alpha)
    &&& r matches Some(g) ==> g.width == w && g.height == h && maximal_runs(
        g.segments@,
        hole_mask(clear, w, h),
        w,
        w * h,
    )
}

/// The size and alpha channel of an image file, by its extension and content.
pub uninterp spec fn decoded_alpha(extension: Seq<char>, bytes: Seq<u8>) -> Option<
    (u32, u32, Seq<u8>),
>;

/// `image::ImageFormat::from_extension` and `image::load_from_memory_with_format`
/// with `DynamicImage::into_rgba8`: the extension picks the decoder, and the
/// bytes decode to rows of red, green, blue and alpha bytes, or fail to. There
/// are at least as many bytes as the size calls for. Size and alpha depend on
/// the extension and the bytes alone. How the bytes of a format map to pixels is
/// left unsaid, and so is whether a decoder unwinds on bytes that are malformed
/// in a way that it does not foresee.
#[verifier::external_body]
fn decode_image(extension: &str, bytes: &Vec<u8>) -> (r: Option<(u32, u32, Vec<u8>)>)
    ensures
        r is Some <==> decoded_alpha(extension@, bytes@) is Some,
        r matches Some((w, h, pixels)) ==> pixels@.len() >= 4 * (w * h) && decoded_alpha(
            extension@,
            bytes@,
        ) == Some((w, h, alpha_of(pixels@, w * h))),
{
    let format = image::ImageFormat::from_extension(extension)?;
    let img = image::load_from_memory_with_format(bytes, format).ok()?.into_rgba8();
    let (w, h) = img.dimensions();
    Some((w, h, img.into_raw()))
}

/// What is told of an image file by its extension and content: its enclosed
/// see-through cells, and nothing where it does not decode.
pub open spec fn file_geometry(
    extension: Option<Seq<char>>,
    bytes: Seq<u8>,
    r: Option<GlowGeometry>,
) -> bool {
    match extension {
        None => r is None,
        Some(extension) => match decoded_alpha(extension, bytes) {
            None => r is None,
            Some((w, h, alpha)) => geometry_of(w, h, alpha, r),
        },
    }
}

/// What is told of an image file by its name and content. A host that does not
/// part the name at its slashes may read another extension in it.
pub open spec fn named_geometry(name: Seq<char>, bytes: Seq<u8>, r: Option<GlowGeometry>) -> bool {
    &&& parts_at_slashes(name) ==> file_geometry(parts_of(name).extension(), bytes, r)
    &&& exists|extension: Option<Seq<char>>| #[trigger] file_geometry(extension, bytes, r)
}

/// The enclosed see-through cells of an image file, from its extension and
/// content.
pub fn glow_of_file(extension: &Option<String>, bytes: &Vec<u8>) -> (r: Option<GlowGeometry>)
    ensures
        file_geometry(extension.deep_view(), bytes@, r),
{
    match extension {
        None => None,
        Some(extension) => match decode_image(extension.as_str(), bytes) {
            None => None,
            Some((w, h, pixels)) => GlowGeometry::from_pixels(w, h, &pixels),
        },
    }
}

/// The enclosed see-through cells of an image file, from its name and content.
/// `None` when the file does not decode, its size is out of range or nothing is
/// enclosed.
pub fn compute_glow_geometry(name: &str, bytes: &Vec<u8>) -> (r: Option<GlowGeometry>)
    ensures
        named_geometry(name@, bytes@, r),
{
    let extension = path_extension(name);
    glow_of_file(&extension, bytes)
}

/// The glow of a depot: the mask that ships with it if there is one, and
/// otherwise the holes of its image. A mask that is malformed counts as none.
pub fn resolve_glow_geometry(
    mask: &Option<GlowMask>,
    name: &str,
    bytes: &Option<Vec<u8>>,
) -> (r: Option<GlowGeometry>)
    ensures
        (mask matches Some(m) && mask_is_valid(m.width, m.height, m.runs@)) ==> {
            let m = mask->0;
            r matches Some(g) && g.width == m.width && g.height == m.height && g.segments@
                == mask_segments(m.runs@, m.width as int)
        },
        !(mask matches Some(m) && mask_is_valid(m.width, m.height, m.runs@)) ==> match *bytes {
            None => r is None,
            Some(bytes) => named_geometry(name@, bytes@, r),
        },
{
    if let Some(mask) = mask {
        if let Some(geometry) = GlowGeometry::from_mask(mask) {
            return Some(geometry);
        }
    }
    match bytes {
        None => None,
        Some(bytes) => compute_glow_geometry(name, bytes),
    }
}

/// A painted cell is see-through, enclosed, and so never on the border: the
/// colour stays inside of the silhouette.
pub proof fn the_glow_stays_inside(
    src_w: u32,
    src_h: u32,
    alpha: Seq<u8>,
    g: GlowGeometry,
    i: int,
)
    requires
        geometry_of(src_w, src_h, alpha, Some(g)),
        covered(g.segments@, g.width as int, i),
    ensures
        0 <= i < g.width * g.height,
        clear_grid(src_w as int, src_h as int, alpha)[i],
        !outside(
            clear_grid(src_w as int, src_h as int, alpha),
            g.width as int,
            g.height as int,
            i,
        ),
        !on_border(g.width as int, g.height as int, i),
{
    let w = g.width as int;
    let h = g.height as int;
    let clear = clear_grid(src_w as int, src_h as int, alpha);
    let k = choose|k: int| 0 <= k < g.segments@.len() && covers(#[trigger] g.segments@[k], w, i);
    assert(hole_mask(clear, w, h)[i]);
    let row = g.segments@[k].row;
    assert(0 <= row * w) by (nonlinear_arith)
        requires
            0 <= w,
    ;
    assert(clear.len() == w * h) by {
        assert(0 <= w * h) by (nonlinear_arith)
            requires
                0 <= w,
                0 <= h,
        ;
    }
    assert(is_hole(clear, w, h, i));
    if on_border(w, h, i) {
        lemma_border_outside(clear, w, h, i);
    }
}

/// Every enclosed see-through cell is painted.
pub proof fn every_hole_glows(src_w: u32, src_h: u32, alpha: Seq<u8>, g: GlowGeometry, i: int)
    requires
        geometry_of(src_w, src_h, alpha, Some(g)),
        0 <= i < g.width * g.height,
        clear_grid(src_w as int, src_h as int, alpha)[i],
        !outside(
            clear_grid(src_w as int, src_h as int, alpha),
            g.width as int,
            g.height as int,
            i,
        ),
        clear_grid(src_w as int, src_h as int, alpha).len() == g.width * g.height,
    ensures
        covered(g.segments@, g.width as int, i),
{
    let w = g.width as int;
    let h = g.height as int;
    let clear = clear_grid(src_w as int, src_h as int, alpha);
    assert(is_hole(clear, w, h, i));
    assert(hole_mask(clear, w, h)[i]);
}

/// A picture that is small enough is taken pixel by pixel: a cell is see-through
/// exactly where the alpha of its pixel is below that of a hole.
pub proof fn a_small_picture_is_taken_pixel_by_pixel(
    src_w: int,
    src_h: int,
    alpha: Seq<u8>,
    x: int,
    y: int,
)
    requires
        0 < src_w <= 1024,
        0 <= x < src_w,
        0 <= y < src_h,
        alpha.len() == src_w * src_h,
    ensures
        clear_grid(src_w, src_h, alpha).len() == src_w * src_h,
        clear_grid(src_w, src_h, alpha)[y * src_w + x] <==> alpha[y * src_w + x] < 96,
{
    let scale = bin_size(src_w);
    assert(scale == 1);
    assert(ceil_div(src_w, 1) == src_w);
    assert(ceil_div(src_h, 1) == src_h);
    let c = y * src_w + x;
    assert(0 <= c < src_w * src_h) by (nonlinear_arith)
        requires
            0 <= x < src_w,
            0 <= y < src_h,
            c == y * src_w + x,
    ;
    assert forall|p: int| 0 <= p < alpha.len() implies bin_of(p, src_w, 1, src_w) == p by {
        lemma_fundamental_div_mod(p, src_w);
        assert((p / src_w) / 1 == p / src_w);
        assert((p % src_w) / 1 == p % src_w);
        assert((p / src_w) * src_w == src_w * (p / src_w)) by (nonlinear_arith);
    }
    if alpha[c] < 96 {
        assert(bin_of(c, src_w, 1, src_w) == c);
    }
}

/// A size of nothing, or beyond what is taken, has no geometry.
pub proof fn an_odd_size_has_no_geometry(src_w: u32, src_h: u32, alpha: Seq<u8>)
    ensures
        src_w == 0 || src_h == 0 || src_w > 8192 || src_h > 8192 ==> geometry_of(
            src_w,
            src_h,
            alpha,
            None,
        ),
        0 < src_w <= 8192 && 0 < src_h <= 8192 ==> size_is_valid(src_w, src_h),
{
}

proof fn lemma_place(w: int, x: int, y: int)
    requires
        0 <= x < w,
        0 <= y,
    ensures
        (y * w + x) % w == x,
        (y * w + x) / w == y,
{
    lemma_fundamental_div_mod_converse(y * w + x, w, y, x);
}

/// Two cells touch exactly where they are next to each other in a row or in a column.
pub proof fn cells_touch_side_by_side(w: int, x: int, y: int, x2: int, y2: int)
    requires
        0 <= x < w,
        0 <= x2 < w,
        0 <= y,
        0 <= y2,
        w > 1,
    ensures
        touch(w, y * w + x, y2 * w + x2) <==> {
            ||| y2 == y && (x2 == x + 1 || x2 == x - 1)
            ||| x2 == x && (y2 == y + 1 || y2 == y - 1)
        },
{
    lemma_place(w, x, y);
    lemma_place(w, x2, y2);
    let a = y * w + x;
    let b = y2 * w + x2;
    if b == a + 1 && x != w - 1 {
        lemma_place(w, x + 1, y);
        assert(b == y * w + (x + 1));
    }
    if b == a - 1 && x != 0 {
        lemma_place(w, x - 1, y);
        assert(b == y * w + (x - 1));
    }
    if b == a + w {
        assert(a + w == (y + 1) * w + x) by (nonlinear_arith)
            requires
                a == y * w + x,
        ;
        lemma_place(w, x, y + 1);
    }
    if b == a - w {
        assert(a - w == (y - 1) * w + x) by (nonlinear_arith)
            requires
                a == y * w + x,
        ;
        if y >= 1 {
            lemma_place(w, x, y - 1);
        } else {
            assert(b < 0);
            assert(0 <= y2 * w) by (nonlinear_arith)
                requires
                    0 <= y2,
                    0 < w,
            ;
        }
    }
    if x2 == x && y2 == y + 1 {
        assert((y + 1) * w + x == a + w) by (nonlinear_arith)
            requires
                a == y * w + x,
        ;
    }
    if x2 == x && y2 == y - 1 {
        assert((y - 1) * w + x == a - w) by (nonlinear_arith)
            requires
                a == y * w + x,
        ;
    }
}

/// A cell is on the border exactly where it is in the first or last row or column.
pub proof fn the_border_is_the_outer_rows_and_columns(w: int, h: int, x: int, y: int)
    requires
        0 <= x < w,
        0 <= y < h,
    ensures
        on_border(w, h, y * w + x) <==> x == 0 || x == w - 1 || y == 0 || y == h - 1,
{
    lemma_place(w, x, y);
    let i = y * w + x;
    assert(i < w <==> y == 0) by (nonlinear_arith)
        requires
            i == y * w + x,
            0 <= x < w,
            0 <= y,
    ;
    assert(i >= w * (h - 1) <==> y == h - 1) by (nonlinear_arith)
        requires
            i == y * w + x,
            0 <= x < w,
            0 <= y < h,
    ;
}

/// What is outside spreads: a see-through cell on the border is outside, and so is one
/// that touches a cell that is. Only see-through cells are.
pub proof fn outside_spreads(clear: Seq<bool>, w: int, h: int, i: int, j: int)
    requires
        0 <= i < clear.len(),
        0 <= j < clear.len(),
    ensures
        clear[i] && on_border(w, h, i) ==> outside(clear, w, h, i),
        outside(clear, w, h, i) && touch(w, i, j) && clear[j] ==> outside(clear, w, h, j),
        outside(clear, w, h, i) ==> clear[i],
{
    if clear[i] && on_border(w, h, i) {
        assert(reaches(clear, w, h, seq![i], i));
    }
    if outside(clear, w, h, i) {
        let path = choose|path: Seq<int>| reaches(clear, w, h, path, i);
        assert(clear[path[path.len() - 1]]);
        if touch(w, i, j) && clear[j] {
            let longer = path.push(j);
            assert forall|k: int| 0 <= k < longer.len() - 1 implies touch(
                w,
                #[trigger] longer[k],
                longer[k + 1],
            ) by {
                if k < path.len() - 1 {
                    assert(touch(w, path[k], path[k + 1]));
                }
            }
            assert forall|k: int| 0 <= k < longer.len() implies clear[#[trigger] longer[k]] by {
                if k < path.len() {
                    assert(clear[path[k]]);
                }
            }
            assert(reaches(clear, w, h, longer, j));
        }
    }
}

/// See-through cells that are walled in are holes: none of them is on the border, and
/// every see-through cell that touches one of them is among them.
pub proof fn walled_in_cells_are_holes(
    clear: Seq<bool>,
    w: int,
    h: int,
    walled: Set<int>,
    i: int,
)
    requires
        forall|a: int|
            #[trigger] walled.contains(a) ==> 0 <= a < clear.len() && clear[a] && !on_border(
                w,
                h,
                a,
            ),
        forall|a: int, b: int|
            walled.contains(a) && 0 <= b < clear.len() && clear[b] && #[trigger] touch(w, b, a)
                ==> walled.contains(b),
        walled.contains(i),
    ensures
        is_hole(clear, w, h, i),
{
    if outside(clear, w, h, i) {
        let path = choose|path: Seq<int>| reaches(clear, w, h, path, i);
        lemma_walled_back(clear, w, h, walled, path, i, path.len() - 1);
        assert(walled.contains(path[0]));
    }
}

proof fn lemma_walled_back(
    clear: Seq<bool>,
    w: int,
    h: int,
    walled: Set<int>,
    path: Seq<int>,
    i: int,
    k: int,
)
    requires
        reaches(clear, w, h, path, i),
        forall|a: int, b: int|
            walled.contains(a) && 0 <= b < clear.len() && clear[b] && #[trigger] touch(w, b, a)
                ==> walled.contains(b),
        0 <= k < path.len(),
        walled.contains(path[k]),
    ensures
        walled.contains(path[0]),
    decreases k,
{
    if k > 0 {
        assert(touch(w, path[k - 1], path[k - 1 + 1]));
        assert(clear[path[k - 1]]);
        lemma_walled_back(clear, w, h, walled, path, i, k - 1);
    }
}

/// The grid of a picture that is taken has at most as many columns as can be shown.
pub proof fn a_grid_is_narrow_enough(src_w: int)
    requires
        0 < src_w <= 8192,
    ensures
        0 < ceil_div(src_w, bin_size(src_w)) <= 1024,
        src_w <= 1024 ==> ceil_div(src_w, bin_size(src_w)) == src_w,
        ceil_div(src_w, bin_size(src_w)) * bin_size(src_w) >= src_w,
{
    let scale = bin_size(src_w);
    assert(1 <= scale <= 8);
    if src_w <= 1024 {
        assert(scale == 1);
        assert((src_w + 1 - 1) / 1 == src_w);
    }
    assert(scale * 1024 >= src_w);
    let w = ceil_div(src_w, scale);
    lemma_fundamental_div_mod(src_w + scale - 1, scale);
    let m = (src_w + scale - 1) % scale;
    lemma_mod_bound(src_w + scale - 1, scale);
    assert(scale * w == src_w + scale - 1 - m);
    assert(w * scale >= src_w) by (nonlinear_arith)
        requires
            scale * w == src_w + scale - 1 - m,
            0 <= m < scale,
    ;
    assert(w <= 1024) by (nonlinear_arith)
        requires
            scale * w == src_w + scale - 1 - m,
            0 <= m < scale,
            scale * 1024 >= src_w,
            1 <= scale,
    ;
    assert(w > 0) by (nonlinear_arith)
        requires
            scale * w >= src_w,
            src_w > 0,
            scale >= 1,
    ;
}

} // verus!
