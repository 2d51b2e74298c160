//! The glow between the keys of a keyboard render.
//!
//! A render of floating keys has enclosed see-through gaps. Painting only
//! those holes in the lighting colour never bleeds past the silhouette. The
//! holes come from a mask that ships with the render, or from the render's own
//! alpha channel. Geometry is kept in mask cells; whoever paints scales it.

use vstd::prelude::*;
use vstd::arithmetic::div_mod::{
    lemma_fundamental_div_mod,
    lemma_mod_bound,
};

verus! {

/// Widest mask that is derived from a render.
pub const COMPUTED_MASK_MAX_W: u32 = 1024;

/// Alpha below this counts as see-through.
pub const HOLE_ALPHA: u8 = 96;

/// Largest width and height of a mask or a render.
pub const MAX_MASK_DIM: u32 = 8192;

/// A run-length encoded mask, row by row: the runs alternate between off and
/// on, starting with off.
#[derive(Clone, Debug, PartialEq, Eq)]
pub struct GlowMask {
    /// Cells in a row.
    pub width: u32,
    /// Rows.
    pub height: u32,
    /// Lengths of the runs.
    pub runs: Vec<u32>,
}

/// One horizontal run of cells.
#[derive(Clone, Copy, Debug, PartialEq, Eq, Structural)]
pub struct GlowSeg {
    /// First cell of the run within its row.
    pub col: u32,
    /// Row of the run.
    pub row: u32,
    /// Number of cells.
    pub len: u32,
}

/// The holes of a mask as horizontal runs.
#[derive(Clone, Debug, PartialEq, Eq)]
pub struct GlowGeometry {
    /// Cells in a row of the mask.
    pub width: u32,
    /// Rows of the mask.
    pub height: u32,
    /// The runs, row by row.
    pub segments: Vec<GlowSeg>,
}

/// The number of cells that `runs` covers.
pub open spec fn run_total(runs: Seq<u32>) -> nat
    decreases runs.len(),
{
    if runs.len() == 0 {
        0
    } else {
        run_total(runs.drop_last()) + runs.last() as nat
    }
}

/// Where the row that cell `start` is in ends.
pub open spec fn row_end(start: int, w: int) -> int {
    (start / w + 1) * w
}

/// The smaller of two numbers.
pub open spec fn least(a: int, b: int) -> int {
    if a < b {
        a
    } else {
        b
    }
}

proof fn lemma_row_end(start: int, w: int)
    requires
        0 <= start,
        0 < w,
    ensures
        row_end(start, w) == start - start % w + w,
        start < row_end(start, w),
        0 <= start % w < w,
{
    lemma_fundamental_div_mod(start, w);
    lemma_mod_bound(start, w);
    assert((start / w + 1) * w == w * (start / w) + w) by (nonlinear_arith);
}

/// The cells `start..end` as runs that each stay on one row.
pub open spec fn split_rows(start: int, end: int, w: int) -> Seq<GlowSeg>
    decreases end - start,
    when 0 <= start && 0 < w
    via split_rows_decreases
{
    if start >= end {
        Seq::empty()
    } else {
        let stop = least(end, row_end(start, w));
        seq![
            GlowSeg {
                col: (start % w) as u32,
                row: (start / w) as u32,
                len: (stop - start) as u32,
            },
        ] + split_rows(stop, end, w)
    }
}

#[via_fn]
proof fn split_rows_decreases(start: int, end: int, w: int) {
    if start < end {
        lemma_row_end(start, w);
    }
}

/// The runs of cells that a mask turns on.
pub open spec fn mask_segments(runs: Seq<u32>, w: int) -> Seq<GlowSeg>
    decreases runs.len(),
{
    if runs.len() == 0 {
        Seq::empty()
    } else {
        let before = mask_segments(runs.drop_last(), w);
        if runs.len() % 2 == 0 {
            before + split_rows(
                run_total(runs.drop_last()) as int,
                run_total(runs) as int,
                w,
            )
        } else {
            before
        }
    }
}

/// Whether a mask's size is acceptable and its runs cover it exactly.
pub open spec fn mask_is_valid(width: u32, height: u32, runs: Seq<u32>) -> bool {
    0 < width <= MAX_MASK_DIM && 0 < height <= MAX_MASK_DIM && run_total(runs) == width * height
}

proof fn lemma_run_total_prefix(runs: Seq<u32>, n: int)
    requires
        0 <= n <= runs.len(),
    ensures
        run_total(runs.take(n)) <= run_total(runs),
    decreases runs.len() - n,
{
    if n < runs.len() {
        lemma_run_total_prefix(runs, n + 1);
        assert(runs.take(n + 1).drop_last() =~= runs.take(n));
    } else {
        assert(runs.take(n) =~= runs);
    }
}

/// Whether the runs cover exactly `total` cells.
fn covers_exactly(runs: &Vec<u32>, total: u64) -> (r: bool)
    requires
        total <= 0x1_0000_0000,
    ensures
        r == (run_total(runs@) == total),
{
    let mut sum: u64 = 0;
    let mut i: usize = 0;
    while i < runs.len()
        invariant
            i <= runs@.len(),
            sum == run_total(runs@.take(i as int)),
            sum <= total,
            total <= 0x1_0000_0000,
        decreases runs@.len() - i,
    {
        proof {
            assert(runs@.take(i as int + 1).drop_last() =~= runs@.take(i as int));
            lemma_run_total_prefix(runs@, i as int + 1);
        }
        sum = sum + runs[i] as u64;
        if sum > total {
            return false;
        }
        i = i + 1;
    }
    proof {
        assert(runs@.take(runs@.len() as int) =~= runs@);
    }
    sum == total
}

impl GlowGeometry {
    /// Decode a mask into runs that each stay on one row. `None` when the size
    /// is out of range or the runs do not cover it exactly.
    pub fn from_mask(mask: &GlowMask) -> (r: Option<GlowGeometry>)
        ensures
            r is Some <==> mask_is_valid(mask.width, mask.height, mask.runs@),
            r matches Some(g) ==> g.width == mask.width && g.height == mask.height
                && g.segments@ == mask_segments(mask.runs@, mask.width as int),
    {
        let w: u32 = mask.width;
        let h: u32 = mask.height;
        if w == 0 || h == 0 || w > MAX_MASK_DIM || h > MAX_MASK_DIM {
            return None;
        }
        proof {
            assert(w * h <= 8192 * 8192) by (nonlinear_arith)
                requires
                    w <= 8192,
                    h <= 8192,
            ;
        }
        let total: u64 = w as u64 * h as u64;
        if !covers_exactly(&mask.runs, total) {
            return None;
        }
        let runs = &mask.runs;
        let mut segments: Vec<GlowSeg> = Vec::new();
        let mut idx: u64 = 0;
        let mut on = false;
        let mut i: usize = 0;
        while i < runs.len()
            invariant
                i <= runs@.len(),
                0 < w <= 8192,
                total <= 8192 * 8192,
                run_total(runs@) == total,
                idx == run_total(runs@.take(i as int)),
                on == (i % 2 == 1),
                segments@ == mask_segments(runs@.take(i as int), w as int),
            decreases runs@.len() - i,
        {
            proof {
                assert(runs@.take(i as int + 1).drop_last() =~= runs@.take(i as int));
                lemma_run_total_prefix(runs@, i as int + 1);
            }
            let run: u32 = runs[i];
            let end: u64 = idx + run as u64;
            if on {
                let mut start: u64 = idx;
                let ghost base = segments@;
                let ghost whole = split_rows(idx as int, end as int, w as int);
                proof {
                    assert(base + whole =~= segments@ + split_rows(
                        start as int,
                        end as int,
                        w as int,
                    ));
                }
                while start < end
                    invariant
                        0 < w <= 8192,
                        idx <= start <= end,
                        end <= total <= 8192 * 8192,
                        segments@ + split_rows(start as int, end as int, w as int) =~= base + whole,
                    decreases end - start,
                {
                    proof {
                        lemma_row_end(start as int, w as int);
                        vstd::arithmetic::div_mod::lemma_mod_decreases(start as nat, w as nat);
                        assert((start / w as u64) as int == start as int / w as int);
                        assert((start % w as u64) as int == start as int % w as int);
                        assert(start as int / w as int <= start) by {
                            vstd::arithmetic::div_mod::lemma_div_is_ordered_by_denominator(
                                start as int,
                                1,
                                w as int,
                            );
                        }
                    }
                    let row: u64 = start / w as u64;
                    let col: u64 = start % w as u64;
                    let line: u64 = start - col + w as u64;
                    let stop: u64 = if end < line {
                        end
                    } else {
                        line
                    };
                    let ghost rest = split_rows(start as int, end as int, w as int);
                    proof {
                        assert(stop as int == least(end as int, row_end(start as int, w as int)));
                    }
                    let seg = GlowSeg { col: col as u32, row: row as u32, len: (stop - start) as u32 };
                    let ghost before = segments@;
                    segments.push(seg);
                    proof {
                        assert(rest =~= seq![seg] + split_rows(stop as int, end as int, w as int));
                        assert(segments@ + split_rows(stop as int, end as int, w as int) =~= before
                            + rest);
                    }
                    start = stop;
                }
                proof {
                    assert(segments@ =~= base + whole);
                }
            }
            idx = end;
            on = !on;
            i = i + 1;
        }
        proof {
            assert(runs@.take(runs@.len() as int) =~= runs@);
        }
        Some(GlowGeometry { width: w, height: h, segments })
    }
}

/// Whether a run covers cell `i` of a mask whose rows are `w` long.
pub open spec fn covers(seg: GlowSeg, w: int, i: int) -> bool {
    seg.row * w + seg.col <= i < seg.row * w + seg.col + seg.len
}

/// Whether any run covers cell `i`.
pub open spec fn covered(segments: Seq<GlowSeg>, w: int, i: int) -> bool {
    exists|k: int| 0 <= k < segments.len() && covers(#[trigger] segments[k], w, i)
}

/// Whether a mask turns cell `i` on.
pub open spec fn mask_on(runs: Seq<u32>, i: int) -> bool
    decreases runs.len(),
{
    if runs.len() == 0 {
        false
    } else if i < run_total(runs.drop_last()) {
        mask_on(runs.drop_last(), i)
    } else {
        runs.len() % 2 == 0 && i < run_total(runs)
    }
}

proof fn lemma_split_rows(start: int, end: int, w: int, i: int)
    requires
        0 <= start <= end <= 8192 * 8192,
        0 < w <= 8192,
    ensures
        covered(split_rows(start, end, w), w, i) <==> start <= i < end,
        forall|k: int|
            0 <= k < split_rows(start, end, w).len() ==> (#[trigger] split_rows(
                start,
                end,
                w,
            )[k]).len > 0 && split_rows(start, end, w)[k].col + split_rows(start, end, w)[k].len
                <= w,
    decreases end - start,
{
    if start < end {
        lemma_row_end(start, w);
        let stop = least(end, row_end(start, w));
        lemma_split_rows(stop, end, w, i);
        let rest = split_rows(stop, end, w);
        let all = split_rows(start, end, w);
        let first = all[0];
        lemma_fundamental_div_mod(start, w);
        assert(start / w <= start && 0 <= start / w) by {
            vstd::arithmetic::div_mod::lemma_div_is_ordered_by_denominator(start, 1, w);
            vstd::arithmetic::div_mod::lemma_div_pos_is_pos(start, w);
        }
        assert(first.row as int == start / w && first.col as int == start % w && first.len as int
            == stop - start);
        assert(first.row * w + first.col == start) by {
            assert(first.row * w == w * (start / w)) by (nonlinear_arith)
                requires
                    first.row as int == start / w,
            ;
        }
        assert forall|k: int| 0 <= k < rest.len() implies all[k + 1] == #[trigger] rest[k] by {}
        if start <= i < stop {
            assert(covers(all[0], w, i));
        }
        if stop <= i < end {
            let k = choose|k: int| 0 <= k < rest.len() && covers(#[trigger] rest[k], w, i);
            assert(covers(all[k + 1], w, i));
        }
        if covered(all, w, i) {
            let k = choose|k: int| 0 <= k < all.len() && covers(#[trigger] all[k], w, i);
            if k > 0 {
                assert(all[k] == rest[k - 1]);
                assert(covers(rest[k - 1], w, i));
            }
        }
        assert forall|k: int| 0 <= k < all.len() implies (#[trigger] all[k]).len > 0 && all[k].col
            + all[k].len <= w by {
            if k > 0 {
                assert(all[k] == rest[k - 1]);
            }
        }
    }
}

proof fn lemma_mask_segments(runs: Seq<u32>, w: int, i: int)
    requires
        run_total(runs) <= 8192 * 8192,
        0 < w <= 8192,
        0 <= i,
    ensures
        covered(mask_segments(runs, w), w, i) <==> mask_on(runs, i),
        mask_on(runs, i) ==> i < run_total(runs),
        forall|k: int|
            0 <= k < mask_segments(runs, w).len() ==> (#[trigger] mask_segments(runs, w)[k]).len > 0
                && mask_segments(runs, w)[k].col + mask_segments(runs, w)[k].len <= w,
    decreases runs.len(),
{
    if runs.len() > 0 {
        lemma_mask_segments(runs.drop_last(), w, i);
        let before = mask_segments(runs.drop_last(), w);
        let from = run_total(runs.drop_last()) as int;
        let to = run_total(runs) as int;
        lemma_split_rows(from, to, w, i);
        let added = split_rows(from, to, w);
        let all = mask_segments(runs, w);
        if runs.len() % 2 == 0 {
            assert forall|k: int| 0 <= k < before.len() implies all[k] == #[trigger] before[k] by {}
            assert forall|k: int| 0 <= k < added.len() implies all[before.len() + k]
                == #[trigger] added[k] by {}
            if covered(all, w, i) {
                let k = choose|k: int| 0 <= k < all.len() && covers(#[trigger] all[k], w, i);
                if k < before.len() {
                    assert(covers(before[k], w, i));
                } else {
                    assert(covers(added[k - before.len()], w, i));
                }
            }
            if covered(before, w, i) {
                let k = choose|k: int| 0 <= k < before.len() && covers(#[trigger] before[k], w, i);
                assert(covers(all[k], w, i));
            }
            if covered(added, w, i) {
                let k = choose|k: int| 0 <= k < added.len() && covers(#[trigger] added[k], w, i);
                assert(covers(all[before.len() + k], w, i));
            }
            assert forall|k: int| 0 <= k < all.len() implies (#[trigger] all[k]).len > 0
                && all[k].col + all[k].len <= w by {
                if k < before.len() {
                    assert(all[k] == before[k]);
                } else {
                    assert(all[k] == added[k - before.len()]);
                }
            }
        }
    }
}

/// The runs of a valid mask cover exactly the cells that it turns on, each on
/// one row and none of them empty.
pub proof fn mask_runs_cover_exactly_the_on_cells(width: u32, height: u32, runs: Seq<u32>, i: int)
    requires
        mask_is_valid(width, height, runs),
        0 <= i < width * height,
    ensures
        covered(mask_segments(runs, width as int), width as int, i) <==> mask_on(runs, i),
        forall|k: int|
            0 <= k < mask_segments(runs, width as int).len() ==> (#[trigger] mask_segments(
                runs,
                width as int,
            )[k]).len > 0 && mask_segments(runs, width as int)[k].col + mask_segments(
                runs,
                width as int,
            )[k].len <= width,
{
    assert(width * height <= 8192 * 8192) by (nonlinear_arith)
        requires
            width <= 8192,
            height <= 8192,
    ;
    lemma_mask_segments(runs, width as int, i);
}

} // verus!
