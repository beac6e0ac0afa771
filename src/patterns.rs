//! Small patterns whose fate under the rule is known: the block, which never
//! changes, and the blinker, which flips between a row and a column of three.

use vstd::prelude::*;
use crate::grid::{ALIVE, DEAD, neighbor_count, next_generation};

verus! {

/// A grid of `w` by `h` cells in which exactly the cells `(x, y)` with
/// `live(x, y)` are live.
pub open spec fn grid_of(w: nat, h: nat, live: spec_fn(int, int) -> bool) -> Seq<Seq<i8>> {
    Seq::new(w, |x: int| Seq::new(h, |y: int| if live(x, y) { ALIVE } else { DEAD }))
}

/// Whether `(x, y)` lies in the two-by-two block whose top-left cell is
/// `(bx, by)`.
pub open spec fn in_block(bx: int, by: int, x: int, y: int) -> bool {
    bx <= x <= bx + 1 && by <= y <= by + 1
}

/// Whether `(x, y)` lies in the row of three cells centred on `(cx, cy)`.
pub open spec fn in_row(cx: int, cy: int, x: int, y: int) -> bool {
    cx - 1 <= x <= cx + 1 && y == cy
}

/// Whether `(x, y)` lies in the column of three cells centred on `(cx, cy)`.
pub open spec fn in_column(cx: int, cy: int, x: int, y: int) -> bool {
    x == cx && cy - 1 <= y <= cy + 1
}

/// A two-by-two block of live cells, on an otherwise dead grid.
pub open spec fn block(w: nat, h: nat, bx: int, by: int) -> Seq<Seq<i8>> {
    grid_of(w, h, |x: int, y: int| in_block(bx, by, x, y))
}

/// A row of three live cells, on an otherwise dead grid.
pub open spec fn blinker_row(w: nat, h: nat, cx: int, cy: int) -> Seq<Seq<i8>> {
    grid_of(w, h, |x: int, y: int| in_row(cx, cy, x, y))
}

/// A column of three live cells, on an otherwise dead grid.
pub open spec fn blinker_column(w: nat, h: nat, cx: int, cy: int) -> Seq<Seq<i8>> {
    grid_of(w, h, |x: int, y: int| in_column(cx, cy, x, y))
}

/// A block of live cells that lies on the grid is unchanged by a generation.
pub proof fn lemma_block_still(w: nat, h: nat, bx: int, by: int)
    requires
        0 <= bx,
        bx + 1 < w,
        0 <= by,
        by + 1 < h,
    ensures
        next_generation(block(w, h, bx, by)) == block(w, h, bx, by),
{
    let g = block(w, h, bx, by);
    assert forall|x: int| 0 <= x < w implies #[trigger] next_generation(g)[x] =~= g[x] by {
        assert forall|y: int| 0 <= y < h implies next_generation(g)[x][y] == g[x][y] by {
            let n = neighbor_count(g, x, y);
            if in_block(bx, by, x, y) {
                assert(n == 3);
            } else {
                assert(n <= 2);
            }
        }
    }
    assert(next_generation(g) =~= g);
}

/// A row of three turns into a column of three in one generation.
pub proof fn lemma_row_to_column(w: nat, h: nat, cx: int, cy: int)
    requires
        1 <= cx,
        cx + 1 < w,
        1 <= cy,
        cy + 1 < h,
    ensures
        next_generation(blinker_row(w, h, cx, cy)) == blinker_column(w, h, cx, cy),
{
    let g = blinker_row(w, h, cx, cy);
    let c = blinker_column(w, h, cx, cy);
    assert forall|x: int| 0 <= x < w implies #[trigger] next_generation(g)[x] =~= c[x] by {
        assert forall|y: int| 0 <= y < h implies next_generation(g)[x][y] == c[x][y] by {
            let n = neighbor_count(g, x, y);
            if in_column(cx, cy, x, y) {
                if y == cy {
                    assert(n == 2);
                } else {
                    assert(n == 3);
                }
            } else if in_row(cx, cy, x, y) {
                assert(n == 1);
            } else {
                assert(n != 3);
            }
        }
    }
    assert(next_generation(g) =~= c);
}

/// A column of three turns into a row of three in one generation.
pub proof fn lemma_column_to_row(w: nat, h: nat, cx: int, cy: int)
    requires
        1 <= cx,
        cx + 1 < w,
        1 <= cy,
        cy + 1 < h,
    ensures
        next_generation(blinker_column(w, h, cx, cy)) == blinker_row(w, h, cx, cy),
{
    let g = blinker_column(w, h, cx, cy);
    let r = blinker_row(w, h, cx, cy);
    assert forall|x: int| 0 <= x < w implies #[trigger] next_generation(g)[x] =~= r[x] by {
        assert forall|y: int| 0 <= y < h implies next_generation(g)[x][y] == r[x][y] by {
            let n = neighbor_count(g, x, y);
            if in_row(cx, cy, x, y) {
                if x == cx {
                    assert(n == 2);
                } else {
                    assert(n == 3);
                }
            } else if in_column(cx, cy, x, y) {
                assert(n == 1);
            } else {
                assert(n != 3);
            }
        }
    }
    assert(next_generation(g) =~= r);
}

/// The blinker has period two: two generations bring the row of three back.
pub proof fn lemma_blinker_period_two(w: nat, h: nat, cx: int, cy: int)
    requires
        1 <= cx,
        cx + 1 < w,
        1 <= cy,
        cy + 1 < h,
    ensures
        next_generation(next_generation(blinker_row(w, h, cx, cy))) == blinker_row(w, h, cx, cy),
        next_generation(blinker_row(w, h, cx, cy)) != blinker_row(w, h, cx, cy),
{
    lemma_row_to_column(w, h, cx, cy);
    lemma_column_to_row(w, h, cx, cy);
    let r = blinker_row(w, h, cx, cy);
    let c = blinker_column(w, h, cx, cy);
    assert(r[cx - 1][cy] != c[cx - 1][cy]);
}

} // verus!
