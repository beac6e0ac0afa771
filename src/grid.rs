//! The cell grid and the transition rule.
//!
//! A world is held column by column: `cells[x][y]` is the cell in column `x`
//! and row `y`, with `1` for a live cell and `0` for a dead one.

use vstd::prelude::*;

verus! {

/// The value a live cell holds.
pub const ALIVE: i8 = 1;

/// The value a dead cell holds.
pub const DEAD: i8 = 0;

/// `g` is a grid of `w` columns of `h` cells each, every cell live or dead.
pub open spec fn is_grid(g: Seq<Seq<i8>>, w: int, h: int) -> bool {
    &&& g.len() == w
    &&& forall|x: int| 0 <= x < w ==> (#[trigger] g[x]).len() == h
    &&& forall|x: int, y: int|
        0 <= x < w && 0 <= y < h ==> (#[trigger] g[x][y] == ALIVE || g[x][y] == DEAD)
}

/// The state of cell `(x, y)` as a number: 1 when it exists and is live,
/// 0 when it is dead or lies outside the grid.
pub open spec fn cell_value(g: Seq<Seq<i8>>, x: int, y: int) -> int {
    if 0 <= x < g.len() && 0 <= y < g[x].len() && g[x][y] == ALIVE {
        1
    } else {
        0
    }
}

/// The number of live cells among the eight around `(x, y)`; positions off
/// the grid count for nothing.
pub open spec fn neighbor_count(g: Seq<Seq<i8>>, x: int, y: int) -> int {
    cell_value(g, x - 1, y - 1) + cell_value(g, x, y - 1) + cell_value(g, x + 1, y - 1)
        + cell_value(g, x - 1, y) + cell_value(g, x + 1, y)
        + cell_value(g, x - 1, y + 1) + cell_value(g, x, y + 1) + cell_value(g, x + 1, y + 1)
}

/// Whether a cell is live in the next generation: a live cell survives with
/// two or three live neighbors, a dead one comes alive with exactly three.
pub open spec fn lives_next(alive: bool, count: int) -> bool {
    if alive {
        count == 2 || count == 3
    } else {
        count == 3
    }
}

/// The next generation of `g`, cell by cell.
pub open spec fn next_generation(g: Seq<Seq<i8>>) -> Seq<Seq<i8>> {
    Seq::new(
        g.len(),
        |x: int|
            Seq::new(
                g[x].len(),
                |y: int|
                    if lives_next(g[x][y] == ALIVE, neighbor_count(g, x, y)) {
                        ALIVE
                    } else {
                        DEAD
                    },
            ),
    )
}

/// A grid of `w` columns and `h` rows with no live cell.
pub open spec fn empty_grid(w: nat, h: nat) -> Seq<Seq<i8>> {
    Seq::new(w, |x: int| Seq::new(h, |y: int| DEAD))
}

/// A rectangular grid of cells.
#[derive(Clone, Debug, PartialEq, Eq)]
pub struct World {
    width: usize,
    height: usize,
    cells: Vec<Vec<i8>>,
}

impl World {
    /// The cells, column by column.
    pub closed spec fn view(&self) -> Seq<Seq<i8>> {
        Seq::new(self.cells@.len(), |x: int| self.cells@[x]@)
    }

    /// The number of columns.
    pub closed spec fn spec_width(&self) -> nat {
        self.width as nat
    }

    /// The number of rows.
    pub closed spec fn spec_height(&self) -> nat {
        self.height as nat
    }

    /// Every column has `height` cells, there are `width` columns, and every
    /// cell is live or dead.
    pub open spec fn wf(&self) -> bool {
        is_grid(self@, self.spec_width() as int, self.spec_height() as int)
    }

    /// A world of `width` columns and `height` rows in which every cell is dead.
    pub fn dead(width: usize, height: usize) -> (w: World)
        ensures
            w.wf(),
            w.spec_width() == width,
            w.spec_height() == height,
            w@ == empty_grid(width as nat, height as nat),
    {
        let mut cells: Vec<Vec<i8>> = Vec::new();
        for x in 0..width
            invariant
                cells@.len() == x,
                forall|i: int| 0 <= i < x ==> (#[trigger] cells@[i])@ == Seq::new(height as nat, |y: int| DEAD),
        {
            let mut column: Vec<i8> = Vec::new();
            for y in 0..height
                invariant
                    column@ == Seq::new(y as nat, |j: int| DEAD),
            {
                column.push(DEAD);
                assert(column@ =~= Seq::new((y + 1) as nat, |j: int| DEAD));
            }
            cells.push(column);
        }
        let w = World { width, height, cells };
        assert(w@ =~= empty_grid(width as nat, height as nat));
        w
    }

    /// Makes cell `(x, y)` live or dead and leaves every other cell as it was.
    pub fn set(&mut self, x: usize, y: usize, alive: bool)
        requires
            old(self).wf(),
            x < old(self).spec_width(),
            y < old(self).spec_height(),
        ensures
            final(self).wf(),
            final(self).spec_width() == old(self).spec_width(),
            final(self).spec_height() == old(self).spec_height(),
            final(self)@ == old(self)@.update(
                x as int,
                old(self)@[x as int].update(y as int, if alive { ALIVE } else { DEAD }),
            ),
    {
        let ghost g = self@;
        let mut column = self.cells.remove(x);
        assert(column@ == g[x as int]);
        column.set(y, if alive { ALIVE } else { DEAD });
        self.cells.insert(x, column);
        assert(self@ =~= g.update(x as int, g[x as int].update(y as int, if alive { ALIVE } else { DEAD })));
    }

    /// The number of columns.
    pub fn width(&self) -> (r: usize)
        ensures
            r == self.spec_width(),
    {
        self.width
    }

    /// The number of rows.
    pub fn height(&self) -> (r: usize)
        ensures
            r == self.spec_height(),
    {
        self.height
    }

    /// The value held by cell `(x, y)`: `ALIVE` or `DEAD`.
    pub fn cell(&self, x: usize, y: usize) -> (r: i8)
        requires
            self.wf(),
            x < self.spec_width(),
            y < self.spec_height(),
        ensures
            r == self@[x as int][y as int],
            r == ALIVE || r == DEAD,
    {
        assert(self@[x as int] == self.cells@[x as int]@);
        self.cells[x][y]
    }

    /// Whether cell `(x, y)` is live.
    pub fn is_alive(&self, x: usize, y: usize) -> (r: bool)
        requires
            self.wf(),
            x < self.spec_width(),
            y < self.spec_height(),
        ensures
            r == (self@[x as int][y as int] == ALIVE),
    {
        self.cell(x, y) == ALIVE
    }

    /// Cell `(x, y)` as a count: 1 if live, 0 if dead.
    fn value_at(&self, x: usize, y: usize) -> (r: u8)
        requires
            self.wf(),
            x < self.spec_width(),
            y < self.spec_height(),
        ensures
            r as int == cell_value(self@, x as int, y as int),
    {
        if self.cell(x, y) == ALIVE {
            1
        } else {
            0
        }
    }

    /// The number of live cells around `(x, y)`, looking only at cells that
    /// lie on the grid.
    pub fn neighbors(&self, x: usize, y: usize) -> (r: u8)
        requires
            self.wf(),
            x < self.spec_width(),
            y < self.spec_height(),
        ensures
            r as int == neighbor_count(self@, x as int, y as int),
    {
        let ghost g = self@;
        let ghost (xi, yi) = (x as int, y as int);
        let w = self.width;
        let h = self.height;
        let mut count: u8 = 0;
        if x > 0 {
            count = count + self.value_at(x - 1, y);
        }
        assert(count == cell_value(g, xi - 1, yi));
        if x > 0 && y > 0 {
            count = count + self.value_at(x - 1, y - 1);
        }
        assert(count == cell_value(g, xi - 1, yi) + cell_value(g, xi - 1, yi - 1));
        if x > 0 && y < h - 1 {
            count = count + self.value_at(x - 1, y + 1);
        }
        assert(count == cell_value(g, xi - 1, yi) + cell_value(g, xi - 1, yi - 1)
            + cell_value(g, xi - 1, yi + 1));
        if x < w - 1 && y > 0 {
            count = count + self.value_at(x + 1, y - 1);
        }
        assert(count == cell_value(g, xi - 1, yi) + cell_value(g, xi - 1, yi - 1)
            + cell_value(g, xi - 1, yi + 1) + cell_value(g, xi + 1, yi - 1));
        if x < w - 1 {
            count = count + self.value_at(x + 1, y);
        }
        assert(count == cell_value(g, xi - 1, yi) + cell_value(g, xi - 1, yi - 1)
            + cell_value(g, xi - 1, yi + 1) + cell_value(g, xi + 1, yi - 1)
            + cell_value(g, xi + 1, yi));
        if x < w - 1 && y < h - 1 {
            count = count + self.value_at(x + 1, y + 1);
        }
        assert(count == cell_value(g, xi - 1, yi) + cell_value(g, xi - 1, yi - 1)
            + cell_value(g, xi - 1, yi + 1) + cell_value(g, xi + 1, yi - 1)
            + cell_value(g, xi + 1, yi) + cell_value(g, xi + 1, yi + 1));
        if y > 0 {
            count = count + self.value_at(x, y - 1);
        }
        assert(count == cell_value(g, xi - 1, yi) + cell_value(g, xi - 1, yi - 1)
            + cell_value(g, xi - 1, yi + 1) + cell_value(g, xi + 1, yi - 1)
            + cell_value(g, xi + 1, yi) + cell_value(g, xi + 1, yi + 1)
            + cell_value(g, xi, yi - 1));
        if y < h - 1 {
            count = count + self.value_at(x, y + 1);
        }
        count
    }
}

/// The next state of one cell from its current state and its number of live
/// neighbors.
pub fn next_cell(cell: i8, count: u8) -> (r: i8)
    requires
        cell == ALIVE || cell == DEAD,
    ensures
        r == if lives_next(cell == ALIVE, count as int) { ALIVE } else { DEAD },
{
    let mut r: i8 = DEAD;
    if count < 3 && cell == ALIVE {
        r = DEAD;
    }
    if cell == ALIVE && count == 2 || count == 3 {
        r = ALIVE;
    }
    if cell == DEAD && count == 3 {
        r = ALIVE;
    }
    r
}

/// The world one generation on. The given world is left as it is.
pub fn generation(world: &World) -> (next: World)
    requires
        world.wf(),
    ensures
        next.wf(),
        next.spec_width() == world.spec_width(),
        next.spec_height() == world.spec_height(),
        next@ == next_generation(world@),
{
    let ghost g = world@;
    let mut cells: Vec<Vec<i8>> = Vec::new();
    for x in 0..world.width
        invariant
            world.wf(),
            g == world@,
            cells@.len() == x,
            forall|i: int| 0 <= i < x ==> (#[trigger] cells@[i])@ == next_generation(g)[i],
    {
        let mut column: Vec<i8> = Vec::new();
        for y in 0..world.height
            invariant
                world.wf(),
                g == world@,
                x < world.spec_width(),
                column@ == next_generation(g)[x as int].subrange(0, y as int),
        {
            let count = world.neighbors(x, y);
            let cell = world.cell(x, y);
            column.push(next_cell(cell, count));
            assert(column@ =~= next_generation(g)[x as int].subrange(0, y + 1));
        }
        assert(column@ =~= next_generation(g)[x as int]);
        cells.push(column);
    }
    let next = World { width: world.width, height: world.height, cells };
    assert(next@ =~= next_generation(g));
    next
}

/// A live cell with fewer than two live neighbors dies.
pub proof fn lemma_underpopulation(g: Seq<Seq<i8>>, w: int, h: int, x: int, y: int)
    requires
        is_grid(g, w, h),
        0 <= x < w,
        0 <= y < h,
        g[x][y] == ALIVE,
        neighbor_count(g, x, y) <= 1,
    ensures
        next_generation(g)[x][y] == DEAD,
{
}

/// A live cell with two or three live neighbors stays live.
pub proof fn lemma_survival(g: Seq<Seq<i8>>, w: int, h: int, x: int, y: int)
    requires
        is_grid(g, w, h),
        0 <= x < w,
        0 <= y < h,
        g[x][y] == ALIVE,
        neighbor_count(g, x, y) == 2 || neighbor_count(g, x, y) == 3,
    ensures
        next_generation(g)[x][y] == ALIVE,
{
}

/// A live cell with four or more live neighbors dies.
pub proof fn lemma_overpopulation(g: Seq<Seq<i8>>, w: int, h: int, x: int, y: int)
    requires
        is_grid(g, w, h),
        0 <= x < w,
        0 <= y < h,
        g[x][y] == ALIVE,
        neighbor_count(g, x, y) >= 4,
    ensures
        next_generation(g)[x][y] == DEAD,
{
}

/// A dead cell comes alive exactly when it has three live neighbors, and
/// otherwise stays dead.
pub proof fn lemma_birth(g: Seq<Seq<i8>>, w: int, h: int, x: int, y: int)
    requires
        is_grid(g, w, h),
        0 <= x < w,
        0 <= y < h,
        g[x][y] == DEAD,
    ensures
        neighbor_count(g, x, y) == 3 ==> next_generation(g)[x][y] == ALIVE,
        neighbor_count(g, x, y) != 3 ==> next_generation(g)[x][y] == DEAD,
{
}

/// The corner cell `(0, 0)` counts only its three neighbors on the grid.
pub proof fn lemma_corner_neighbors(g: Seq<Seq<i8>>, w: int, h: int)
    requires
        is_grid(g, w, h),
        w >= 2,
        h >= 2,
    ensures
        neighbor_count(g, 0, 0) == cell_value(g, 1, 0) + cell_value(g, 0, 1) + cell_value(g, 1, 1),
{
}

/// A world with no live cell stays that way.
pub proof fn lemma_empty_stays_empty(w: nat, h: nat)
    ensures
        next_generation(empty_grid(w, h)) == empty_grid(w, h),
{
    let e = empty_grid(w, h);
    assert forall|x: int, y: int| 0 <= x < w && 0 <= y < h implies neighbor_count(e, x, y) == 0 by {
    }
    assert forall|x: int| 0 <= x < w implies #[trigger] next_generation(e)[x] =~= e[x] by {
        assert forall|y: int| 0 <= y < h implies next_generation(e)[x][y] == e[x][y] by {
            assert(neighbor_count(e, x, y) == 0);
        }
    }
    assert(next_generation(e) =~= e);
}

/// Relies on rand::random::<bool>: a bit drawn from the thread-local
/// generator, `true` and `false` equally likely. Nothing is promised of which
/// one comes.
#[verifier::external_body]
fn random_bit() -> (b: bool) {
    rand::random::<bool>()
}

/// `b` holds `w` columns of `h` bits each.
pub open spec fn is_bit_grid(b: Seq<Seq<bool>>, w: int, h: int) -> bool {
    &&& b.len() == w
    &&& forall|x: int| 0 <= x < w ==> (#[trigger] b[x]).len() == h
}

/// The grid whose cell `(x, y)` is live exactly when bit `(x, y)` of `b` is
/// set.
pub open spec fn grid_of_bits(b: Seq<Seq<bool>>) -> Seq<Seq<i8>> {
    Seq::new(
        b.len(),
        |x: int| Seq::new(b[x].len(), |y: int| if b[x][y] { ALIVE } else { DEAD }),
    )
}

/// The bits of `bits`, column by column.
pub open spec fn bits_view(bits: Seq<Vec<bool>>) -> Seq<Seq<bool>> {
    Seq::new(bits.len(), |x: int| bits[x]@)
}

/// The world of `width` columns and `height` rows whose cell `(x, y)` is
/// live exactly when `bits[x][y]` is set.
pub fn world_from_bits(width: usize, height: usize, bits: &Vec<Vec<bool>>) -> (r: World)
    requires
        is_bit_grid(bits_view(bits@), width as int, height as int),
    ensures
        r.wf(),
        r.spec_width() == width,
        r.spec_height() == height,
        r@ == grid_of_bits(bits_view(bits@)),
{
    let ghost b = bits_view(bits@);
    let mut cells: Vec<Vec<i8>> = Vec::new();
    for x in 0..width
        invariant
            b == bits_view(bits@),
            is_bit_grid(b, width as int, height as int),
            cells@.len() == x,
            forall|i: int| 0 <= i < x ==> (#[trigger] cells@[i])@ == grid_of_bits(b)[i],
    {
        assert(bits@[x as int]@ == b[x as int]);
        let mut column: Vec<i8> = Vec::new();
        for y in 0..height
            invariant
                b == bits_view(bits@),
                is_bit_grid(b, width as int, height as int),
                x < width,
                column@ == grid_of_bits(b)[x as int].subrange(0, y as int),
        {
            assert(bits@[x as int]@ == b[x as int]);
            if bits[x][y] {
                column.push(ALIVE);
            } else {
                column.push(DEAD);
            }
            assert(column@ =~= grid_of_bits(b)[x as int].subrange(0, y + 1));
        }
        assert(column@ =~= grid_of_bits(b)[x as int]);
        cells.push(column);
    }
    let r = World { width, height, cells };
    assert(r@ =~= grid_of_bits(b));
    r
}

/// `width` columns of `height` bits each, every bit drawn at random.
fn draw_bits(width: usize, height: usize) -> (bits: Vec<Vec<bool>>)
    ensures
        is_bit_grid(bits_view(bits@), width as int, height as int),
{
    let mut bits: Vec<Vec<bool>> = Vec::new();
    for x in 0..width
        invariant
            bits@.len() == x,
            forall|i: int| 0 <= i < x ==> (#[trigger] bits@[i])@.len() == height,
    {
        let mut column: Vec<bool> = Vec::new();
        for y in 0..height
            invariant
                column@.len() == y,
        {
            column.push(random_bit());
        }
        bits.push(column);
    }
    assert forall|x: int| 0 <= x < width implies (#[trigger] bits_view(bits@)[x]).len() == height by {
        assert(bits_view(bits@)[x] == bits@[x]@);
    }
    bits
}

/// A world of the same size as `world` in which every cell is set from a
/// bit of its own, drawn at random; nothing of the old cells is kept.
pub fn randomize(world: World) -> (r: World)
    ensures
        r.wf(),
        r.spec_width() == world.spec_width(),
        r.spec_height() == world.spec_height(),
        exists|b: Seq<Seq<bool>>|
            is_bit_grid(b, world.spec_width() as int, world.spec_height() as int)
                && r@ == grid_of_bits(b),
{
    let bits = draw_bits(world.width, world.height);
    let r = world_from_bits(world.width, world.height, &bits);
    assert(is_bit_grid(bits_view(bits@), world.spec_width() as int, world.spec_height() as int)
        && r@ == grid_of_bits(bits_view(bits@)));
    r
}

} // verus!
