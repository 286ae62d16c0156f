//! The grid engine: cells, the eight-direction neighbourhood, and the
//! organism that owns the grid and drives each generation.
//!
//! The grid is a row-major sequence of cells (index = column + row * width).
//! Neighbour resolution is bounded (no wrap-around): each of the eight
//! compass directions is accepted or rejected by the edge conditions in
//! `dir_rejected`, so corners see 3 neighbours, edges 5, interior cells 8.

use rand::Rng;
use vstd::prelude::*;
use vstd::arithmetic::div_mod::lemma_fundamental_div_mod_converse;

verus! {

/// A cell's fixed grid coordinates: `(column, row)`, both 0-indexed.
pub type Position = (isize, isize);

/// The eight compass directions around a cell, in their fixed
/// iteration order.
#[derive(Clone, Copy)]
pub enum Neighbourhood {
    TopLeft,
    Top,
    TopRight,
    Left,
    Right,
    BottomLeft,
    Bottom,
    BottomRight,
}

/// The `(column, row)` offset a direction moves by.
pub open spec fn dir_offset(d: Neighbourhood) -> (int, int) {
    match d {
        Neighbourhood::TopLeft => (-1, -1),
        Neighbourhood::Top => (0, -1),
        Neighbourhood::TopRight => (1, -1),
        Neighbourhood::Left => (-1, 0),
        Neighbourhood::Right => (1, 0),
        Neighbourhood::BottomLeft => (-1, 1),
        Neighbourhood::Bottom => (0, 1),
        Neighbourhood::BottomRight => (1, 1),
    }
}

/// The direction that moves by `(dx, dy)`, for the eight unit offsets.
pub open spec fn offset_to_dir(dx: int, dy: int) -> Neighbourhood {
    if dx == -1 && dy == -1 {
        Neighbourhood::TopLeft
    } else if dx == 0 && dy == -1 {
        Neighbourhood::Top
    } else if dx == 1 && dy == -1 {
        Neighbourhood::TopRight
    } else if dx == -1 && dy == 0 {
        Neighbourhood::Left
    } else if dx == 1 && dy == 0 {
        Neighbourhood::Right
    } else if dx == -1 && dy == 1 {
        Neighbourhood::BottomLeft
    } else if dx == 0 && dy == 1 {
        Neighbourhood::Bottom
    } else {
        Neighbourhood::BottomRight
    }
}

/// The candidate linear index of the neighbour of `(x, y)` in direction
/// `d`, on a grid of width `w`: `basis + dx + dy * w` with
/// `basis = x + y * w`.
pub open spec fn raw_index(x: int, y: int, w: int, d: Neighbourhood) -> int {
    x + y * w + dir_offset(d).0 + dir_offset(d).1 * w
}

/// The per-direction edge conditions under which the candidate index is
/// rejected (no neighbour in that direction). The cardinal `Top` and
/// `Bottom` directions carry no explicit column check, and `Top` no row
/// check beyond the sign of the candidate index: the sign already
/// captures the top boundary, and a cardinal move never changes column.
pub open spec fn dir_rejected(x: int, y: int, w: int, h: int, d: Neighbourhood) -> bool {
    match d {
        Neighbourhood::TopLeft => raw_index(x, y, w, d) < 0 || x == 0,
        Neighbourhood::Top => raw_index(x, y, w, d) < 0,
        Neighbourhood::TopRight => raw_index(x, y, w, d) < 0 || x == w - 1,
        Neighbourhood::Left => x == 0,
        Neighbourhood::Right => x == w - 1,
        Neighbourhood::BottomLeft => x == 0 || y == h - 1,
        Neighbourhood::Bottom => y == h - 1,
        Neighbourhood::BottomRight => x == w - 1 || y == h - 1,
    }
}

/// The resolved neighbour index of `(x, y)` in direction `d`: `None`
/// where the direction is rejected by the grid edge.
pub open spec fn neighbour_index(x: int, y: int, w: int, h: int, d: Neighbourhood) -> Option<
    int,
> {
    if dir_rejected(x, y, w, h, d) {
        Option::None
    } else {
        Option::Some(raw_index(x, y, w, d))
    }
}

/// The eight directions in iteration order.
pub open spec fn dir_seq() -> Seq<Neighbourhood> {
    seq![
        Neighbourhood::TopLeft,
        Neighbourhood::Top,
        Neighbourhood::TopRight,
        Neighbourhood::Left,
        Neighbourhood::Right,
        Neighbourhood::BottomLeft,
        Neighbourhood::Bottom,
        Neighbourhood::BottomRight,
    ]
}

impl Neighbourhood {
    /// The eight directions in their fixed iteration order.
    pub fn iterator() -> (r: Vec<Neighbourhood>)
        ensures
            r@ == dir_seq(),
    {
        let mut v: Vec<Neighbourhood> = Vec::new();
        v.push(Neighbourhood::TopLeft);
        v.push(Neighbourhood::Top);
        v.push(Neighbourhood::TopRight);
        v.push(Neighbourhood::Left);
        v.push(Neighbourhood::Right);
        v.push(Neighbourhood::BottomLeft);
        v.push(Neighbourhood::Bottom);
        v.push(Neighbourhood::BottomRight);
        proof {
            assert(v@ =~= dir_seq());
        }
        v
    }
}

/// A direction is accepted at `(x, y)` exactly when the cell it moves to
/// lies on the grid; the asymmetric edge conditions of `dir_rejected`
/// are equivalent to that bound check.
pub proof fn lemma_accept_iff(x: int, y: int, w: int, h: int, d: Neighbourhood)
    requires
        0 <= x < w,
        0 <= y < h,
    ensures
        !dir_rejected(x, y, w, h, d) <==> (0 <= x + dir_offset(d).0 < w && 0 <= y + dir_offset(
            d,
        ).1 < h),
{
    let dx = dir_offset(d).0;
    let dy = dir_offset(d).1;
    let nx = x + dx;
    let ny = y + dy;
    assert(x + y * w + dx + dy * w == nx + ny * w) by (nonlinear_arith)
        requires
            nx == x + dx,
            ny == y + dy,
    ;
    assert(raw_index(x, y, w, d) == nx + ny * w);
    match d {
        Neighbourhood::TopLeft => {
            if 0 <= nx {
                lemma_row_sign(nx, ny, w);
            }
        },
        Neighbourhood::Top => {
            lemma_row_sign(nx, ny, w);
        },
        Neighbourhood::TopRight => {
            if nx < w {
                lemma_row_sign(nx, ny, w);
            }
        },
        Neighbourhood::Left => {},
        Neighbourhood::Right => {},
        Neighbourhood::BottomLeft => {},
        Neighbourhood::Bottom => {},
        Neighbourhood::BottomRight => {},
    }
}

/// For a column `nx` on the grid and a row `ny` at worst one above it,
/// the linear index `nx + ny * w` is non-negative exactly when the row
/// is.
proof fn lemma_row_sign(nx: int, ny: int, w: int)
    requires
        0 < w,
        0 <= nx < w,
        -1 <= ny,
    ensures
        (0 <= nx + ny * w) <==> (0 <= ny),
{
    assert((0 <= nx + ny * w) <==> (0 <= ny)) by (nonlinear_arith)
        requires
            0 < w,
            0 <= nx < w,
            -1 <= ny,
    ;
}

/// A row-major index built from on-grid coordinates lies within the
/// grid.
proof fn lemma_cell_index_bounds(nx: int, ny: int, w: int, h: int)
    requires
        0 <= nx < w,
        0 <= ny < h,
    ensures
        0 <= nx + ny * w < w * h,
{
    assert(0 <= nx + ny * w < w * h) by (nonlinear_arith)
        requires
            0 <= nx < w,
            0 <= ny < h,
    ;
}

/// Whether the direction `d` resolves at `(x, y)` (1) or is rejected by
/// the grid edge (0).
pub open spec fn dir_resolvable(x: int, y: int, w: int, h: int, d: Neighbourhood) -> int {
    if dir_rejected(x, y, w, h, d) {
        0
    } else {
        1
    }
}

/// How many of the eight directions resolve at `(x, y)`.
pub open spec fn resolvable_directions(x: int, y: int, w: int, h: int) -> int {
    dir_resolvable(x, y, w, h, Neighbourhood::TopLeft) + dir_resolvable(
        x,
        y,
        w,
        h,
        Neighbourhood::Top,
    ) + dir_resolvable(x, y, w, h, Neighbourhood::TopRight) + dir_resolvable(
        x,
        y,
        w,
        h,
        Neighbourhood::Left,
    ) + dir_resolvable(x, y, w, h, Neighbourhood::Right) + dir_resolvable(
        x,
        y,
        w,
        h,
        Neighbourhood::BottomLeft,
    ) + dir_resolvable(x, y, w, h, Neighbourhood::Bottom) + dir_resolvable(
        x,
        y,
        w,
        h,
        Neighbourhood::BottomRight,
    )
}

/// Every direction at `(x, y)` is accepted exactly when it stays on the
/// grid.
proof fn lemma_all_dirs_iff(x: int, y: int, w: int, h: int)
    requires
        0 <= x < w,
        0 <= y < h,
    ensures
        forall|d: Neighbourhood|
            !(#[trigger] dir_rejected(x, y, w, h, d)) <==> (0 <= x + dir_offset(d).0 < w && 0 <= y
                + dir_offset(d).1 < h),
{
    assert forall|d: Neighbourhood|
        !(#[trigger] dir_rejected(x, y, w, h, d)) <==> (0 <= x + dir_offset(d).0 < w && 0 <= y
            + dir_offset(d).1 < h) by {
        lemma_accept_iff(x, y, w, h, d);
    }
}

/// On any grid with at least two columns and two rows, each of the four
/// corner cells has exactly 3 resolvable neighbour directions.
pub proof fn lemma_corner_directions(w: int, h: int)
    requires
        2 <= w,
        2 <= h,
    ensures
        resolvable_directions(0, 0, w, h) == 3,
        resolvable_directions(w - 1, 0, w, h) == 3,
        resolvable_directions(0, h - 1, w, h) == 3,
        resolvable_directions(w - 1, h - 1, w, h) == 3,
{
    lemma_all_dirs_iff(0, 0, w, h);
    lemma_all_dirs_iff(w - 1, 0, w, h);
    lemma_all_dirs_iff(0, h - 1, w, h);
    lemma_all_dirs_iff(w - 1, h - 1, w, h);
}

/// An edge cell that is not a corner has exactly 5 resolvable neighbour
/// directions.
pub proof fn lemma_edge_directions(x: int, y: int, w: int, h: int)
    requires
        2 <= w,
        2 <= h,
        0 <= x < w,
        0 <= y < h,
        x == 0 || x == w - 1 || y == 0 || y == h - 1,
        !((x == 0 || x == w - 1) && (y == 0 || y == h - 1)),
    ensures
        resolvable_directions(x, y, w, h) == 5,
{
    lemma_all_dirs_iff(x, y, w, h);
    if y == 0 {
        assert(resolvable_directions(x, y, w, h) == 5);
    } else if y == h - 1 {
        assert(resolvable_directions(x, y, w, h) == 5);
    } else if x == 0 {
        assert(resolvable_directions(x, y, w, h) == 5);
    } else {
        assert(resolvable_directions(x, y, w, h) == 5);
    }
}

/// An interior cell has all 8 neighbour directions resolvable.
pub proof fn lemma_interior_directions(x: int, y: int, w: int, h: int)
    requires
        1 <= x < w - 1,
        1 <= y < h - 1,
    ensures
        resolvable_directions(x, y, w, h) == 8,
{
    lemma_all_dirs_iff(x, y, w, h);
}

/// An accepted direction resolves to an index within the grid.
pub proof fn lemma_neighbour_in_range(x: int, y: int, w: int, h: int, d: Neighbourhood)
    requires
        0 <= x < w,
        0 <= y < h,
        !dir_rejected(x, y, w, h, d),
    ensures
        0 <= raw_index(x, y, w, d) < w * h,
{
    let dx = dir_offset(d).0;
    let dy = dir_offset(d).1;
    let nx = x + dx;
    let ny = y + dy;
    lemma_accept_iff(x, y, w, h, d);
    lemma_cell_index_bounds(nx, ny, w, h);
    assert(x + y * w + dx + dy * w == nx + ny * w) by (nonlinear_arith)
        requires
            nx == x + dx,
            ny == y + dy,
    ;
    assert(raw_index(x, y, w, d) == nx + ny * w);
}

/// One grid position with its life flags and the transient neighbour
/// counter used during the counting pass of a generation.
#[derive(Clone, Copy)]
pub struct Cell {
    pub position: Position,
    pub active: bool,
    pub was_active: bool,
    pub neighbours: u8,
}

impl Cell {
    /// Builds a cell at `(x, y)`; `was_active` always starts false.
    pub fn new(x: isize, y: isize, active: bool, neighbours: u8) -> (c: Cell)
        ensures
            c.position == (x, y),
            c.active == active,
            c.was_active == false,
            c.neighbours == neighbours,
    {
        Cell { position: (x, y), active: active, was_active: false, neighbours: neighbours }
    }

    /// Seeds this cell from one uniform draw: it becomes active exactly
    /// when the draw `treshold` does not exceed the density `value`.
    pub fn live_origins(&mut self, treshold: &u8, value: &u8)
        ensures
            final(self).active == (*treshold <= *value),
            final(self).position == old(self).position,
            final(self).was_active == old(self).was_active,
            final(self).neighbours == old(self).neighbours,
    {
        if *treshold <= *value {
            self.active = true;
        } else {
            self.active = false;
        }
    }

    /// Resolves the neighbour index of this cell in the given direction,
    /// per the bounded-grid edge conditions.
    pub fn get_neighbours_index(&self, width: isize, height: isize, direction: &Neighbourhood) -> (r:
        Option<isize>)
        requires
            0 <= self.position.0 < width,
            0 <= self.position.1 < height,
            (width as int) * (height as int) + (width as int) <= isize::MAX as int,
        ensures
            match r {
                Option::Some(i) => neighbour_index(
                    self.position.0 as int,
                    self.position.1 as int,
                    width as int,
                    height as int,
                    *direction,
                ) == Option::Some(i as int),
                Option::None => neighbour_index(
                    self.position.0 as int,
                    self.position.1 as int,
                    width as int,
                    height as int,
                    *direction,
                ) == Option::<int>::None,
            },
    {
        match direction {
            Neighbourhood::TopLeft => self.get_index(width, height, (-1, -1)),
            Neighbourhood::Top => self.get_index(width, height, (0, -1)),
            Neighbourhood::TopRight => self.get_index(width, height, (1, -1)),
            Neighbourhood::Left => self.get_index(width, height, (-1, 0)),
            Neighbourhood::Right => self.get_index(width, height, (1, 0)),
            Neighbourhood::BottomLeft => self.get_index(width, height, (-1, 1)),
            Neighbourhood::Bottom => self.get_index(width, height, (0, 1)),
            Neighbourhood::BottomRight => self.get_index(width, height, (1, 1)),
        }
    }

    /// Computes the candidate linear index for one unit offset and
    /// applies the per-direction edge rejections.
    fn get_index(&self, width: isize, height: isize, direction: Position) -> (r: Option<isize>)
        requires
            0 <= self.position.0 < width,
            0 <= self.position.1 < height,
            (width as int) * (height as int) + (width as int) <= isize::MAX as int,
            direction.0 == -1 || direction.0 == 0 || direction.0 == 1,
            direction.1 == -1 || direction.1 == 0 || direction.1 == 1,
            !(direction.0 == 0 && direction.1 == 0),
        ensures
            ({
                let d = offset_to_dir(direction.0 as int, direction.1 as int);
                let n = neighbour_index(
                    self.position.0 as int,
                    self.position.1 as int,
                    width as int,
                    height as int,
                    d,
                );
                match r {
                    Option::Some(i) => n == Option::Some(i as int),
                    Option::None => n == Option::<int>::None,
                }
            }),
    {
        proof {
            let x = self.position.0 as int;
            let y = self.position.1 as int;
            let w = width as int;
            let h = height as int;
            let dyi = direction.1 as int;
            assert(0 <= y * w && y * w <= h * w - w) by (nonlinear_arith)
                requires
                    0 <= y,
                    y <= h - 1,
                    0 < w,
            ;
            assert(-w <= dyi * w && dyi * w <= w) by (nonlinear_arith)
                requires
                    dyi == -1 || dyi == 0 || dyi == 1,
                    0 < w,
            ;
            assert(h * w == w * h) by (nonlinear_arith);
        }
        let end_col_token: isize = height - 1;
        let end_row_token: isize = width - 1;

        let basis: isize = self.position.0 + self.position.1 * width;
        let distance: isize = direction.0 + direction.1 * width;
        let index: isize = basis + distance;

        if direction.0 == -1 && direction.1 == -1 {
            if index < 0 || self.position.0 == 0 {
                Option::None
            } else {
                Option::Some(index)
            }
        } else if direction.0 == 0 && direction.1 == -1 {
            if index < 0 {
                Option::None
            } else {
                Option::Some(index)
            }
        } else if direction.0 == 1 && direction.1 == -1 {
            if index < 0 || self.position.0 == end_row_token {
                Option::None
            } else {
                Option::Some(index)
            }
        } else if direction.0 == -1 && direction.1 == 0 {
            if self.position.0 == 0 {
                Option::None
            } else {
                Option::Some(index)
            }
        } else if direction.0 == 1 && direction.1 == 0 {
            if self.position.0 == end_row_token {
                Option::None
            } else {
                Option::Some(index)
            }
        } else if direction.0 == -1 && direction.1 == 1 {
            if self.position.0 == 0 || self.position.1 == end_col_token {
                Option::None
            } else {
                Option::Some(index)
            }
        } else if direction.0 == 0 && direction.1 == 1 {
            if self.position.1 == end_col_token {
                Option::None
            } else {
                Option::Some(index)
            }
        } else {
            if self.position.0 == end_row_token || self.position.1 == end_col_token {
                Option::None
            } else {
                Option::Some(index)
            }
        }
    }

    /// Adds the given cell to this cell's neighbour count when it is
    /// active.
    pub fn count_as_active_neighbour(&mut self, cell: &Cell)
        requires
            old(self).neighbours < 255,
        ensures
            final(self).neighbours as int == old(self).neighbours as int + if cell.active {
                1int
            } else {
                0int
            },
            final(self).position == old(self).position,
            final(self).active == old(self).active,
            final(self).was_active == old(self).was_active,
    {
        if cell.active {
            self.neighbours += 1;
        }
    }

    /// Applies the Conway rule to this cell from its accumulated
    /// neighbour count, records the prior state in `was_active`, and
    /// resets the count.
    pub fn apply_conway_rules(&mut self)
        ensures
            final(self).active == conway_next(old(self).active, old(self).neighbours as int),
            final(self).was_active == old(self).active,
            final(self).neighbours == 0,
            final(self).position == old(self).position,
    {
        if (self.neighbours == 2 || self.neighbours == 3) && self.active {
            self.was_active = self.active;
            self.active = true;
        } else if self.neighbours == 3 && self.active == false {
            self.was_active = self.active;
            self.active = true;
        } else {
            self.was_active = self.active;
            self.active = false;
        }
        self.neighbours = 0;
    }
}

/// The Conway rule: an active cell survives with 2 or 3 active
/// neighbours, an inactive cell is born with exactly 3, and every other
/// count leaves the cell inactive.
pub open spec fn conway_next(active: bool, n: int) -> bool {
    if active {
        n == 2 || n == 3
    } else {
        n == 3
    }
}

/// The sequence of `active` flags of a grid, in row-major order.
pub open spec fn actives(cells: Seq<Cell>) -> Seq<bool> {
    Seq::new(cells.len(), |i: int| cells[i].active)
}

/// How many of the first `k` directions resolve, at index `i`, to an
/// active cell of `act`.
pub open spec fn live_neighbours_upto(act: Seq<bool>, w: int, h: int, i: int, k: int) -> int
    decreases k,
{
    if k <= 0 {
        0
    } else {
        live_neighbours_upto(act, w, h, i, k - 1) + live_in_dir(act, w, h, i, dir_seq()[k - 1])
    }
}

/// Whether the neighbour of cell `i` in direction `d` resolves to an
/// active cell of `act` (0 or 1).
pub open spec fn live_in_dir(act: Seq<bool>, w: int, h: int, i: int, d: Neighbourhood) -> int {
    match neighbour_index(i % w, i / w, w, h, d) {
        Option::Some(j) => if act[j] {
            1int
        } else {
            0int
        },
        Option::None => 0int,
    }
}

/// The number of active neighbours of cell `i` over all eight
/// directions.
pub open spec fn live_neighbours(act: Seq<bool>, w: int, h: int, i: int) -> int {
    live_neighbours_upto(act, w, h, i, 8)
}

/// A partial neighbour count stays between 0 and the number of
/// directions counted.
pub proof fn lemma_live_upto_bounds(act: Seq<bool>, w: int, h: int, i: int, k: int)
    requires
        0 <= k,
    ensures
        0 <= live_neighbours_upto(act, w, h, i, k) <= k,
    decreases k,
{
    if k > 0 {
        lemma_live_upto_bounds(act, w, h, i, k - 1);
    }
}

/// One rule pass over a whole grid of active flags: every cell moves to
/// its Conway successor under the bounded-grid neighbour count.
pub open spec fn step_active(act: Seq<bool>, w: int, h: int) -> Seq<bool> {
    Seq::new(act.len(), |i: int| conway_next(act[i], live_neighbours(act, w, h, i)))
}

/// How many of the first `k` flags are set.
pub open spec fn count_live_upto(act: Seq<bool>, k: int) -> int
    decreases k,
{
    if k <= 0 {
        0
    } else {
        count_live_upto(act, k - 1) + if act[k - 1] {
            1int
        } else {
            0int
        }
    }
}

/// The live population: how many flags of `act` are set.
pub open spec fn count_live(act: Seq<bool>) -> int {
    count_live_upto(act, act.len() as int)
}

/// A partial population count stays between 0 and the number of cells
/// counted.
pub proof fn lemma_count_live_bounds(act: Seq<bool>, k: int)
    requires
        0 <= k,
    ensures
        0 <= count_live_upto(act, k) <= k,
    decreases k,
{
    if k > 0 {
        lemma_count_live_bounds(act, k - 1);
    }
}

/// Whether any cell's active flag differs between the two states.
pub open spec fn grid_changed(before: Seq<bool>, after: Seq<bool>) -> bool {
    exists|i: int| 0 <= i < before.len() && after[i] != before[i]
}

/// The full grid of cells together with its dimensions, the generation
/// counter, and the reseed policy.
#[derive(Clone)]
pub struct Organism {
    pub epoch: usize,
    pub width: isize,
    pub height: isize,
    pub grid: Vec<Cell>,
}

impl Organism {
    /// The structural invariant: positive dimensions that leave linear
    /// index arithmetic within `isize`, a row-major grid of exactly
    /// `width * height` cells, and each cell at the position its index
    /// encodes.
    pub open spec fn wf(self) -> bool {
        &&& 1 <= self.width
        &&& 1 <= self.height
        &&& (self.width as int) * (self.height as int) + (self.width as int) <= isize::MAX as int
        &&& self.grid@.len() == (self.width as int) * (self.height as int)
        &&& forall|i: int|
            #![trigger self.grid@[i]]
            0 <= i < self.grid@.len() ==> {
                &&& 0 <= self.grid@[i].position.0 < self.width
                &&& 0 <= self.grid@[i].position.1 < self.height
                &&& self.grid@[i].position.0 as int == i % (self.width as int)
                &&& self.grid@[i].position.1 as int == i / (self.width as int)
            }
    }

    /// Every transient neighbour counter is back at zero, as it must be
    /// between generations.
    pub open spec fn counts_zero(self) -> bool {
        forall|i: int|
            0 <= i < self.grid@.len() ==> (#[trigger] self.grid@[i]).neighbours == 0
    }

    /// An empty organism; the grid is only populated by `builder`.
    pub fn new() -> (r: Organism)
        ensures
            r.epoch == 0,
            r.width == 0,
            r.height == 0,
            r.grid@.len() == 0,
    {
        Organism { epoch: 0, width: 0, height: 0, grid: Vec::new() }
    }

    /// Populates the grid with `width * height` inactive cells in
    /// row-major order.
    pub fn builder(&mut self, width: isize, height: isize)
        requires
            old(self).grid@.len() == 0,
            1 <= width,
            1 <= height,
            (width as int) * (height as int) + (width as int) <= isize::MAX as int,
        ensures
            final(self).wf(),
            final(self).counts_zero(),
            final(self).width == width,
            final(self).height == height,
            final(self).epoch == old(self).epoch,
            final(self).grid@.len() == (width as int) * (height as int),
            forall|i: int|
                0 <= i < final(self).grid@.len() ==> !(#[trigger] final(self).grid@[i]).active
                    && !final(self).grid@[i].was_active,
    {
        self.width = width;
        self.height = height;
        let mut n: isize = 0;
        while n < height
            invariant
                0 <= n <= height,
                1 <= width,
                1 <= height,
                (width as int) * (height as int) + (width as int) <= isize::MAX as int,
                self.width == width,
                self.height == height,
                self.epoch == old(self).epoch,
                self.grid@.len() == (n as int) * (width as int),
                forall|j: int|
                    #![trigger self.grid@[j]]
                    0 <= j < self.grid@.len() ==> {
                        &&& 0 <= self.grid@[j].position.0 < width
                        &&& 0 <= self.grid@[j].position.1 < height
                        &&& self.grid@[j].position.0 as int == j % (width as int)
                        &&& self.grid@[j].position.1 as int == j / (width as int)
                        &&& !self.grid@[j].active
                        &&& !self.grid@[j].was_active
                        &&& self.grid@[j].neighbours == 0
                    },
            decreases height - n,
        {
            proof {
                assert((n as int) * (width as int) + (width as int) == ((n as int) + 1) * (
                width as int) && ((n as int) + 1) * (width as int) <= (height as int) * (
                width as int)) by (nonlinear_arith)
                    requires
                        0 <= n as int,
                        (n as int) < height as int,
                        1 <= width as int,
                ;
                assert((height as int) * (width as int) == (width as int) * (height as int))
                    by (nonlinear_arith);
            }
            let mut m: isize = 0;
            while m < width
                invariant
                    0 <= m <= width,
                    0 <= n < height,
                    1 <= width,
                    1 <= height,
                    (width as int) * (height as int) + (width as int) <= isize::MAX as int,
                    (n as int) * (width as int) + (width as int) <= (width as int) * (
                    height as int),
                    self.width == width,
                    self.height == height,
                    self.epoch == old(self).epoch,
                    self.grid@.len() == (n as int) * (width as int) + (m as int),
                    forall|j: int|
                        #![trigger self.grid@[j]]
                        0 <= j < self.grid@.len() ==> {
                            &&& 0 <= self.grid@[j].position.0 < width
                            &&& 0 <= self.grid@[j].position.1 < height
                            &&& self.grid@[j].position.0 as int == j % (width as int)
                            &&& self.grid@[j].position.1 as int == j / (width as int)
                            &&& !self.grid@[j].active
                            &&& !self.grid@[j].was_active
                            &&& self.grid@[j].neighbours == 0
                        },
                decreases width - m,
            {
                proof {
                    lemma_fundamental_div_mod_converse(
                        (n as int) * (width as int) + (m as int),
                        width as int,
                        n as int,
                        m as int,
                    );
                }
                let cell = Cell::new(m, n, false, 0);
                self.grid.push(cell);
                m = m + 1;
            }
            n = n + 1;
        }
        proof {
            assert((height as int) * (width as int) == (width as int) * (height as int))
                by (nonlinear_arith);
        }
    }

    /// Reseeds every cell from an independent uniform draw against the
    /// density `value`. Only the `active` flags change. Each draw lies
    /// in [1, 100], so a density of 100 or more activates every cell
    /// and a density of 0 activates none; at densities in between each
    /// cell is free to come out either way, and nothing more is
    /// promised of a random seeding.
    pub fn rng_genesis(&mut self, value: &u8)
        ensures
            final(self).width == old(self).width,
            final(self).height == old(self).height,
            final(self).epoch == old(self).epoch,
            final(self).grid@.len() == old(self).grid@.len(),
            forall|i: int|
                0 <= i < final(self).grid@.len() ==> (#[trigger] final(self).grid@[i]).position
                    == old(self).grid@[i].position && final(self).grid@[i].was_active == old(
                    self,
                ).grid@[i].was_active && final(self).grid@[i].neighbours == old(
                    self,
                ).grid@[i].neighbours,
            *value >= 100 ==> forall|i: int|
                0 <= i < final(self).grid@.len() ==> (#[trigger] final(self).grid@[i]).active,
            *value == 0 ==> forall|i: int|
                0 <= i < final(self).grid@.len() ==> !(#[trigger] final(self).grid@[i]).active,
    {
        let mut i: usize = 0;
        while i < self.grid.len()
            invariant
                0 <= i <= self.grid@.len(),
                self.width == old(self).width,
                self.height == old(self).height,
                self.epoch == old(self).epoch,
                self.grid@.len() == old(self).grid@.len(),
                forall|j: int|
                    0 <= j < self.grid@.len() ==> (#[trigger] self.grid@[j]).position == old(
                        self,
                    ).grid@[j].position && self.grid@[j].was_active == old(
                        self,
                    ).grid@[j].was_active && self.grid@[j].neighbours == old(
                        self,
                    ).grid@[j].neighbours,
                *value >= 100 ==> forall|j: int|
                    0 <= j < i ==> (#[trigger] self.grid@[j]).active,
                *value == 0 ==> forall|j: int|
                    0 <= j < i ==> !(#[trigger] self.grid@[j]).active,
            decreases self.grid@.len() - i,
        {
            let treshold: u8 = draw_percent();
            self.grid[i].live_origins(&treshold, value);
            i = i + 1;
        }
    }
}

impl Organism {
    /// The counting pass: gives every cell the number of its resolved
    /// neighbours that are active, reading only the settled `active`
    /// flags of the prior generation.
    pub fn check_neighbourhood(&mut self)
        requires
            old(self).wf(),
            old(self).counts_zero(),
        ensures
            final(self).wf(),
            final(self).width == old(self).width,
            final(self).height == old(self).height,
            final(self).epoch == old(self).epoch,
            final(self).grid@.len() == old(self).grid@.len(),
            forall|i: int|
                #![trigger final(self).grid@[i]]
                0 <= i < final(self).grid@.len() ==> {
                    &&& final(self).grid@[i].position == old(self).grid@[i].position
                    &&& final(self).grid@[i].active == old(self).grid@[i].active
                    &&& final(self).grid@[i].was_active == old(self).grid@[i].was_active
                    &&& final(self).grid@[i].neighbours as int == live_neighbours(
                        actives(old(self).grid@),
                        old(self).width as int,
                        old(self).height as int,
                        i,
                    )
                },
    {
        let ghost act0 = actives(old(self).grid@);
        let ghost w = old(self).width as int;
        let ghost h = old(self).height as int;
        let width = self.width;
        let height = self.height;
        let dirs = Neighbourhood::iterator();
        let mut i: usize = 0;
        while i < self.grid.len()
            invariant
                0 <= i <= self.grid@.len(),
                self.wf(),
                self.width == old(self).width,
                self.height == old(self).height,
                width == self.width,
                height == self.height,
                w == width as int,
                h == height as int,
                self.epoch == old(self).epoch,
                self.grid@.len() == old(self).grid@.len(),
                act0 == actives(old(self).grid@),
                dirs@ == dir_seq(),
                forall|j: int|
                    #![trigger self.grid@[j]]
                    0 <= j < self.grid@.len() ==> {
                        &&& self.grid@[j].position == old(self).grid@[j].position
                        &&& self.grid@[j].active == old(self).grid@[j].active
                        &&& self.grid@[j].was_active == old(self).grid@[j].was_active
                    },
                forall|j: int|
                    #![trigger self.grid@[j]]
                    0 <= j < i ==> self.grid@[j].neighbours as int == live_neighbours(
                        act0,
                        w,
                        h,
                        j,
                    ),
                forall|j: int|
                    #![trigger self.grid@[j]]
                    i <= j < self.grid@.len() ==> self.grid@[j].neighbours == 0,
            decreases self.grid@.len() - i,
        {
            let mut d: usize = 0;
            while d < 8
                invariant
                    0 <= d <= 8,
                    0 <= i < self.grid@.len(),
                    self.wf(),
                    self.width == old(self).width,
                    self.height == old(self).height,
                    width == self.width,
                    height == self.height,
                    w == width as int,
                    h == height as int,
                    self.epoch == old(self).epoch,
                    self.grid@.len() == old(self).grid@.len(),
                    act0 == actives(old(self).grid@),
                    dirs@ == dir_seq(),
                    forall|j: int|
                        #![trigger self.grid@[j]]
                        0 <= j < self.grid@.len() ==> {
                            &&& self.grid@[j].position == old(self).grid@[j].position
                            &&& self.grid@[j].active == old(self).grid@[j].active
                            &&& self.grid@[j].was_active == old(self).grid@[j].was_active
                        },
                    forall|j: int|
                        #![trigger self.grid@[j]]
                        0 <= j < i ==> self.grid@[j].neighbours as int == live_neighbours(
                            act0,
                            w,
                            h,
                            j,
                        ),
                    forall|j: int|
                        #![trigger self.grid@[j]]
                        i < j < self.grid@.len() ==> self.grid@[j].neighbours == 0,
                    self.grid@[i as int].neighbours as int == live_neighbours_upto(
                        act0,
                        w,
                        h,
                        i as int,
                        d as int,
                    ),
                decreases 8 - d,
            {
                proof {
                    lemma_live_upto_bounds(act0, w, h, i as int, d as int);
                }
                let direction = dirs[d];
                let index = self.grid[i].get_neighbours_index(width, height, &direction);
                match index {
                    Option::Some(idx) => {
                        proof {
                            lemma_neighbour_in_range(
                                self.grid@[i as int].position.0 as int,
                                self.grid@[i as int].position.1 as int,
                                w,
                                h,
                                direction,
                            );
                        }
                        let cell_index: usize = idx as usize;
                        let cell: Cell = self.grid[cell_index];
                        self.grid[i].count_as_active_neighbour(&cell);
                    },
                    Option::None => {},
                }
                d = d + 1;
            }
            i = i + 1;
        }
    }

    /// The rule pass: applies the Conway rule to every cell from its
    /// accumulated neighbour count, records the prior state, and resets
    /// every count to zero.
    pub fn evoluate(&mut self)
        ensures
            final(self).counts_zero(),
            final(self).width == old(self).width,
            final(self).height == old(self).height,
            final(self).epoch == old(self).epoch,
            final(self).grid@.len() == old(self).grid@.len(),
            forall|i: int|
                #![trigger final(self).grid@[i]]
                0 <= i < final(self).grid@.len() ==> {
                    &&& final(self).grid@[i].position == old(self).grid@[i].position
                    &&& final(self).grid@[i].active == conway_next(
                        old(self).grid@[i].active,
                        old(self).grid@[i].neighbours as int,
                    )
                    &&& final(self).grid@[i].was_active == old(self).grid@[i].active
                    &&& final(self).grid@[i].neighbours == 0
                },
    {
        let mut i: usize = 0;
        while i < self.grid.len()
            invariant
                0 <= i <= self.grid@.len(),
                self.width == old(self).width,
                self.height == old(self).height,
                self.epoch == old(self).epoch,
                self.grid@.len() == old(self).grid@.len(),
                forall|j: int|
                    #![trigger self.grid@[j]]
                    0 <= j < i ==> {
                        &&& self.grid@[j].position == old(self).grid@[j].position
                        &&& self.grid@[j].active == conway_next(
                            old(self).grid@[j].active,
                            old(self).grid@[j].neighbours as int,
                        )
                        &&& self.grid@[j].was_active == old(self).grid@[j].active
                        &&& self.grid@[j].neighbours == 0
                    },
                forall|j: int|
                    #![trigger self.grid@[j]]
                    i <= j < self.grid@.len() ==> self.grid@[j] == old(self).grid@[j],
            decreases self.grid@.len() - i,
        {
            self.grid[i].apply_conway_rules();
            i = i + 1;
        }
    }

    /// The live population: how many cells are currently active.
    pub fn organism_state(&self) -> (r: usize)
        ensures
            r as int == count_live(actives(self.grid@)),
    {
        let mut life_state: usize = 0;
        let mut i: usize = 0;
        while i < self.grid.len()
            invariant
                0 <= i <= self.grid@.len(),
                life_state as int <= i as int,
                life_state as int == count_live_upto(actives(self.grid@), i as int),
            decreases self.grid@.len() - i,
        {
            if self.grid[i].active {
                life_state = life_state + 1;
            }
            i = i + 1;
        }
        life_state
    }

    /// Copies out the current active flags, in grid order.
    fn active_snapshot(&self) -> (r: Vec<bool>)
        ensures
            r@ == actives(self.grid@),
    {
        let mut r: Vec<bool> = Vec::new();
        let mut i: usize = 0;
        while i < self.grid.len()
            invariant
                0 <= i <= self.grid@.len(),
                r@.len() == i as int,
                forall|j: int| 0 <= j < i ==> r@[j] == self.grid@[j].active,
            decreases self.grid@.len() - i,
        {
            r.push(self.grid[i].active);
            i = i + 1;
        }
        proof {
            assert(r@ =~= actives(self.grid@));
        }
        r
    }

    /// Compares the current active flags against an earlier snapshot.
    fn unchanged_since(&self, before: &Vec<bool>) -> (r: bool)
        requires
            before@.len() == self.grid@.len(),
        ensures
            r == !grid_changed(before@, actives(self.grid@)),
    {
        let mut i: usize = 0;
        while i < self.grid.len()
            invariant
                0 <= i <= self.grid@.len(),
                before@.len() == self.grid@.len(),
                forall|j: int| 0 <= j < i ==> before@[j] == self.grid@[j].active,
            decreases self.grid@.len() - i,
        {
            if self.grid[i].active != before[i] {
                return false;
            }
            i = i + 1;
        }
        true
    }

    /// One-time construction followed by the first seeding: the only
    /// entry point that produces the very first generation.
    pub fn genesis(&mut self, width: isize, height: isize, life_degree: u8)
        requires
            old(self).grid@.len() == 0,
            1 <= width,
            1 <= height,
            (width as int) * (height as int) + (width as int) <= isize::MAX as int,
        ensures
            final(self).wf(),
            final(self).counts_zero(),
            final(self).width == width,
            final(self).height == height,
            final(self).epoch == old(self).epoch,
            final(self).grid@.len() == (width as int) * (height as int),
            forall|i: int|
                0 <= i < final(self).grid@.len()
                    ==> !(#[trigger] final(self).grid@[i]).was_active,
            life_degree >= 100 ==> forall|i: int|
                0 <= i < final(self).grid@.len() ==> (#[trigger] final(self).grid@[i]).active,
            life_degree == 0 ==> forall|i: int|
                0 <= i < final(self).grid@.len() ==> !(#[trigger] final(self).grid@[i]).active,
    {
        self.builder(width, height);
        self.rng_genesis(&life_degree);
    }

    /// Advances exactly one generation: counting pass, rule pass, then
    /// the reseed policy. The policy reseeds the grid with a fresh
    /// random density, and resets `epoch`, when the live population has
    /// fallen below 50, when the grid did not change at all, or when
    /// 1000 consecutive generations have passed; otherwise the grid is
    /// exactly one Conway step of the old one.
    pub fn on_epoch(&mut self)
        requires
            old(self).wf(),
            old(self).counts_zero(),
            old(self).epoch <= 999,
        ensures
            final(self).wf(),
            final(self).counts_zero(),
            final(self).epoch <= 999,
            final(self).width == old(self).width,
            final(self).height == old(self).height,
            final(self).grid@.len() == old(self).grid@.len(),
            forall|i: int|
                0 <= i < final(self).grid@.len() ==> (#[trigger] final(self).grid@[i]).position
                    == old(self).grid@[i].position && final(self).grid@[i].was_active == old(
                    self,
                ).grid@[i].active,
            ({
                let before = actives(old(self).grid@);
                let after = step_active(before, old(self).width as int, old(self).height as int);
                let reseed = count_live(after) < 50 || !grid_changed(before, after) || old(
                    self,
                ).epoch + 1 == 1000;
                &&& (reseed ==> final(self).epoch == 0)
                &&& (!reseed ==> final(self).epoch == old(self).epoch + 1 && (forall|i: int|
                    0 <= i < final(self).grid@.len()
                        ==> (#[trigger] final(self).grid@[i]).active == after[i]))
            }),
            old(self).grid@.len() < 50 ==> final(self).epoch == 0,
    {
        let ghost before_g = actives(old(self).grid@);
        let ghost w = old(self).width as int;
        let ghost h = old(self).height as int;
        let ghost after_g = step_active(before_g, w, h);

        let before = self.active_snapshot();
        self.epoch = self.epoch + 1;
        self.check_neighbourhood();
        self.evoluate();
        proof {
            assert(actives(self.grid@) =~= after_g);
            // a grid below the population floor can never escape a reseed
            lemma_count_live_bounds(after_g, after_g.len() as int);
        }
        let life_state = self.organism_state();
        let life_degree = draw_percent();
        let unchanged = self.unchanged_since(&before);

        if life_state < 50 {
            self.rng_genesis(&life_degree);
            self.epoch = 0;
        } else if unchanged {
            self.rng_genesis(&life_degree);
            self.epoch = 0;
        } else if self.epoch == 1000 {
            self.rng_genesis(&life_degree);
            self.epoch = 0;
        }
    }
}

/// Relies on `rand::thread_rng` and `rand::Rng::gen_range`: a uniform
/// sample from the half-open range `1..101`, which is non-empty, so the
/// call returns without panicking and the draw lies between 1 and 100.
#[verifier::external_body]
fn draw_percent() -> (r: u8)
    ensures
        1 <= r && r <= 100,
{
    rand::thread_rng().gen_range(1u8..101u8)
}

} // verus!
