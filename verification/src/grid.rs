//! The backplane of the simulation: one value per cell of a rectangular grid, addressed with
//! topology-aware coordinates.

use vstd::prelude::*;

use crate::config::GridTopology;

verus! {


/// `v` clamped into `lo..=hi`.
pub open spec fn spec_clamp(v: int, lo: int, hi: int) -> int {
    if v < lo {
        lo
    } else if v > hi {
        hi
    } else {
        v
    }
}

/// The in-grid coordinate that the coordinate `v` maps to on an axis of `n` cells.
pub open spec fn spec_map_coord(v: int, n: int, topology: GridTopology) -> int {
    match topology {
        GridTopology::Torus => v % n,
        GridTopology::Plane => spec_clamp(v, 0, n - 1),
    }
}

/// Maps the coordinate `v` onto an axis of `n` cells according to `topology`.
pub fn map_coord(v: i16, n: u16, topology: GridTopology) -> (r: u16)
    requires
        0 < n <= 32767,
    ensures
        r == spec_map_coord(v as int, n as int, topology),
        r < n,
{
    let signed_n: i16 = n as i16;
    match topology {
        GridTopology::Torus => {
            if 0 <= v && v < signed_n {
                proof {
                    vstd::arithmetic::div_mod::lemma_small_mod(v as nat, n as nat);
                }
                v as u16
            } else if v >= 0 {
                (v as u16) % n
            } else {
                let magnitude: u16 = (-(v as i32)) as u16;
                let rest: u16 = magnitude % n;
                proof {
                    lemma_neg_mod(magnitude as int, n as int);
                }
                if rest == 0 {
                    0
                } else {
                    n - rest
                }
            }
        },
        GridTopology::Plane => {
            if v < 0 {
                0
            } else if v > signed_n - 1 {
                n - 1
            } else {
                v as u16
            }
        },
    }
}

/// The Euclidean remainder of a negated number, from the remainder of the number.
proof fn lemma_neg_mod(a: int, n: int)
    requires
        n > 0,
        a >= 0,
    ensures
        (-a) % n == if a % n == 0 { 0 } else { n - a % n },
{
    vstd::arithmetic::div_mod::lemma_fundamental_div_mod(a, n);
    let q = a / n;
    let r = a % n;
    assert((-q) * n == -(n * q)) by (nonlinear_arith);
    assert((-q - 1) * n == -(n * q) - n) by (nonlinear_arith);
    if r == 0 {
        vstd::arithmetic::div_mod::lemma_fundamental_div_mod_converse(-a, n, -q, 0);
    } else {
        vstd::arithmetic::div_mod::lemma_fundamental_div_mod_converse(-a, n, -q - 1, n - r);
    }
}


/// Every coordinate maps into the axis, and a coordinate inside the axis maps to itself,
/// whatever the topology.
pub proof fn lemma_map_coord_in_axis(v: int, n: int, topology: GridTopology)
    requires
        n > 0,
    ensures
        0 <= spec_map_coord(v, n, topology) < n,
        0 <= v < n ==> spec_map_coord(v, n, topology) == v,
{
    if 0 <= v < n {
        vstd::arithmetic::div_mod::lemma_small_mod(v as nat, n as nat);
    }
}

/// On a torus, a coordinate one axis length further maps to the same cell: what leaves one
/// edge comes back at the opposite edge.
pub proof fn lemma_torus_wraps(v: int, n: int)
    requires
        n > 0,
    ensures
        spec_map_coord(v + n, n, GridTopology::Torus) == spec_map_coord(v, n, GridTopology::Torus),
        spec_map_coord(-1, n, GridTopology::Torus) == n - 1,
{
    vstd::arithmetic::div_mod::lemma_mod_add_multiples_vanish(v, n);
    vstd::arithmetic::div_mod::lemma_fundamental_div_mod_converse(-1, n, -1, n - 1);
}

/// On a plane, coordinates beyond an edge map to the cell at that edge.
pub proof fn lemma_plane_clamps(v: int, n: int)
    requires
        n > 0,
    ensures
        v < 0 ==> spec_map_coord(v, n, GridTopology::Plane) == 0,
        v >= n ==> spec_map_coord(v, n, GridTopology::Plane) == n - 1,
{
}

/// `y1 * w + x1` and `y2 * w + x2` name the same cell only when the coordinates are equal.
pub proof fn lemma_cell_index_injective(w: int, x1: int, y1: int, x2: int, y2: int)
    requires
        0 <= x1 < w,
        0 <= x2 < w,
        y1 * w + x1 == y2 * w + x2,
    ensures
        x1 == x2,
        y1 == y2,
{
    if y1 < y2 {
        assert(y1 * w + w <= y2 * w) by (nonlinear_arith)
            requires
                y1 < y2,
                w > 0,
        ;
    } else if y2 < y1 {
        assert(y2 * w + w <= y1 * w) by (nonlinear_arith)
            requires
                y2 < y1,
                w > 0,
        ;
    }
}

/// A cell in the grid has a flat index inside the cell vector.
pub proof fn lemma_cell_index_bounds(w: int, h: int, x: int, y: int)
    requires
        0 <= x < w,
        0 <= y < h,
        w <= 32767,
        h <= 32767,
    ensures
        0 <= y * w + x < w * h,
        w * h < 0x4000_0000,
        0 <= y * w <= y * w + w <= w * h,
{
    assert(0 <= y * w) by (nonlinear_arith)
        requires
            0 <= y,
            0 <= w,
    ;
    assert(y * w + w <= w * h) by (nonlinear_arith)
        requires
            y < h,
            0 <= w,
    ;
    assert(w * h <= 32767 * 32767) by (nonlinear_arith)
        requires
            0 <= w <= 32767,
            0 <= h <= 32767,
    ;
}

/// The cells of a grid, stored row by row.
pub struct Grid<T> {
    /// Number of cells per row.
    width: u16,
    /// Number of rows.
    height: u16,
    /// The cells, row `y` occupying the indices `y * width .. (y + 1) * width`.
    cells: Vec<T>,
    /// How coordinates outside the grid are mapped onto it.
    topology: GridTopology,
}

impl<T> View for Grid<T> {
    type V = Seq<T>;

    closed spec fn view(&self) -> Seq<T> {
        self.cells@
    }
}

impl<T: Copy> Grid<T> {
    /// Number of cells per row.
    pub closed spec fn spec_width(&self) -> int {
        self.width as int
    }

    /// Number of rows.
    pub closed spec fn spec_height(&self) -> int {
        self.height as int
    }

    /// How coordinates outside the grid are mapped onto it.
    pub closed spec fn spec_topology(&self) -> GridTopology {
        self.topology
    }

    /// The dimensions are within the grid's limits and every cell is present.
    pub open spec fn wf(&self) -> bool {
        &&& 2 < self.spec_width() <= 32767
        &&& 2 < self.spec_height() <= 32767
        &&& self@.len() == self.spec_width() * self.spec_height()
    }

    /// The cell in column `x` of row `y`.
    pub open spec fn at(&self, x: int, y: int) -> T {
        self@[y * self.spec_width() + x]
    }

    /// The flat index of the cell that the coordinates `(x, y)` map to.
    pub open spec fn cell_index(&self, x: int, y: int) -> int {
        spec_map_coord(y, self.spec_height(), self.spec_topology()) * self.spec_width() + spec_map_coord(
            x,
            self.spec_width(),
            self.spec_topology(),
        )
    }

    /// The cells of row `row` in the columns `c0`, `c1` and `c2`, in that order.
    pub open spec fn window(&self, row: int, c0: int, c1: int, c2: int) -> Seq<T> {
        seq![self.at(c0, row), self.at(c1, row), self.at(c2, row)]
    }

    /// `out` is what `kernel` gives for the 3x3 neighbourhood of cell `(x, y)` of this grid,
    /// the neighbours taken through the grid's topology.
    pub open spec fn blurred<D, F: Fn([T; 3], [T; 3], [T; 3], D) -> T>(
        &self,
        kernel: F,
        decay_factor: D,
        x: int,
        y: int,
        out: T,
    ) -> bool {
        let w = self.spec_width();
        let h = self.spec_height();
        let left = spec_map_coord(x - 1, w, self.spec_topology());
        let right = spec_map_coord(x + 1, w, self.spec_topology());
        let up = spec_map_coord(y - 1, h, self.spec_topology());
        let down = spec_map_coord(y + 1, h, self.spec_topology());
        forall|top: [T; 3], mid: [T; 3], bot: [T; 3]|
            top@ == self.window(up, left, x, right) && mid@ == self.window(y, left, x, right)
                && bot@ == self.window(down, left, x, right) ==> #[trigger] call_ensures(
                kernel,
                (top, mid, bot, decay_factor),
                out,
            )
    }

    /// Creates a grid of `width` x `height` cells, each holding `fill`.
    pub fn new(width: u16, height: u16, topology: GridTopology, fill: T) -> (grid: Self)
        requires
            2 < width <= 32767,
            2 < height <= 32767,
        ensures
            grid.wf(),
            grid.spec_width() == width,
            grid.spec_height() == height,
            grid.spec_topology() == topology,
            forall|i: int| 0 <= i < grid@.len() ==> grid@[i] == fill,
    {
        proof {
            lemma_cell_index_bounds(width as int, height as int, 0, 0);
        }
        let total: usize = (width as usize) * (height as usize);
        let mut cells: Vec<T> = Vec::with_capacity(total);
        while cells.len() < total
            invariant
                cells.len() <= total,
                forall|i: int| 0 <= i < cells.len() ==> cells@[i] == fill,
            decreases total - cells.len(),
        {
            cells.push(fill);
        }
        Grid { width, height, cells, topology }
    }

    /// Changes how coordinates outside the grid are mapped onto it.
    pub fn set_topology(&mut self, topology: GridTopology)
        ensures
            final(self)@ == old(self)@,
            final(self).spec_width() == old(self).spec_width(),
            final(self).spec_height() == old(self).spec_height(),
            final(self).spec_topology() == topology,
    {
        self.topology = topology;
    }

    /// All cells, row by row.
    pub fn cells(&self) -> (cells: &[T])
        ensures
            cells@ == self@,
    {
        self.cells.as_slice()
    }

    /// Maps a row coordinate onto the grid according to its topology.
    pub fn map_row(&self, y: i16) -> (row: u16)
        requires
            self.wf(),
        ensures
            row == spec_map_coord(y as int, self.spec_height(), self.spec_topology()),
            row < self.spec_height(),
    {
        map_coord(y, self.height, self.topology)
    }

    /// Maps a column coordinate onto the grid according to its topology.
    pub fn map_col(&self, x: i16) -> (col: u16)
        requires
            self.wf(),
        ensures
            col == spec_map_coord(x as int, self.spec_width(), self.spec_topology()),
            col < self.spec_width(),
    {
        map_coord(x, self.width, self.topology)
    }

    /// Row `y`, or `None` where the grid has no such row.
    pub fn row(&self, y: usize) -> (row: Option<&[T]>)
        requires
            self.wf(),
        ensures
            match row {
                None => y >= self.spec_height(),
                Some(cells) => y < self.spec_height() && cells@ == self@.subrange(
                    y * self.spec_width(),
                    y * self.spec_width() + self.spec_width(),
                ),
            },
    {
        if y >= self.height as usize {
            return None;
        }
        let width = self.width as usize;
        proof {
            lemma_cell_index_bounds(width as int, self.height as int, 0, y as int);
        }
        let start = y * width;
        Some(vstd::slice::slice_subrange(self.cells.as_slice(), start, start + width))
    }

    /// The flat index of the cell that the coordinates `(x, y)` map to; coordinates outside the
    /// grid are mapped according to its topology.
    pub fn index(&self, x: i16, y: i16) -> (index: usize)
        requires
            self.wf(),
        ensures
            index == self.cell_index(x as int, y as int),
            0 <= index < self@.len(),
    {
        let col = self.map_col(x);
        let row = self.map_row(y);
        proof {
            lemma_cell_index_bounds(self.width as int, self.height as int, col as int, row as int);
        }
        (row as usize) * (self.width as usize) + (col as usize)
    }

    /// The cell that the coordinates `(x, y)` map to.
    pub fn cell(&self, x: i16, y: i16) -> (cell: &T)
        requires
            self.wf(),
        ensures
            0 <= self.cell_index(x as int, y as int) < self@.len(),
            *cell == self@[self.cell_index(x as int, y as int)],
    {
        let index = self.index(x, y);
        &self.cells[index]
    }

    /// The cell that the coordinates `(x, y)` map to, for writing.
    pub fn cell_mut(&mut self, x: i16, y: i16) -> (cell: &mut T)
        requires
            old(self).wf(),
        ensures
            0 <= old(self).cell_index(x as int, y as int) < old(self)@.len(),
            *cell == old(self)@[old(self).cell_index(x as int, y as int)],
            final(self)@ == old(self)@.update(
                old(self).cell_index(x as int, y as int),
                *final(cell),
            ),
            final(self).spec_width() == old(self).spec_width(),
            final(self).spec_height() == old(self).spec_height(),
            final(self).spec_topology() == old(self).spec_topology(),
    {
        let index = self.index(x, y);
        &mut self.cells[index]
    }

    /// The cell in column `x` of row `y`, both inside the grid.
    fn get(&self, x: u16, y: u16) -> (cell: T)
        requires
            self.wf(),
            x < self.spec_width(),
            y < self.spec_height(),
        ensures
            cell == self.at(x as int, y as int),
    {
        proof {
            lemma_cell_index_bounds(self.width as int, self.height as int, x as int, y as int);
        }
        self.cells[(y as usize) * (self.width as usize) + (x as usize)]
    }

    /// Fills this grid with the blurred cells of `read_buffer`: each cell becomes what `kernel`
    /// gives for the 3x3 neighbourhood of the same cell in `read_buffer` (top, middle and bottom
    /// row, each from left to right) and `decay_factor`. Neighbours outside the grid are taken
    /// through the topology of `read_buffer`.
    pub fn blur<D: Copy, F: Fn([T; 3], [T; 3], [T; 3], D) -> T>(
        &mut self,
        read_buffer: &Self,
        decay_factor: D,
        kernel: F,
    )
        requires
            old(self).wf(),
            read_buffer.wf(),
            old(self).spec_width() == read_buffer.spec_width(),
            old(self).spec_height() == read_buffer.spec_height(),
            old(self).spec_width() % 64 == 0,
            forall|top: [T; 3], mid: [T; 3], bot: [T; 3]|
                kernel.requires((top, mid, bot, decay_factor)),
        ensures
            final(self).wf(),
            final(self).spec_width() == old(self).spec_width(),
            final(self).spec_height() == old(self).spec_height(),
            final(self).spec_topology() == old(self).spec_topology(),
            forall|x: int, y: int|
                0 <= x < final(self).spec_width() && 0 <= y < final(self).spec_height()
                    ==> read_buffer.blurred(kernel, decay_factor, x, y, #[trigger] final(self).at(x, y)),
    {
        broadcast use vstd::array::group_array_axioms;

        let width = self.width;
        let height = self.height;
        let mut y: u16 = 0;
        while y < height
            invariant
                self.wf(),
                read_buffer.wf(),
                self.width == width,
                self.height == height,
                self.topology == old(self).topology,
                read_buffer.width == width,
                read_buffer.height == height,
                0 <= y <= height,
                forall|top: [T; 3], mid: [T; 3], bot: [T; 3]|
                    kernel.requires((top, mid, bot, decay_factor)),
                forall|xx: int, yy: int|
                    0 <= xx < width && 0 <= yy < y ==> read_buffer.blurred(
                        kernel,
                        decay_factor,
                        xx,
                        yy,
                        #[trigger] self.at(xx, yy),
                    ),
            decreases height - y,
        {
            let up = read_buffer.map_row(y as i16 - 1);
            let down = read_buffer.map_row(y as i16 + 1);
            let mut x: u16 = 0;
            while x < width
                invariant
                    self.wf(),
                    read_buffer.wf(),
                    self.width == width,
                    self.height == height,
                    self.topology == old(self).topology,
                    read_buffer.width == width,
                    read_buffer.height == height,
                    0 <= y < height,
                    0 <= x <= width,
                    up == spec_map_coord(y - 1, height as int, read_buffer.topology),
                    down == spec_map_coord(y + 1, height as int, read_buffer.topology),
                    up < height,
                    down < height,
                    forall|top: [T; 3], mid: [T; 3], bot: [T; 3]|
                        kernel.requires((top, mid, bot, decay_factor)),
                    forall|xx: int, yy: int|
                        0 <= xx < width && 0 <= yy < y ==> read_buffer.blurred(
                            kernel,
                            decay_factor,
                            xx,
                            yy,
                            #[trigger] self.at(xx, yy),
                        ),
                    forall|xx: int|
                        0 <= xx < x ==> read_buffer.blurred(
                            kernel,
                            decay_factor,
                            xx,
                            y as int,
                            #[trigger] self.at(xx, y as int),
                        ),
                decreases width - x,
            {
                let left = read_buffer.map_col(x as i16 - 1);
                let right = read_buffer.map_col(x as i16 + 1);
                let top = [read_buffer.get(left, up), read_buffer.get(x, up), read_buffer.get(right, up)];
                let mid = [read_buffer.get(left, y), read_buffer.get(x, y), read_buffer.get(right, y)];
                let bot = [
                    read_buffer.get(left, down),
                    read_buffer.get(x, down),
                    read_buffer.get(right, down),
                ];
                let value = kernel(top, mid, bot, decay_factor);
                proof {
                    lemma_cell_index_bounds(width as int, height as int, x as int, y as int);
                    assert(top@ =~= read_buffer.window(up as int, left as int, x as int, right as int));
                    assert(mid@ =~= read_buffer.window(y as int, left as int, x as int, right as int));
                    assert(bot@ =~= read_buffer.window(down as int, left as int, x as int, right as int));
                }
                let index = (y as usize) * (width as usize) + (x as usize);
                let ghost before = self.cells@;
                let ghost previous = *self;
                self.cells.set(index, value);
                proof {
                    assert forall|t: [T; 3], m: [T; 3], b: [T; 3]|
                        t@ == read_buffer.window(up as int, left as int, x as int, right as int)
                            && m@ == read_buffer.window(y as int, left as int, x as int, right as int)
                            && b@ == read_buffer.window(down as int, left as int, x as int, right as int)
                        implies #[trigger] call_ensures(kernel, (t, m, b, decay_factor), value) by {
                        assert(t =~= top);
                        assert(m =~= mid);
                        assert(b =~= bot);
                    }
                    assert(self.at(x as int, y as int) == value);
                    assert forall|xx: int, yy: int|
                        0 <= xx < width && 0 <= yy <= y && (yy < y || xx < x) implies read_buffer.blurred(
                            kernel,
                            decay_factor,
                            xx,
                            yy,
                            #[trigger] self.at(xx, yy),
                        ) by {
                        lemma_cell_index_bounds(width as int, height as int, xx, yy);
                        if yy * width + xx == y * width + x {
                            lemma_cell_index_injective(width as int, xx, yy, x as int, y as int);
                        }
                        assert(self.at(xx, yy) == previous.at(xx, yy));
                    }
                }
                x = x + 1;
            }
            y = y + 1;
        }
    }
}

/// The neighbour of coordinate `v` one step back along an axis of `n` cells: the previous
/// cell, or at the first cell the last one on a torus and the first one itself on a plane.
proof fn lemma_previous_neighbour(v: int, n: int, topology: GridTopology)
    requires
        0 <= v < n,
    ensures
        spec_map_coord(v - 1, n, topology) == if v > 0 {
            v - 1
        } else if topology == GridTopology::Torus {
            n - 1
        } else {
            0
        },
{
    if v > 0 {
        lemma_map_coord_in_axis(v - 1, n, topology);
    } else {
        lemma_torus_wraps(0, n);
    }
}

/// The neighbour of coordinate `v` one step forward along an axis of `n` cells: the next
/// cell, or at the last cell the first one on a torus and the last one itself on a plane.
proof fn lemma_next_neighbour(v: int, n: int, topology: GridTopology)
    requires
        0 <= v < n,
    ensures
        spec_map_coord(v + 1, n, topology) == if v < n - 1 {
            v + 1
        } else if topology == GridTopology::Torus {
            0
        } else {
            n - 1
        },
{
    if v < n - 1 {
        lemma_map_coord_in_axis(v + 1, n, topology);
    } else {
        vstd::arithmetic::div_mod::lemma_mod_self_0(n);
    }
}

/// What blurring a cell means: `out` is a blurred value for cell `(x, y)` exactly when the
/// kernel ensures it for the three rows above, at and below the cell (top, middle, bottom),
/// each holding the cells left of, at and right of column `x`. The row above the first row
/// and the row below the last row are the last and the first row on a torus, and the edge
/// row itself on a plane; columns likewise.
pub proof fn lemma_blur_neighbourhood<T: Copy, D, F: Fn([T; 3], [T; 3], [T; 3], D) -> T>(
    grid: &Grid<T>,
    kernel: F,
    decay_factor: D,
    x: int,
    y: int,
    out: T,
)
    requires
        grid.wf(),
        0 <= x < grid.spec_width(),
        0 <= y < grid.spec_height(),
    ensures
        ({
            let w = grid.spec_width();
            let h = grid.spec_height();
            let torus = grid.spec_topology() == GridTopology::Torus;
            let left = if x > 0 {
                x - 1
            } else if torus {
                w - 1
            } else {
                0
            };
            let right = if x < w - 1 {
                x + 1
            } else if torus {
                0
            } else {
                w - 1
            };
            let up = if y > 0 {
                y - 1
            } else if torus {
                h - 1
            } else {
                0
            };
            let down = if y < h - 1 {
                y + 1
            } else if torus {
                0
            } else {
                h - 1
            };
            grid.blurred(kernel, decay_factor, x, y, out) <==> forall|top: [T; 3], mid: [T; 3], bot: [T; 3]|
                top@ == seq![grid.at(left, up), grid.at(x, up), grid.at(right, up)] && mid@ == seq![
                    grid.at(left, y),
                    grid.at(x, y),
                    grid.at(right, y),
                ] && bot@ == seq![grid.at(left, down), grid.at(x, down), grid.at(right, down)]
                    ==> #[trigger] call_ensures(kernel, (top, mid, bot, decay_factor), out)
        }),
{
    let w = grid.spec_width();
    let h = grid.spec_height();
    let t = grid.spec_topology();
    lemma_previous_neighbour(x, w, t);
    lemma_next_neighbour(x, w, t);
    lemma_previous_neighbour(y, h, t);
    lemma_next_neighbour(y, h, t);
}

/// A blurred interior cell sees exactly the 3x3 block of cells centred on it: for
/// `0 < x < w - 1` and `0 < y < h - 1` the kernel gets rows `y - 1`, `y`, `y + 1` and columns
/// `x - 1`, `x`, `x + 1`, whatever the topology.
pub proof fn lemma_blur_interior<T: Copy, D, F: Fn([T; 3], [T; 3], [T; 3], D) -> T>(
    grid: &Grid<T>,
    kernel: F,
    decay_factor: D,
    x: int,
    y: int,
    out: T,
    top: [T; 3],
    mid: [T; 3],
    bot: [T; 3],
)
    requires
        grid.wf(),
        0 < x < grid.spec_width() - 1,
        0 < y < grid.spec_height() - 1,
        grid.blurred(kernel, decay_factor, x, y, out),
        top@ == seq![grid.at(x - 1, y - 1), grid.at(x, y - 1), grid.at(x + 1, y - 1)],
        mid@ == seq![grid.at(x - 1, y), grid.at(x, y), grid.at(x + 1, y)],
        bot@ == seq![grid.at(x - 1, y + 1), grid.at(x, y + 1), grid.at(x + 1, y + 1)],
    ensures
        call_ensures(kernel, (top, mid, bot, decay_factor), out),
{
    lemma_blur_neighbourhood(grid, kernel, decay_factor, x, y, out);
}

/// Coordinates inside the grid name their own cell, row by row; on a torus, coordinates one
/// width to the right or one height further down name the same cell, and on a plane
/// coordinates beyond an edge name the cell at that edge.
pub proof fn lemma_cell_index_addresses<T: Copy>(grid: &Grid<T>, x: int, y: int)
    requires
        grid.wf(),
        0 <= x < grid.spec_width(),
        0 <= y < grid.spec_height(),
    ensures
        grid.cell_index(x, y) == y * grid.spec_width() + x,
        grid.spec_topology() == GridTopology::Torus ==> grid.cell_index(x + grid.spec_width(), y)
            == grid.cell_index(x, y) && grid.cell_index(x, y + grid.spec_height()) == grid.cell_index(
            x,
            y,
        ),
        grid.spec_topology() == GridTopology::Plane ==> grid.cell_index(-1, y) == y
            * grid.spec_width() && grid.cell_index(x, grid.spec_height()) == (grid.spec_height() - 1)
            * grid.spec_width() + x,
{
    let w = grid.spec_width();
    let h = grid.spec_height();
    let t = grid.spec_topology();
    lemma_map_coord_in_axis(x, w, t);
    lemma_map_coord_in_axis(y, h, t);
    lemma_torus_wraps(x, w);
    lemma_torus_wraps(y, h);
}

} // verus!
