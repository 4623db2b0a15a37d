//! The run-time state of the whole simulation: two grids that take turns being read and
//! written, and the world parameters that act on them.

use vstd::prelude::*;

use crate::config::WorldConfig;
use crate::grid::Grid;

verus! {

/// `end` is `start` after combining, in order, each value of `values` into the cell of the
/// index at the same position of `targets`; a combination of a cell `c` with a value `v` may
/// give any `r` for which `combine` ensures `(c, v) -> r`.
pub open spec fn deposited<T, V, F: Fn(T, V) -> T>(
    start: Seq<T>,
    end: Seq<T>,
    targets: Seq<int>,
    values: Seq<V>,
    combine: F,
) -> bool
    decreases targets.len(),
{
    if targets.len() == 0 {
        end == start
    } else {
        let last = targets.len() - 1;
        exists|mid: Seq<T>, r: T|
            #![trigger call_ensures(combine, (mid[targets[last]], values[last]), r)]
            deposited(start, mid, targets.take(last), values.take(last), combine)
                && call_ensures(combine, (mid[targets[last]], values[last]), r) && end == mid.update(
                targets[last],
                r,
            )
    }
}

/// One more combination extends a deposit trace.
proof fn lemma_deposited_step<T, V, F: Fn(T, V) -> T>(
    start: Seq<T>,
    mid: Seq<T>,
    targets: Seq<int>,
    values: Seq<V>,
    combine: F,
    r: T,
)
    requires
        targets.len() > 0,
        deposited(start, mid, targets.take(targets.len() - 1), values.take(targets.len() - 1), combine),
        call_ensures(combine, (mid[targets[targets.len() - 1]], values[targets.len() - 1]), r),
    ensures
        deposited(start, mid.update(targets[targets.len() - 1], r), targets, values, combine),
{
    let last = targets.len() - 1;
    let end = mid.update(targets[last], r);
    assert(deposited(start, mid, targets.take(last), values.take(last), combine)
        && call_ensures(combine, (mid[targets[last]], values[last]), r) && end == mid.update(targets[last], r));
}

/// Without deposits the cells stay as they are.
pub proof fn lemma_deposited_none<T, V, F: Fn(T, V) -> T>(
    start: Seq<T>,
    end: Seq<T>,
    targets: Seq<int>,
    values: Seq<V>,
    combine: F,
)
    requires
        deposited(start, end, targets, values, combine),
        targets.len() == 0,
    ensures
        end == start,
{
}

/// A deposit trace of at least one deposit is a shorter trace followed by the last combination.
pub proof fn lemma_deposited_last<T, V, F: Fn(T, V) -> T>(
    start: Seq<T>,
    end: Seq<T>,
    targets: Seq<int>,
    values: Seq<V>,
    combine: F,
) -> (witness: (Seq<T>, T))
    requires
        deposited(start, end, targets, values, combine),
        targets.len() > 0,
    ensures
        deposited(start, witness.0, targets.drop_last(), values.take(targets.len() - 1), combine),
        call_ensures(
            combine,
            (witness.0[targets.last()], values[targets.len() - 1]),
            witness.1,
        ),
        end == witness.0.update(targets.last(), witness.1),
{
    let last = targets.len() - 1;
    let (mid, r) = choose|mid: Seq<T>, r: T|
        #![trigger call_ensures(combine, (mid[targets[last]], values[last]), r)]
        deposited(start, mid, targets.take(last), values.take(last), combine) && call_ensures(
            combine,
            (mid[targets[last]], values[last]),
            r,
        ) && end == mid.update(targets[last], r);
    assert(targets.take(last) =~= targets.drop_last());
    (mid, r)
}

/// A cell that no deposit lands on keeps its value.
pub proof fn lemma_deposited_untouched<T, V, F: Fn(T, V) -> T>(
    start: Seq<T>,
    end: Seq<T>,
    targets: Seq<int>,
    values: Seq<V>,
    combine: F,
    cell: int,
)
    requires
        deposited(start, end, targets, values, combine),
        0 <= cell < start.len(),
        forall|k: int| 0 <= k < targets.len() ==> 0 <= #[trigger] targets[k] < start.len(),
        forall|k: int| 0 <= k < targets.len() ==> #[trigger] targets[k] != cell,
    ensures
        end[cell] == start[cell],
    decreases targets.len(),
{
    if targets.len() > 0 {
        let last = targets.len() - 1;
        let (mid, r) = choose|mid: Seq<T>, r: T|
            #![trigger call_ensures(combine, (mid[targets[last]], values[last]), r)]
            deposited(start, mid, targets.take(last), values.take(last), combine)
                && call_ensures(combine, (mid[targets[last]], values[last]), r) && end == mid.update(
                targets[last],
                r,
            );
        assert forall|k: int| 0 <= k < targets.take(last).len() implies #[trigger] targets.take(
            last,
        )[k] != cell && 0 <= targets.take(last)[k] < start.len() by {
            assert(targets.take(last)[k] == targets[k]);
        }
        lemma_deposited_len(start, mid, targets.take(last), values.take(last), combine);
        lemma_deposited_untouched(start, mid, targets.take(last), values.take(last), combine, cell);
        assert(targets[last] != cell);
    }
}

/// The length of the cells stays the same through any number of deposits that land inside.
pub proof fn lemma_deposited_len<T, V, F: Fn(T, V) -> T>(
    start: Seq<T>,
    end: Seq<T>,
    targets: Seq<int>,
    values: Seq<V>,
    combine: F,
)
    requires
        deposited(start, end, targets, values, combine),
        forall|k: int| 0 <= k < targets.len() ==> 0 <= #[trigger] targets[k] < start.len(),
    ensures
        end.len() == start.len(),
    decreases targets.len(),
{
    if targets.len() > 0 {
        let last = targets.len() - 1;
        let (mid, r) = choose|mid: Seq<T>, r: T|
            #![trigger call_ensures(combine, (mid[targets[last]], values[last]), r)]
            deposited(start, mid, targets.take(last), values.take(last), combine)
                && call_ensures(combine, (mid[targets[last]], values[last]), r) && end == mid.update(
                targets[last],
                r,
            );
        assert forall|k: int| 0 <= k < targets.take(last).len() implies 0 <= #[trigger] targets.take(
            last,
        )[k] < start.len() by {
            assert(targets.take(last)[k] == targets[k]);
        }
        lemma_deposited_len(start, mid, targets.take(last), values.take(last), combine);
        assert(0 <= targets[last] < start.len());
    }
}

/// The flat cell indices that the deposit coordinates map to on `grid`.
pub open spec fn deposit_targets<T: Copy, V>(grid: Grid<T>, deposits: Seq<(i16, i16, V)>) -> Seq<
    int,
> {
    Seq::new(deposits.len(), |i: int| grid.cell_index(deposits[i].0 as int, deposits[i].1 as int))
}

/// The values of the deposits.
pub open spec fn deposit_values<V>(deposits: Seq<(i16, i16, V)>) -> Seq<V> {
    Seq::new(deposits.len(), |i: int| deposits[i].2)
}

/// Every deposit has exactly one target and one value, in the order of the deposits: the
/// `k`-th target is the cell that the `k`-th deposit's coordinates map to on the grid, and the
/// `k`-th value is that deposit's value.
pub proof fn lemma_every_deposit_counts<T: Copy, V>(grid: Grid<T>, deposits: Seq<(i16, i16, V)>)
    ensures
        deposit_targets(grid, deposits).len() == deposits.len(),
        deposit_values(deposits).len() == deposits.len(),
        forall|k: int|
            0 <= k < deposits.len() ==> #[trigger] deposit_targets(grid, deposits)[k]
                == grid.cell_index(deposits[k].0 as int, deposits[k].1 as int),
        forall|k: int| 0 <= k < deposits.len() ==> #[trigger] deposit_values(deposits)[k] == deposits[k].2,
{
}

/// A single deposit `(x, y, v)` changes exactly the cell that `(x, y)` maps to, into a value
/// that `combine` ensures for the cell's old value and `v`.
pub proof fn lemma_single_deposit<T: Copy, V, F: Fn(T, V) -> T>(
    grid: Grid<T>,
    start: Seq<T>,
    end: Seq<T>,
    deposit: (i16, i16, V),
    combine: F,
)
    requires
        deposited(
            start,
            end,
            deposit_targets(grid, seq![deposit]),
            deposit_values(seq![deposit]),
            combine,
        ),
    ensures
        exists|r: T|
            call_ensures(
                combine,
                (start[grid.cell_index(deposit.0 as int, deposit.1 as int)], deposit.2),
                r,
            ) && end == start.update(grid.cell_index(deposit.0 as int, deposit.1 as int), r),
{
    let targets = deposit_targets(grid, seq![deposit]);
    let values = deposit_values(seq![deposit]);
    assert(targets.len() == 1);
    let (mid, r) = lemma_deposited_last(start, end, targets, values, combine);
    assert(targets.drop_last().len() == 0);
    lemma_deposited_none(start, mid, targets.drop_last(), values.take(0), combine);
    assert(targets.last() == grid.cell_index(deposit.0 as int, deposit.1 as int));
    assert(values[0] == deposit.2);
    assert(call_ensures(
        combine,
        (start[grid.cell_index(deposit.0 as int, deposit.1 as int)], deposit.2),
        r,
    ));
}

/// Whether the cell `(x, y)` lies in the outermost rows or columns of a `w` x `h` grid.
pub open spec fn on_border(w: int, h: int, x: int, y: int) -> bool {
    x == 0 || x == w - 1 || y == 0 || y == h - 1
}

/// The wall is the whole of the first and last row and of the first and last column, and
/// nothing else: every cell of rows `0` and `h - 1` and of columns `0` and `w - 1` is on it,
/// whatever the dimensions, and every other cell is not.
pub proof fn lemma_border_is_outermost_rows_and_columns(w: int, h: int, x: int, y: int)
    requires
        0 <= x < w,
        0 <= y < h,
    ensures
        y == 0 ==> on_border(w, h, x, y),
        y == h - 1 ==> on_border(w, h, x, y),
        x == 0 ==> on_border(w, h, x, y),
        x == w - 1 ==> on_border(w, h, x, y),
        0 < x < w - 1 && 0 < y < h - 1 ==> !on_border(w, h, x, y),
{
}

/// The current run-time state of the entire simulation.
pub struct Simulation<T, D> {
    /// Width of the grids in cells.
    pub width: u16,
    /// Height of the grids in cells.
    pub height: u16,
    /// The grid that is read in the current step.
    pub read_buffer: Grid<T>,
    /// The grid that is written in the current step.
    pub write_buffer: Grid<T>,
    /// Value the outermost rows and columns are held at, if any.
    pub wall_value: Option<T>,
    /// How much of each cell's value remains after each step.
    pub decay_factor: D,
}

/// Swapping the buffers twice restores them: `after` is `before` with its buffers swapped
/// twice over by way of `between`.
pub proof fn lemma_swap_twice_restores<T: Copy, D: Copy>(
    before: Simulation<T, D>,
    between: Simulation<T, D>,
    after: Simulation<T, D>,
)
    requires
        between.read_buffer == before.write_buffer,
        between.write_buffer == before.read_buffer,
        after.read_buffer == between.write_buffer,
        after.write_buffer == between.read_buffer,
    ensures
        after.read_buffer == before.read_buffer,
        after.write_buffer == before.write_buffer,
{
}

impl<T: Copy, D: Copy> Simulation<T, D> {
    /// Both grids are well formed and have the simulation's dimensions.
    pub open spec fn wf(&self) -> bool {
        &&& self.read_buffer.wf()
        &&& self.write_buffer.wf()
        &&& self.read_buffer.spec_width() == self.width
        &&& self.read_buffer.spec_height() == self.height
        &&& self.write_buffer.spec_width() == self.width
        &&& self.write_buffer.spec_height() == self.height
        &&& self.read_buffer.spec_topology() == self.write_buffer.spec_topology()
    }

    /// Creates a simulation of `width` x `height` cells, every cell of both grids holding
    /// `fill`.
    pub fn new(width: u16, height: u16, config: &WorldConfig<T, D>, fill: T) -> (simulation: Self)
        requires
            2 < width <= 32767,
            2 < height <= 32767,
        ensures
            simulation.wf(),
            simulation.width == width,
            simulation.height == height,
            simulation.read_buffer.spec_topology() == config.topology,
            simulation.write_buffer.spec_topology() == config.topology,
            simulation.wall_value == config.wall_value,
            simulation.decay_factor == config.decay_factor,
            forall|i: int| 0 <= i < simulation.read_buffer@.len() ==> simulation.read_buffer@[i] == fill,
            forall|i: int|
                0 <= i < simulation.write_buffer@.len() ==> simulation.write_buffer@[i] == fill,
    {
        Simulation {
            width,
            height,
            read_buffer: Grid::new(width, height, config.topology, fill),
            write_buffer: Grid::new(width, height, config.topology, fill),
            wall_value: config.wall_value,
            decay_factor: config.decay_factor,
        }
    }

    /// Writes the blurred cells of the read buffer, taken with the decay factor, to the write
    /// buffer (see `Grid::blur`).
    pub fn blur<F: Fn([T; 3], [T; 3], [T; 3], D) -> T>(&mut self, kernel: F)
        requires
            old(self).wf(),
            old(self).width % 64 == 0,
            forall|top: [T; 3], mid: [T; 3], bot: [T; 3]|
                kernel.requires((top, mid, bot, old(self).decay_factor)),
        ensures
            final(self).wf(),
            final(self).width == old(self).width,
            final(self).height == old(self).height,
            final(self).read_buffer == old(self).read_buffer,
            final(self).wall_value == old(self).wall_value,
            final(self).decay_factor == old(self).decay_factor,
            final(self).write_buffer.spec_topology() == old(self).write_buffer.spec_topology(),
            forall|x: int, y: int|
                0 <= x < final(self).width && 0 <= y < final(self).height
                    ==> final(self).read_buffer.blurred(
                    kernel,
                    final(self).decay_factor,
                    x,
                    y,
                    #[trigger] final(self).write_buffer.at(x, y),
                ),
    {
        self.write_buffer.blur(&self.read_buffer, self.decay_factor, kernel);
    }

    /// Combines, in order, the value of each deposit into the cell of the write buffer that its
    /// coordinates map to on the read buffer.
    pub fn apply_agents<V: Copy, F: Fn(T, V) -> T>(
        &mut self,
        deposits: &[(i16, i16, V)],
        combine: F,
    )
        requires
            old(self).wf(),
            forall|cell: T, value: V| combine.requires((cell, value)),
        ensures
            final(self).wf(),
            final(self).width == old(self).width,
            final(self).height == old(self).height,
            final(self).read_buffer == old(self).read_buffer,
            final(self).wall_value == old(self).wall_value,
            final(self).decay_factor == old(self).decay_factor,
            final(self).write_buffer.spec_topology() == old(self).write_buffer.spec_topology(),
            deposited(
                old(self).write_buffer@,
                final(self).write_buffer@,
                deposit_targets(old(self).read_buffer, deposits@),
                deposit_values(deposits@),
                combine,
            ),
    {
        let ghost targets = deposit_targets(self.read_buffer, deposits@);
        let ghost values = deposit_values(deposits@);
        let ghost start = self.write_buffer@;
        let mut i: usize = 0;
        while i < deposits.len()
            invariant
                self.wf(),
                self.width == old(self).width,
                self.height == old(self).height,
                self.read_buffer == old(self).read_buffer,
                self.wall_value == old(self).wall_value,
                self.decay_factor == old(self).decay_factor,
                self.write_buffer.spec_topology() == old(self).write_buffer.spec_topology(),
                targets == deposit_targets(old(self).read_buffer, deposits@),
                values == deposit_values(deposits@),
                start == old(self).write_buffer@,
                0 <= i <= deposits.len(),
                forall|cell: T, value: V| combine.requires((cell, value)),
                deposited(start, self.write_buffer@, targets.take(i as int), values.take(i as int), combine),
            decreases deposits.len() - i,
        {
            let (x, y, value) = deposits[i];
            let ghost mid = self.write_buffer@;
            let ghost target = self.write_buffer.cell_index(x as int, y as int);
            let cell = *self.write_buffer.cell(x, y);
            let combined = combine(cell, value);
            *self.write_buffer.cell_mut(x, y) = combined;
            proof {
                let next = (i + 1) as int;
                assert(targets.take(next).take(i as int) =~= targets.take(i as int));
                assert(values.take(next).take(i as int) =~= values.take(i as int));
                let prefix_targets = targets.take(next);
                let prefix_values = values.take(next);
                lemma_deposited_step(start, mid, prefix_targets, prefix_values, combine, combined);
            }
            i = i + 1;
        }
        proof {
            assert(targets.take(deposits.len() as int) =~= targets);
            assert(values.take(deposits.len() as int) =~= values);
        }
    }

    /// Holds the outermost rows and columns of the write buffer at the wall value, if there is
    /// one.
    pub fn apply_bc(&mut self)
        requires
            old(self).wf(),
        ensures
            final(self).wf(),
            final(self).width == old(self).width,
            final(self).height == old(self).height,
            final(self).read_buffer == old(self).read_buffer,
            final(self).wall_value == old(self).wall_value,
            final(self).decay_factor == old(self).decay_factor,
            final(self).write_buffer.spec_topology() == old(self).write_buffer.spec_topology(),
            forall|x: int, y: int|
                0 <= x < final(self).width && 0 <= y < final(self).height ==> #[trigger] final(self).write_buffer.at(x, y) == match final(self).wall_value {
                    Some(value) => if on_border(final(self).width as int, final(self).height as int, x, y) {
                        value
                    } else {
                        old(self).write_buffer.at(x, y)
                    },
                    None => old(self).write_buffer.at(x, y),
                },
    {
        if let Some(value) = self.wall_value {
            let width = self.width;
            let height = self.height;
            let ghost start = self.write_buffer;
            // top and bottom walls
            let mut x: u16 = 0;
            while x < width
                invariant
                    self.wf(),
                    self.width == width,
                    self.height == height,
                    self.read_buffer == old(self).read_buffer,
                    self.wall_value == old(self).wall_value,
                    self.wall_value == Some(value),
                    self.decay_factor == old(self).decay_factor,
                    self.write_buffer.spec_topology() == old(self).write_buffer.spec_topology(),
                    start == old(self).write_buffer,
                    0 <= x <= width,
                    forall|xx: int, yy: int|
                        0 <= xx < width && 0 <= yy < height ==> #[trigger] self.write_buffer.at(xx, yy)
                            == if (yy == 0 || yy == height - 1) && xx < x {
                            value
                        } else {
                            start.at(xx, yy)
                        },
                decreases width - x,
            {
                self.set_wall_cell(x, 0, value);
                self.set_wall_cell(x, height - 1, value);
                x = x + 1;
            }
            // side walls
            let mut y: u16 = 0;
            while y < height
                invariant
                    self.wf(),
                    self.width == width,
                    self.height == height,
                    self.read_buffer == old(self).read_buffer,
                    self.wall_value == old(self).wall_value,
                    self.wall_value == Some(value),
                    self.decay_factor == old(self).decay_factor,
                    self.write_buffer.spec_topology() == old(self).write_buffer.spec_topology(),
                    start == old(self).write_buffer,
                    0 <= y <= height,
                    forall|xx: int, yy: int|
                        0 <= xx < width && 0 <= yy < height ==> #[trigger] self.write_buffer.at(xx, yy)
                            == if yy == 0 || yy == height - 1 || ((xx == 0 || xx == width - 1) && yy < y) {
                            value
                        } else {
                            start.at(xx, yy)
                        },
                decreases height - y,
            {
                self.set_wall_cell(0, y, value);
                self.set_wall_cell(width - 1, y, value);
                y = y + 1;
            }
        }
    }

    /// Sets the cell `(x, y)` of the write buffer, inside the grid, to `value`.
    fn set_wall_cell(&mut self, x: u16, y: u16, value: T)
        requires
            old(self).wf(),
            x < old(self).width,
            y < old(self).height,
        ensures
            final(self).wf(),
            final(self).width == old(self).width,
            final(self).height == old(self).height,
            final(self).read_buffer == old(self).read_buffer,
            final(self).wall_value == old(self).wall_value,
            final(self).decay_factor == old(self).decay_factor,
            final(self).write_buffer.spec_topology() == old(self).write_buffer.spec_topology(),
            forall|xx: int, yy: int|
                0 <= xx < final(self).width && 0 <= yy < final(self).height ==> #[trigger] final(self).write_buffer.at(xx, yy) == if xx == x && yy == y {
                    value
                } else {
                    old(self).write_buffer.at(xx, yy)
                },
    {
        let ghost before = self.write_buffer;
        proof {
            crate::grid::lemma_map_coord_in_axis(x as int, self.width as int, self.write_buffer.spec_topology());
            crate::grid::lemma_map_coord_in_axis(y as int, self.height as int, self.write_buffer.spec_topology());
        }
        *self.write_buffer.cell_mut(x as i16, y as i16) = value;
        proof {
            let w = self.width as int;
            let h = self.height as int;
            assert forall|xx: int, yy: int|
                0 <= xx < w && 0 <= yy < h implies #[trigger] self.write_buffer.at(xx, yy) == if xx == x
                && yy == y {
                value
            } else {
                before.at(xx, yy)
            } by {
                crate::grid::lemma_cell_index_bounds(w, h, xx, yy);
                if yy * w + xx == y * w + x {
                    crate::grid::lemma_cell_index_injective(w, xx, yy, x as int, y as int);
                }
            }
        }
    }

    /// Swaps the read and write buffers, to prepare the next step.
    pub fn swap_buffers(&mut self)
        ensures
            old(self).wf() ==> final(self).wf(),
            final(self).read_buffer == old(self).write_buffer,
            final(self).write_buffer == old(self).read_buffer,
            final(self).width == old(self).width,
            final(self).height == old(self).height,
            final(self).wall_value == old(self).wall_value,
            final(self).decay_factor == old(self).decay_factor,
    {
        std::mem::swap(&mut self.read_buffer, &mut self.write_buffer);
    }

    /// Takes over the wall value, decay factor and topology of a new world configuration; the
    /// cells stay as they are.
    pub fn update_config(&mut self, new_config: &WorldConfig<T, D>)
        requires
            old(self).wf(),
        ensures
            final(self).wf(),
            final(self).width == old(self).width,
            final(self).height == old(self).height,
            final(self).wall_value == new_config.wall_value,
            final(self).decay_factor == new_config.decay_factor,
            final(self).read_buffer@ == old(self).read_buffer@,
            final(self).write_buffer@ == old(self).write_buffer@,
            final(self).read_buffer.spec_topology() == new_config.topology,
            final(self).write_buffer.spec_topology() == new_config.topology,
    {
        self.wall_value = new_config.wall_value;
        self.decay_factor = new_config.decay_factor;
        self.read_buffer.set_topology(new_config.topology);
        self.write_buffer.set_topology(new_config.topology);
    }
}

} // verus!
