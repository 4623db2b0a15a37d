//! Bookkeeping of the simulation and render loops: how agents are shared out among workers,
//! how the agent population follows the configured count, step-time history and phase
//! timings, frame deadlines, and what the window's input asks for.

use vstd::prelude::*;

verus! {

/// Maximum number of step durations kept for the statistics.
pub const TPS_HISTORY_MAX: usize = 64_000;

/// Sum of a sequence of sizes.
pub open spec fn spec_sum(sizes: Seq<usize>) -> int
    decreases sizes.len(),
{
    if sizes.len() == 0 {
        0
    } else {
        spec_sum(sizes.drop_last()) + sizes.last()
    }
}

/// Number of agents given to worker `i` when `total` agents are shared out among `workers`
/// workers: an equal share, and one more for each of the first `total % workers` workers.
pub open spec fn spec_chunk_size(total: int, workers: int, i: int) -> int {
    total / workers + if i < total % workers {
        1int
    } else {
        0int
    }
}

/// How many agents each of `num_workers` workers updates: `total / num_workers`, plus one for
/// the first `total % num_workers` workers. Workers with no agent get `0`.
pub fn chunk_sizes(total: usize, num_workers: usize) -> (sizes: Vec<usize>)
    requires
        num_workers > 0,
    ensures
        sizes@.len() == num_workers,
        forall|i: int|
            0 <= i < num_workers ==> #[trigger] sizes@[i] == spec_chunk_size(
                total as int,
                num_workers as int,
                i,
            ),
{
    let agents_per_worker = total / num_workers;
    let remainder = total % num_workers;
    let mut sizes: Vec<usize> = Vec::with_capacity(num_workers);
    let mut i: usize = 0;
    while i < num_workers
        invariant
            0 <= i <= num_workers,
            agents_per_worker == total / num_workers,
            remainder == total % num_workers,
            agents_per_worker <= total,
            sizes@.len() == i,
            forall|j: int|
                0 <= j < i ==> #[trigger] sizes@[j] == spec_chunk_size(
                    total as int,
                    num_workers as int,
                    j,
                ),
        decreases num_workers - i,
    {
        let extra: usize = if i < remainder {
            1
        } else {
            0
        };
        proof {
            if agents_per_worker == total {
                vstd::arithmetic::div_mod::lemma_fundamental_div_mod(total as int, num_workers as int);
                assert(total as int * (num_workers as int) >= total as int) by (nonlinear_arith)
                    requires
                        num_workers >= 1,
                        total >= 0,
                ;
            }
        }
        sizes.push(agents_per_worker + extra);
        i = i + 1;
    }
    sizes
}

/// The sum of the first `n` shares.
proof fn lemma_sum_of_shares(total: int, workers: int, sizes: Seq<usize>, n: int)
    requires
        workers > 0,
        total >= 0,
        0 <= n <= sizes.len(),
        forall|i: int| 0 <= i < sizes.len() ==> #[trigger] sizes[i] == spec_chunk_size(total, workers, i),
    ensures
        spec_sum(sizes.take(n)) == n * (total / workers) + if n < total % workers {
            n
        } else {
            total % workers
        },
    decreases n,
{
    if n > 0 {
        lemma_sum_of_shares(total, workers, sizes, n - 1);
        assert(sizes.take(n).drop_last() =~= sizes.take(n - 1));
        assert(n * (total / workers) == (n - 1) * (total / workers) + total / workers)
            by (nonlinear_arith);
    } else {
        assert(sizes.take(0) =~= Seq::<usize>::empty());
    }
}

/// Sharing out agents loses none and duplicates none: the shares of all workers add up to the
/// number of agents.
pub proof fn lemma_chunk_sizes_cover_all(total: usize, num_workers: usize, sizes: Seq<usize>)
    requires
        num_workers > 0,
        sizes.len() == num_workers,
        forall|i: int|
            0 <= i < num_workers ==> #[trigger] sizes[i] == spec_chunk_size(
                total as int,
                num_workers as int,
                i,
            ),
    ensures
        spec_sum(sizes) == total,
{
    let t = total as int;
    let w = num_workers as int;
    lemma_sum_of_shares(t, w, sizes, w);
    assert(sizes.take(w) =~= sizes);
    vstd::arithmetic::div_mod::lemma_fundamental_div_mod(t, w);
    assert(w * (t / w) == (t / w) * w) by (nonlinear_arith);
}

/// Shares differ by at most one agent, and no worker gets fewer agents than a later one.
pub proof fn lemma_chunk_sizes_balanced(total: usize, num_workers: usize, i: int, j: int)
    requires
        num_workers > 0,
        0 <= i <= j < num_workers,
    ensures
        spec_chunk_size(total as int, num_workers as int, j) <= spec_chunk_size(
            total as int,
            num_workers as int,
            i,
        ) <= spec_chunk_size(total as int, num_workers as int, j) + 1,
{
}

/// The `u32` index of the agent at position `i`; positions beyond `u32::MAX` get `u32::MAX`.
pub fn agent_index(i: usize) -> (index: u32)
    ensures
        index == if i <= u32::MAX {
            i as u32
        } else {
            u32::MAX
        },
{
    if i <= u32::MAX as usize {
        i as u32
    } else {
        u32::MAX
    }
}

/// Brings the agent population to `count`: agents are appended, each made by `make` from its
/// index, until there are `count`, and those past `count` are dropped; the others stay as they
/// are.
pub fn resize_agents<A, F: Fn(u32) -> A>(agents: &mut Vec<A>, count: usize, make: F)
    requires
        forall|index: u32| make.requires((index,)),
    ensures
        final(agents)@.len() == count,
        forall|i: int|
            0 <= i < count && i < old(agents)@.len() ==> #[trigger] final(agents)@[i] == old(
                agents,
            )@[i],
        forall|i: int|
            old(agents)@.len() <= i < count ==> call_ensures(
                make,
                (if i <= u32::MAX {
                    i as u32
                } else {
                    u32::MAX
                },),
                #[trigger] final(agents)@[i],
            ),
{
    let ghost original = agents@;
    while agents.len() < count
        invariant
            forall|index: u32| make.requires((index,)),
            agents@.len() <= if original.len() < count { count as int } else { original.len() as int },
            forall|i: int|
                0 <= i < original.len() ==> #[trigger] agents@[i] == original[i],
            agents@.len() >= original.len(),
            forall|i: int|
                original.len() <= i < agents@.len() ==> call_ensures(
                    make,
                    (if i <= u32::MAX {
                        i as u32
                    } else {
                        u32::MAX
                    },),
                    #[trigger] agents@[i],
                ),
        decreases count - agents@.len(),
    {
        let index = agent_index(agents.len());
        let agent = make(index);
        agents.push(agent);
    }
    agents.truncate(count);
}

/// The first deadline after `now`, stepping from `deadline` in steps of `period`; `deadline`
/// itself when it is already after `now`.
pub fn advance_deadline(deadline: u64, now: u64, period: u64) -> (next: u64)
    requires
        period > 0,
        now + period <= u64::MAX,
    ensures
        next > now,
        next >= deadline,
        (next - deadline) % (period as int) == 0,
        next == deadline || next - period <= now,
{
    let mut next = deadline;
    let ghost steps: int = 0;
    while next <= now
        invariant
            period > 0,
            now + period <= u64::MAX,
            next >= deadline,
            next == deadline + steps * period,
            steps >= 0,
            next == deadline || next - period <= now,
        decreases if next <= now { now + 1 - next } else { 0 },
    {
        next = next + period;
        proof {
            steps = steps + 1;
            assert(deadline + steps * period == deadline + (steps - 1) * period + period)
                by (nonlinear_arith);
        }
    }
    proof {
        vstd::arithmetic::div_mod::lemma_mod_multiples_basic(steps, period as int);
    }
    next
}

/// A bounded history of step durations, in nanoseconds: the most recent samples, oldest first.
pub struct StepHistory {
    /// The samples, oldest first.
    samples: std::collections::VecDeque<u64>,
}

impl View for StepHistory {
    type V = Seq<u64>;

    closed spec fn view(&self) -> Seq<u64> {
        self.samples@
    }
}

impl StepHistory {
    /// No more than `TPS_HISTORY_MAX` samples are kept.
    pub open spec fn wf(&self) -> bool {
        self@.len() <= TPS_HISTORY_MAX
    }

    /// An empty history.
    pub fn new() -> (history: Self)
        ensures
            history.wf(),
            history@ == Seq::<u64>::empty(),
    {
        StepHistory { samples: std::collections::VecDeque::new() }
    }

    /// Records a sample; when the history is full, the oldest sample makes room for it.
    pub fn push(&mut self, sample: u64)
        requires
            old(self).wf(),
        ensures
            final(self).wf(),
            final(self)@ == if old(self)@.len() >= TPS_HISTORY_MAX {
                old(self)@.drop_first().push(sample)
            } else {
                old(self)@.push(sample)
            },
    {
        if self.samples.len() >= TPS_HISTORY_MAX {
            let _ = self.samples.pop_front();
        }
        self.samples.push_back(sample);
    }

    /// The samples, oldest first.
    pub fn samples(&self) -> (samples: Vec<u64>)
        ensures
            samples@ == self@,
    {
        let mut samples: Vec<u64> = Vec::with_capacity(self.samples.len());
        let mut i: usize = 0;
        while i < self.samples.len()
            invariant
                0 <= i <= self@.len(),
                samples@ == self@.take(i as int),
            decreases self@.len() - i,
        {
            samples.push(self.samples[i]);
            i = i + 1;
            proof {
                assert(samples@ =~= self@.take(i as int));
            }
        }
        proof {
            assert(self@.take(self@.len() as int) =~= self@);
        }
        samples
    }
}

/// Time spent in each phase of the simulation loop since the last report, in nanoseconds.
pub struct Timings {
    /// Updating the grid state.
    pub grid_update: u64,
    /// Processing configuration updates.
    pub config_update: u64,
    /// Swapping buffers.
    pub swap: u64,
    /// Blurring.
    pub blur: u64,
    /// Updating the agents.
    pub agents: u64,
    /// Applying the agents to the grid.
    pub apply_agents: u64,
    /// Applying the boundary condition.
    pub bc: u64,
    /// Exchanging grids with the renderer.
    pub sync: u64,
}

impl Timings {
    /// Every phase is at zero.
    pub open spec fn is_zero(&self) -> bool {
        &&& self.grid_update == 0
        &&& self.config_update == 0
        &&& self.swap == 0
        &&& self.blur == 0
        &&& self.agents == 0
        &&& self.apply_agents == 0
        &&& self.bc == 0
        &&& self.sync == 0
    }

    /// Resets all timing accumulators to zero.
    pub fn reset(&mut self)
        ensures
            final(self).is_zero(),
    {
        *self = Self::default();
    }
}

impl Default for Timings {
    fn default() -> (timings: Self)
        ensures
            timings.is_zero(),
    {
        Timings {
            grid_update: 0,
            config_update: 0,
            swap: 0,
            blur: 0,
            agents: 0,
            apply_agents: 0,
            bc: 0,
            sync: 0,
        }
    }
}

/// A key of the keyboard, as far as the application tells keys apart.
#[derive(Clone, Copy, Debug, PartialEq, Eq, Structural)]
pub enum Key {
    /// The escape key.
    Escape,
    /// The space bar.
    Space,
    /// Any other key.
    Other,
}

/// An event of the window, as far as the application tells events apart.
#[derive(Clone, Copy, Debug, PartialEq, Eq, Structural)]
pub enum WindowInput {
    /// The window is asked to close.
    CloseRequested,
    /// A key was pressed (releases count as `Other`).
    KeyPressed(Key),
    /// The window asks to be redrawn.
    RedrawRequested,
    /// Any other event.
    Other,
}

/// What the application does in answer to a window event.
#[derive(Clone, Copy, Debug, PartialEq, Eq, Structural)]
pub enum AppAction {
    /// Stop the simulation and leave the event loop.
    Exit,
    /// Save the current frame as a PNG screenshot.
    SaveScreenshot,
    /// Fetch the newest grid, render it, advance the frame deadline and look for a new
    /// configuration.
    Redraw,
    /// Nothing.
    Ignore,
}

/// The answer to a window event: closing the window or pressing escape exits, the space bar
/// saves a screenshot, a redraw request redraws, and everything else is ignored.
pub fn window_action(input: WindowInput) -> (action: AppAction)
    ensures
        action == match input {
            WindowInput::CloseRequested => AppAction::Exit,
            WindowInput::KeyPressed(Key::Escape) => AppAction::Exit,
            WindowInput::KeyPressed(Key::Space) => AppAction::SaveScreenshot,
            WindowInput::RedrawRequested => AppAction::Redraw,
            _ => AppAction::Ignore,
        },
{
    match input {
        WindowInput::CloseRequested => AppAction::Exit,
        WindowInput::KeyPressed(key) => match key {
            Key::Escape => AppAction::Exit,
            Key::Space => AppAction::SaveScreenshot,
            Key::Other => AppAction::Ignore,
        },
        WindowInput::RedrawRequested => AppAction::Redraw,
        WindowInput::Other => AppAction::Ignore,
    }
}

} // verus!
