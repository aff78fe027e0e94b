use vstd::prelude::*;
use vstd::string::*;

use crate::error::PhysicsError;
use crate::level::{level_parameters, PhysicsLevel, SimulationParameters};

verus! {

/// Steps between two diagnostic samples of a run.
pub const SAMPLE_INTERVAL: usize = 10;

/// Text of the error for a request whose positions and residue types differ in number.
pub const LENGTH_MISMATCH: &'static str = "Mismatch between positions and residue types";

/// What a run needs besides floating-point state: the level's parameters, the chain
/// length, and which rotation commands name a residue of the chain.
#[derive(Debug, Clone)]
pub struct SimulationPlan {
    pub level: PhysicsLevel,
    pub parameters: SimulationParameters,
    pub num_residues: usize,
    /// One entry per rotation command: whether its residue index lies in the chain.
    pub applied_rotations: Vec<bool>,
}

/// Checks a request's shape and lays out its run. `n_positions` and `n_types` are the
/// numbers of initial positions and of residue labels; `rotation_residues` holds the
/// residue index of each rotation command, in order.
pub fn plan_simulation(
    level: PhysicsLevel,
    n_positions: usize,
    n_types: usize,
    rotation_residues: &[usize],
) -> (r: Result<SimulationPlan, PhysicsError>)
    ensures
        r is Err <==> n_positions != n_types,
        r is Err ==> (r->Err_0 matches PhysicsError::InvalidSystem(m) && m@ == LENGTH_MISMATCH@),
        r is Ok ==> ({
            let p = r->Ok_0;
            &&& p.level == level
            &&& p.parameters == level_parameters(level)
            &&& p.num_residues == n_positions
            &&& p.applied_rotations@.len() == rotation_residues@.len()
            &&& forall|k: int|
                0 <= k < rotation_residues@.len() ==> #[trigger] p.applied_rotations@[k] == (
                rotation_residues@[k] < n_positions)
        }),
{
    if n_positions != n_types {
        return Err(PhysicsError::InvalidSystem(String::from_str(LENGTH_MISMATCH)));
    }
    let mut applied: Vec<bool> = Vec::new();
    let mut k: usize = 0;
    while k < rotation_residues.len()
        invariant
            k <= rotation_residues@.len(),
            applied@.len() == k,
            forall|t: int|
                0 <= t < k ==> #[trigger] applied@[t] == (rotation_residues@[t] < n_positions),
        decreases rotation_residues@.len() - k,
    {
        applied.push(rotation_residues[k] < n_positions);
        k += 1;
    }
    Ok(
        SimulationPlan {
            level,
            parameters: level.parameters(),
            num_residues: n_positions,
            applied_rotations: applied,
        },
    )
}

/// What the run loop does next.
#[derive(Debug, Clone, Copy, PartialEq, Eq, Structural)]
pub enum StepAction {
    /// Compute forces and advance the integrator for step `step`; when `sample` is
    /// set, record total energy and temperature afterwards.
    Integrate { step: usize, sample: bool },
    /// All steps are done.
    Finished,
}

/// Whether diagnostics are recorded after step `step`.
pub open spec fn is_sample_step(step: nat) -> bool {
    step % (SAMPLE_INTERVAL as nat) == 0
}

/// Number of sampled steps among `0 .. n`.
pub open spec fn samples_in(n: nat) -> nat
    decreases n,
{
    if n == 0 {
        0
    } else {
        samples_in((n - 1) as nat) + if is_sample_step((n - 1) as nat) {
            1nat
        } else {
            0nat
        }
    }
}

/// Cursor over the steps of a run of fixed length.
#[derive(Debug, Clone)]
pub struct StepSchedule {
    next_step: usize,
    num_steps: usize,
}

impl StepSchedule {
    pub closed spec fn next_step(&self) -> nat {
        self.next_step as nat
    }

    pub closed spec fn num_steps(&self) -> nat {
        self.num_steps as nat
    }

    pub closed spec fn wf(&self) -> bool {
        self.next_step <= self.num_steps
    }

    /// A schedule of `num_steps` steps, none taken yet.
    pub fn new(num_steps: usize) -> (r: StepSchedule)
        ensures
            r.wf(),
            r.next_step() == 0,
            r.num_steps() == num_steps,
    {
        StepSchedule { next_step: 0, num_steps }
    }

    /// The action for the next step, advancing the cursor past it.
    pub fn next(&mut self) -> (r: StepAction)
        requires
            old(self).wf(),
        ensures
            final(self).wf(),
            final(self).num_steps() == old(self).num_steps(),
            old(self).next_step() < old(self).num_steps() ==> {
                &&& r == (StepAction::Integrate {
                    step: old(self).next_step() as usize,
                    sample: is_sample_step(old(self).next_step()),
                })
                &&& final(self).next_step() == old(self).next_step() + 1
            },
            old(self).next_step() >= old(self).num_steps() ==> {
                &&& r == StepAction::Finished
                &&& final(self).next_step() == old(self).next_step()
            },
    {
        if self.next_step < self.num_steps {
            let step = self.next_step;
            self.next_step = step + 1;
            StepAction::Integrate { step, sample: step % SAMPLE_INTERVAL == 0 }
        } else {
            StepAction::Finished
        }
    }
}

/// The sampled steps of a run of `n` steps are `0, 10, 20, ...`: there are
/// `ceil(n / 10)` of them.
pub proof fn lemma_samples_in(n: nat)
    ensures
        samples_in(n) == (n + 9) / 10,
    decreases n,
{
    if n > 0 {
        lemma_samples_in((n - 1) as nat);
    }
}

/// Number of diagnostic samples a run of `num_steps` steps records.
pub fn sample_count(num_steps: usize) -> (r: usize)
    ensures
        r == samples_in(num_steps as nat),
{
    proof {
        lemma_samples_in(num_steps as nat);
    }
    num_steps / SAMPLE_INTERVAL + if num_steps % SAMPLE_INTERVAL == 0 {
        0
    } else {
        1
    }
}

/// Brings a per-residue buffer to length `n`: entries below both lengths are kept,
/// new slots hold `fill`. A length mismatch is repaired, never reported.
pub fn fit_buffer<T: Copy>(buffer: &mut Vec<T>, n: usize, fill: T)
    ensures
        final(buffer)@.len() == n,
        forall|i: int|
            0 <= i < n && i < old(buffer)@.len() ==> #[trigger] final(buffer)@[i] == old(buffer)@[i],
        forall|i: int| old(buffer)@.len() <= i < n ==> #[trigger] final(buffer)@[i] == fill,
{
    if buffer.len() > n {
        buffer.truncate(n);
    }
    let ghost kept = buffer@;
    while buffer.len() < n
        invariant
            kept.len() <= buffer@.len() <= n,
            forall|i: int| 0 <= i < kept.len() ==> #[trigger] buffer@[i] == kept[i],
            kept.len() == if old(buffer)@.len() < n {
                old(buffer)@.len()
            } else {
                n as nat
            },
            forall|i: int| 0 <= i < kept.len() ==> #[trigger] kept[i] == old(buffer)@[i],
            forall|i: int| kept.len() <= i < buffer@.len() ==> #[trigger] buffer@[i] == fill,
        decreases n - buffer@.len(),
    {
        buffer.push(fill);
    }
}

} // verus!

verus! {

/// Largest number of sweeps the bond-constraint projector makes in one step.
pub const MAX_CONSTRAINT_SWEEPS: usize = 100;

/// Sweep control of the iterative bond-constraint projector: sweeps run until one ends
/// with every bond within tolerance, and never more than `MAX_CONSTRAINT_SWEEPS`.
#[derive(Debug, Clone)]
pub struct ConstraintSweeps {
    done: usize,
    converged: bool,
}

impl ConstraintSweeps {
    /// Sweeps finished so far.
    pub closed spec fn done(&self) -> nat {
        self.done as nat
    }

    /// Whether the last finished sweep found every bond within tolerance.
    pub closed spec fn converged(&self) -> bool {
        self.converged
    }

    pub closed spec fn wf(&self) -> bool {
        self.done <= MAX_CONSTRAINT_SWEEPS
    }

    /// No sweep made yet.
    pub fn new() -> (r: ConstraintSweeps)
        ensures
            r.wf(),
            r.done() == 0,
            !r.converged(),
    {
        ConstraintSweeps { done: 0, converged: false }
    }

    /// Whether another sweep is due.
    pub fn should_sweep(&self) -> (r: bool)
        requires
            self.wf(),
        ensures
            r == (!self.converged() && self.done() < MAX_CONSTRAINT_SWEEPS),
    {
        !self.converged && self.done < MAX_CONSTRAINT_SWEEPS
    }

    /// Records a finished sweep and whether its largest bond error was within tolerance.
    pub fn finish_sweep(&mut self, within_tolerance: bool)
        requires
            old(self).wf(),
            !old(self).converged(),
            old(self).done() < MAX_CONSTRAINT_SWEEPS,
        ensures
            final(self).wf(),
            final(self).done() == old(self).done() + 1,
            final(self).converged() == within_tolerance,
    {
        self.done = self.done + 1;
        self.converged = within_tolerance;
    }
}

} // verus!
