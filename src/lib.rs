//! Verified core of a coarse-grained peptide folding engine: the fidelity levels and
//! their run parameters, the interaction topology a force field sums over, the plan
//! and step schedule of a simulation run, and the text formats around it (command
//! line, span logs, FASTA input).
//!
//! - `level`: level tags, the level table, force-field and integrator selection.
//! - `topology`: residue naming and the bonded, angle, dihedral and pair lists.
//! - `run`: request checks, the step schedule with its sampling, buffer sizing.
//! - `error`: engine errors.
//! - `rng`, `clock`: the deterministic generator and rotation pacing.
//! - `cli`, `logline`, `fasta`: fold arguments, span-log lines, sequence input.
use vstd::prelude::*;

pub mod cli;
pub mod clock;
pub mod error;
pub mod fasta;
pub mod level;
pub mod logline;
pub mod rng;
pub mod run;
pub mod topology;

verus! {

} // verus!
