//! The experiment: the saved parameters of a Lab run — which scenario, the
//! search mode (breeding, a parameter sweep, or both nested), the sweep's
//! configuration, and the seed.
//!
//! The sweep's bounds are scalars of the engine's type `S`; nothing here
//! computes with them.

use vstd::prelude::*;
use crate::text::{chars_of, string_of, trim_chars, trimmed};

verus! {

/// Directory for user-saved experiments.
pub const EXPERIMENTS_DIR: &'static str = "experiments/saved";

/// Which search the Lab runs. The modes nest: `Both` is a sweep whose every
/// value runs a breeding.
#[derive(Clone, Copy, PartialEq, Eq, Debug, Structural)]
pub enum LabMode {
    /// The generational `run → score → breed` loop.
    Breed,
    /// A seed / parameter sweep, scoring each world.
    Sweep,
    /// An outer sweep whose every value runs an inner breeding.
    Both,
}

impl Default for LabMode {
    /// The default mode, `Breed`.
    fn default() -> (m: LabMode)
        ensures
            m == LabMode::Breed,
    {
        LabMode::Breed
    }
}

/// Whether mode `m` sweeps a parameter.
pub open spec fn sweeps(m: LabMode) -> bool {
    m == LabMode::Sweep || m == LabMode::Both
}

/// Whether mode `m` runs a breeding.
pub open spec fn breeds(m: LabMode) -> bool {
    m == LabMode::Breed || m == LabMode::Both
}

impl LabMode {
    /// Whether this mode includes a parameter sweep.
    pub fn has_sweep(self) -> (b: bool)
        ensures
            b == sweeps(self),
    {
        matches!(self, LabMode::Sweep | LabMode::Both)
    }

    /// Whether this mode includes a breeding.
    pub fn has_breed(self) -> (b: bool)
        ensures
            b == breeds(self),
    {
        matches!(self, LabMode::Breed | LabMode::Both)
    }
}

/// The modes nest: every mode searches by sweeping or by breeding, and only
/// `Both` does the two.
pub proof fn lemma_modes_nest(m: LabMode)
    ensures
        sweeps(m) || breeds(m),
        (sweeps(m) && breeds(m)) <==> m == LabMode::Both,
{
}

/// A sweep over one scenario parameter: the Lab's outer search axis.
#[derive(Clone, Debug)]
pub struct SweepParams<S> {
    /// Which parameter to sweep: a label mapped to a configuration field.
    pub parameter: String,
    /// Range start.
    pub min: S,
    /// Range end.
    pub max: S,
    /// Number of steps, the ends included.
    pub steps: u32,
}

/// The saved parameters of a Lab manipulation: the persistence unit.
#[derive(Clone, Debug)]
pub struct Experiment<S> {
    /// Display name (the file stem).
    pub name: String,
    /// The scenario it ran against.
    pub scenario: String,
    /// Base RNG seed.
    pub seed: u64,
    /// The search mode.
    pub mode: LabMode,
    /// The sweep configuration (meaningful when the mode sweeps).
    pub sweep: SweepParams<S>,
    /// Free notes.
    pub notes: String,
}

/// The Lab screen's setup in progress: the search mode, the sweep, the name
/// buffer, and whether to persist a run record.
pub struct LabSetup<S> {
    /// The search mode.
    pub mode: LabMode,
    /// The sweep configuration.
    pub sweep: SweepParams<S>,
    /// Name buffer for "Save Experiment".
    pub experiment_name: String,
    /// Persist this run's full metrics for later analysis.
    pub run_record: bool,
}

impl<S: Copy> LabSetup<S> {
    /// A fresh setup around a sweep: the default mode, an empty name, and run
    /// records on.
    pub fn new(sweep: SweepParams<S>) -> (l: LabSetup<S>)
        ensures
            l.mode == LabMode::Breed,
            l.sweep == sweep,
            l.experiment_name@.len() == 0,
            l.run_record,
    {
        LabSetup { mode: LabMode::Breed, sweep, experiment_name: String::new(), run_record: true }
    }

    /// Snapshot of the current setup as a savable experiment against
    /// `scenario`: the name buffer trimmed, the mode and sweep copied, no notes.
    pub fn to_experiment(&self, scenario: String, seed: u64) -> (e: Experiment<S>)
        ensures
            e.name@ == trimmed(self.experiment_name@),
            e.scenario@ == scenario@,
            e.seed == seed,
            e.mode == self.mode,
            e.sweep.parameter@ == self.sweep.parameter@,
            e.sweep.min == self.sweep.min,
            e.sweep.max == self.sweep.max,
            e.sweep.steps == self.sweep.steps,
            e.notes@.len() == 0,
    {
        let name = string_of(&trim_chars(&chars_of(self.experiment_name.as_str())));
        let parameter = string_of(&chars_of(self.sweep.parameter.as_str()));
        Experiment {
            name,
            scenario,
            seed,
            mode: self.mode,
            sweep: SweepParams {
                parameter,
                min: self.sweep.min,
                max: self.sweep.max,
                steps: self.sweep.steps,
            },
            notes: String::new(),
        }
    }
}

} // verus!
