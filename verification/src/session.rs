//! The breeding dashboard's session state: the lifecycle of a run, the
//! history of generation reports it retains, and the lookups the dashboard
//! makes into that history (a generation's per-faction summaries, per-match
//! diagnostics, leaderboard, and the cohort a replay re-seeds from).
//!
//! The worker thread that runs the generations, and the lock shared with the
//! interface, belong to the driver; it holds one `BreedingHistory` behind its
//! lock.

use vstd::prelude::*;
use crate::breeding::{Individual, MatchMetrics};

verus! {

/// One bred faction's outcome in a generation.
pub struct FactionReport<F, S, K> {
    /// The bred archetype index.
    pub species: u16,
    /// Best match fitness this generation.
    pub best_fitness: F,
    /// Mean match fitness over the cohort.
    pub mean_fitness: F,
    /// Per-match fitness under the selected fitness.
    pub match_scores: Vec<F>,
    /// Per-match diagnostics, parallel to `match_scores`.
    pub match_metrics: Vec<MatchMetrics<F>>,
    /// The generation's per-match best genomes, ranked best first.
    pub elites: Vec<Individual<S, K>>,
}

impl<F, S, K> FactionReport<F, S, K> {
    /// The faction's top genome this generation, or `None` if it died out in
    /// every match.
    pub fn best(&self) -> (b: Option<&Individual<S, K>>)
        ensures
            self.elites@.len() == 0 ==> b is None,
            self.elites@.len() > 0 ==> b == Some(&self.elites@[0]),
    {
        if self.elites.len() == 0 {
            None
        } else {
            Some(&self.elites[0])
        }
    }
}

/// One generation's outcome: a report per bred faction.
pub struct GenerationReport<F, S, K> {
    /// 0-based generation index.
    pub generation: usize,
    /// One report per bred faction, in the regime's order.
    pub factions: Vec<FactionReport<F, S, K>>,
}

/// Lifecycle of a breeding session.
#[derive(Clone, Copy, PartialEq, Eq, Debug, Structural)]
pub enum BreedingStatus {
    /// No run started yet.
    Idle,
    /// The worker is breeding generations.
    Running,
    /// Every generation ran to completion.
    Done,
    /// The user stopped it early (after the generation in flight).
    Stopped,
}

impl Default for BreedingStatus {
    fn default() -> (s: BreedingStatus)
        ensures
            s == BreedingStatus::Idle,
    {
        BreedingStatus::Idle
    }
}

/// A snapshot of a session's progress for one frame of the interface.
#[derive(Clone, Copy, PartialEq, Eq, Debug, Structural)]
pub struct BreedingView {
    pub status: BreedingStatus,
    /// Generations completed so far.
    pub done: usize,
    /// Generations the run executes.
    pub total: usize,
}

/// A faction's line in a generation's readout.
#[derive(Clone, Copy, Debug)]
pub struct FactionSummary<F> {
    pub species: u16,
    pub best: F,
    pub mean: F,
}

/// What the worker does next.
#[derive(Clone, Copy, PartialEq, Eq, Debug, Structural)]
pub enum WorkerStep {
    /// Run the next generation.
    RunGeneration,
    /// End the session, every generation having run (or none to breed).
    Finish,
    /// End the session on the user's request.
    Stop,
}

/// The worker's decision between generations: finish once the orchestrator is
/// done (or when there is nothing to breed), stop when asked, run otherwise. A
/// stop is only honoured between generations.
pub fn worker_step(can_breed: bool, done: bool, stop_requested: bool) -> (w: WorkerStep)
    ensures
        !can_breed || done ==> w == WorkerStep::Finish,
        can_breed && !done && stop_requested ==> w == WorkerStep::Stop,
        can_breed && !done && !stop_requested ==> w == WorkerStep::RunGeneration,
{
    if !can_breed || done {
        WorkerStep::Finish
    } else if stop_requested {
        WorkerStep::Stop
    } else {
        WorkerStep::RunGeneration
    }
}

/// The state shared by the worker and the interface: the status, every
/// completed generation's report in order, the run's length, and the stop
/// request.
pub struct BreedingHistory<F, S, K> {
    pub status: BreedingStatus,
    pub reports: Vec<GenerationReport<F, S, K>>,
    pub total_generations: usize,
    pub stop: bool,
}

/// The faction reports of generation `g` of `reports`, if it exists.
pub open spec fn factions_at<F, S, K>(reports: Seq<GenerationReport<F, S, K>>, g: int) -> Seq<
    FactionReport<F, S, K>,
> {
    if 0 <= g < reports.len() {
        reports[g].factions@
    } else {
        Seq::empty()
    }
}

impl<F: Copy, S, K> BreedingHistory<F, S, K> {
    /// A session that never ran.
    pub fn new() -> (h: BreedingHistory<F, S, K>)
        ensures
            h.status == BreedingStatus::Idle,
            h.reports@.len() == 0,
            h.total_generations == 0,
            !h.stop,
    {
        BreedingHistory {
            status: BreedingStatus::Idle,
            reports: Vec::new(),
            total_generations: 0,
            stop: false,
        }
    }

    /// Starts a run of `total` generations: the history is cleared and the
    /// session is running. A run already in flight is left alone. Returns
    /// whether a run was started.
    pub fn start(&mut self, total: usize) -> (started: bool)
        ensures
            started == (old(self).status != BreedingStatus::Running),
            !started ==> *final(self) == *old(self),
            started ==> final(self).status == BreedingStatus::Running && final(self).reports@.len()
                == 0 && final(self).total_generations == total && !final(self).stop,
    {
        if self.status == BreedingStatus::Running {
            return false;
        }
        self.status = BreedingStatus::Running;
        self.reports = Vec::new();
        self.total_generations = total;
        self.stop = false;
        true
    }

    /// Asks the worker to stop after the generation in flight.
    pub fn request_stop(&mut self)
        ensures
            final(self).stop,
            final(self).status == old(self).status,
            final(self).reports == old(self).reports,
            final(self).total_generations == old(self).total_generations,
    {
        self.stop = true;
    }

    /// Records a completed generation.
    pub fn push_report(&mut self, report: GenerationReport<F, S, K>)
        ensures
            final(self).reports@ == old(self).reports@.push(report),
            final(self).status == old(self).status,
            final(self).stop == old(self).stop,
            final(self).total_generations == old(self).total_generations,
    {
        self.reports.push(report);
    }

    /// A snapshot of the progress.
    pub fn view(&self) -> (v: BreedingView)
        ensures
            v == (BreedingView {
                status: self.status,
                done: self.reports@.len() as usize,
                total: self.total_generations,
            }),
    {
        BreedingView { status: self.status, done: self.reports.len(), total: self.total_generations }
    }

    /// Number of bred factions (read off the first generation; 0 before it
    /// completes).
    pub fn faction_count(&self) -> (n: usize)
        ensures
            self.reports@.len() == 0 ==> n == 0,
            self.reports@.len() > 0 ==> n == self.reports@[0].factions@.len(),
    {
        if self.reports.len() == 0 {
            0
        } else {
            self.reports[0].factions.len()
        }
    }

    /// Number of generations completed so far.
    pub fn generation_count(&self) -> (n: usize)
        ensures
            n == self.reports@.len(),
    {
        self.reports.len()
    }

    /// Generation `g`'s per-faction summaries (species, best and mean
    /// fitness); empty for a generation not completed.
    pub fn faction_summaries_at(&self, g: usize) -> (v: Vec<FactionSummary<F>>)
        ensures
            v@.len() == factions_at(self.reports@, g as int).len(),
            forall|f: int|
                0 <= f < v@.len() ==> {
                    let r = factions_at(self.reports@, g as int)[f];
                    &&& (#[trigger] v@[f]).species == r.species
                    &&& v@[f].best == r.best_fitness
                    &&& v@[f].mean == r.mean_fitness
                },
    {
        let mut v: Vec<FactionSummary<F>> = Vec::new();
        if g >= self.reports.len() {
            return v;
        }
        let factions = &self.reports[g].factions;
        let mut f: usize = 0;
        while f < factions.len()
            invariant
                g < self.reports@.len(),
                *factions == self.reports@[g as int].factions,
                f <= factions@.len(),
                v@.len() == f,
                forall|k: int|
                    0 <= k < f ==> {
                        let r = factions@[k];
                        &&& (#[trigger] v@[k]).species == r.species
                        &&& v@[k].best == r.best_fitness
                        &&& v@[k].mean == r.mean_fitness
                    },
            decreases factions.len() - f,
        {
            let r = &factions[f];
            v.push(FactionSummary { species: r.species, best: r.best_fitness, mean: r.mean_fitness });
            f = f + 1;
        }
        v
    }

    /// Generation `g`'s per-match diagnostics for `faction`; empty when that
    /// generation or faction does not exist.
    pub fn match_metrics_at(&self, faction: usize, g: usize) -> (v: &[MatchMetrics<F>])
        ensures
            faction < factions_at(self.reports@, g as int).len() ==> v@ == factions_at(
                self.reports@,
                g as int,
            )[faction as int].match_metrics@,
            faction >= factions_at(self.reports@, g as int).len() ==> v@.len() == 0,
    {
        if g < self.reports.len() && faction < self.reports[g].factions.len() {
            self.reports[g].factions[faction].match_metrics.as_slice()
        } else {
            &[]
        }
    }

    /// Generation `g`'s ranked elites for `faction` (its leaderboard); empty
    /// when that generation or faction does not exist.
    pub fn leaderboard_at(&self, faction: usize, g: usize) -> (v: &[Individual<S, K>])
        ensures
            faction < factions_at(self.reports@, g as int).len() ==> v@ == factions_at(
                self.reports@,
                g as int,
            )[faction as int].elites@,
            faction >= factions_at(self.reports@, g as int).len() ==> v@.len() == 0,
    {
        if g < self.reports.len() && faction < self.reports[g].factions.len() {
            self.reports[g].factions[faction].elites.as_slice()
        } else {
            &[]
        }
    }

    /// The `idx`-th elite of `faction` in generation `g`, if there is one.
    pub fn elite_at(&self, faction: usize, idx: usize, g: usize) -> (e: Option<&Individual<S, K>>)
        ensures
            (faction < factions_at(self.reports@, g as int).len() && idx < factions_at(
                self.reports@,
                g as int,
            )[faction as int].elites@.len()) ==> e == Some(
                &factions_at(self.reports@, g as int)[faction as int].elites@[idx as int],
            ),
            !(faction < factions_at(self.reports@, g as int).len() && idx < factions_at(
                self.reports@,
                g as int,
            )[faction as int].elites@.len()) ==> e is None,
    {
        if g < self.reports.len() && faction < self.reports[g].factions.len() && idx
            < self.reports[g].factions[faction].elites.len() {
            Some(&self.reports[g].factions[faction].elites[idx])
        } else {
            None
        }
    }

    /// Generation `g`'s whole cohort for a replay: every bred faction's
    /// species with its ranked elites, in the regime's order (empty for a
    /// generation not completed).
    pub fn cohort_of(&self, g: usize) -> (v: Vec<(u16, &[Individual<S, K>])>)
        ensures
            v@.len() == factions_at(self.reports@, g as int).len(),
            forall|f: int|
                0 <= f < v@.len() ==> (#[trigger] v@[f]).0 == factions_at(self.reports@, g as int)[f].species
                    && v@[f].1@ == factions_at(self.reports@, g as int)[f].elites@,
    {
        let mut v: Vec<(u16, &[Individual<S, K>])> = Vec::new();
        if g >= self.reports.len() {
            return v;
        }
        let factions = &self.reports[g].factions;
        let mut f: usize = 0;
        while f < factions.len()
            invariant
                g < self.reports@.len(),
                *factions == self.reports@[g as int].factions,
                f <= factions@.len(),
                v@.len() == f,
                forall|k: int|
                    0 <= k < f ==> (#[trigger] v@[k]).0 == factions@[k].species && v@[k].1@
                        == factions@[k].elites@,
            decreases factions.len() - f,
        {
            let r = &factions[f];
            v.push((r.species, r.elites.as_slice()));
            f = f + 1;
        }
        v
    }
}


/// What the dashboard says once when a run ends, as its status changes.
pub open spec fn end_message(last: BreedingStatus, now: BreedingStatus) -> Option<Seq<char>> {
    if last == BreedingStatus::Running && now == BreedingStatus::Done {
        Some(
            "Breeding done — click the fitness curve to browse generations, or Replay one in the live world."@,
        )
    } else if last == BreedingStatus::Running && now == BreedingStatus::Stopped {
        Some("Breeding stopped — the completed generations stay browsable below."@)
    } else {
        None
    }
}

/// The dashboard's navigation state: which faction's leaderboard it shows,
/// which row is picked, which generation is pinned (none: follow the latest),
/// and the status it saw last.
pub struct PanelState {
    pub selected_faction: usize,
    pub selected: Option<usize>,
    pub selected_generation: Option<usize>,
    pub last_status: BreedingStatus,
}

impl PanelState {
    /// The state of a fresh session: the first faction, nothing picked,
    /// following the latest generation.
    pub fn new() -> (p: PanelState)
        ensures
            p.selected_faction == 0,
            p.selected is None,
            p.selected_generation is None,
            p.last_status == BreedingStatus::Idle,
    {
        PanelState {
            selected_faction: 0,
            selected: None,
            selected_generation: None,
            last_status: BreedingStatus::Idle,
        }
    }

    /// Notes the session's status for this frame; returns the message to show
    /// when a run has just ended (once, at the change).
    pub fn observe_status(&mut self, now: BreedingStatus) -> (m: Option<&'static str>)
        ensures
            final(self).last_status == now,
            final(self).selected_faction == old(self).selected_faction,
            final(self).selected == old(self).selected,
            final(self).selected_generation == old(self).selected_generation,
            match end_message(old(self).last_status, now) {
                Some(t) => m matches Some(x) && x@ == t,
                None => m is None,
            },
    {
        let last = self.last_status;
        self.last_status = now;
        if last == BreedingStatus::Running && now == BreedingStatus::Done {
            Some(
                "Breeding done — click the fitness curve to browse generations, or Replay one in the live world.",
            )
        } else if last == BreedingStatus::Running && now == BreedingStatus::Stopped {
            Some("Breeding stopped — the completed generations stay browsable below.")
        } else {
            None
        }
    }

    /// The generation the panel shows when `done` generations have completed
    /// (at least one): the pinned one, brought back within the history, or the
    /// latest when following.
    pub fn viewed_generation(&self, done: usize) -> (g: usize)
        requires
            done > 0,
        ensures
            g < done,
            match self.selected_generation {
                None => g == done - 1,
                Some(s) => g == (if s < done - 1 {
                    s
                } else {
                    (done - 1) as usize
                }),
            },
    {
        let latest = done - 1;
        match self.selected_generation {
            None => latest,
            Some(s) => if s < latest {
                s
            } else {
                latest
            },
        }
    }

    /// Turns following the latest generation on, or off by pinning the
    /// generation now shown; the picked row is dropped either way.
    pub fn set_follow(&mut self, follow: bool, done: usize)
        requires
            done > 0,
        ensures
            follow ==> final(self).selected_generation is None,
            !follow ==> final(self).selected_generation == Some(old(self).viewed_generation_spec(done)),
            final(self).selected is None,
            final(self).selected_faction == old(self).selected_faction,
            final(self).last_status == old(self).last_status,
    {
        let g = self.viewed_generation(done);
        self.selected_generation = if follow {
            None
        } else {
            Some(g)
        };
        self.selected = None;
    }

    /// The generation shown for `done` completed ones (see
    /// [`PanelState::viewed_generation`]).
    pub open spec fn viewed_generation_spec(&self, done: usize) -> usize {
        match self.selected_generation {
            None => (done - 1) as usize,
            Some(s) => if s < done - 1 {
                s
            } else {
                (done - 1) as usize
            },
        }
    }

    /// Pins the generation the fitness curve was clicked at (`index`, the
    /// click snapped to a generation), within the history; the picked row is
    /// dropped (rows are generation-local). Returns the pinned generation.
    pub fn pin_generation(&mut self, index: usize, done: usize) -> (g: usize)
        requires
            done > 0,
        ensures
            g == (if index < done - 1 {
                index
            } else {
                (done - 1) as usize
            }),
            final(self).selected_generation == Some(g),
            final(self).selected is None,
            final(self).selected_faction == old(self).selected_faction,
            final(self).last_status == old(self).last_status,
    {
        let latest = done - 1;
        let g = if index < latest {
            index
        } else {
            latest
        };
        self.selected_generation = Some(g);
        self.selected = None;
        g
    }

    /// The faction the leaderboard shows among `n` (at least one): the
    /// selected one, brought back within range.
    pub fn faction(&self, n: usize) -> (f: usize)
        requires
            n > 0,
        ensures
            f == (if self.selected_faction < n - 1 {
                self.selected_faction
            } else {
                (n - 1) as usize
            }),
    {
        if self.selected_faction < n - 1 {
            self.selected_faction
        } else {
            n - 1
        }
    }
}

} // verus!
