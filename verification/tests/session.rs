use teemlab::breeding::{Individual, MatchMetrics};
use teemlab::genotype::Genotype;
use teemlab::session::{
    worker_step, BreedingHistory, BreedingStatus, FactionReport, GenerationReport, PanelState, WorkerStep,
};

fn genome() -> Genotype<f32> {
    Genotype {
        max_speed: 140.0,
        agility: 0.2,
        vision_range: 140.0,
        vision_fov_deg: 120.0,
        reproduction_threshold: 160.0,
        offspring_energy: 80.0,
        mutation_rate: 0.05,
        base_metabolism: 1.0,
        move_cost: 0.01,
        vision_rays: 7.0,
        photosynthesis: 0.0,
        seed_dispersal: 0.0,
        brain_cost: 0.0,
        agility_cost: 0.0,
        nutrient_absorption: 0.0,
        nutrient_capacity: 0.0,
        offspring_nutrient: 0.0,
    }
}

fn faction(species: u16, best: f64, elites: &[u32]) -> FactionReport<f64, f32, u32> {
    FactionReport {
        species,
        best_fitness: best,
        mean_fitness: best / 2.0,
        match_scores: vec![best],
        match_metrics: vec![MatchMetrics { best_evolved: 1.0, population: best, dominance: 0.0, mean_reserve: 5.0 }],
        elites: elites
            .iter()
            .map(|&g| Individual { species, generation: g, reserve: 1.0, genotype: genome(), brain: g })
            .collect(),
    }
}

#[test]
fn a_session_runs_then_reads_back_its_history() {
    let mut h: BreedingHistory<f64, f32, u32> = BreedingHistory::new();
    assert_eq!(h.view().status, BreedingStatus::Idle);
    assert_eq!(h.faction_count(), 0);
    assert!(h.start(3));
    assert!(!h.start(5), "a run already in flight is left alone");
    assert_eq!(h.view().total, 3);
    h.push_report(GenerationReport { generation: 0, factions: vec![faction(0, 4.0, &[7, 5]), faction(1, 2.0, &[])] });
    h.push_report(GenerationReport { generation: 1, factions: vec![faction(0, 6.0, &[9]), faction(1, 3.0, &[2])] });
    let v = h.view();
    assert_eq!((v.status, v.done, v.total), (BreedingStatus::Running, 2, 3));
    assert_eq!(h.faction_count(), 2);
    assert_eq!(h.generation_count(), 2);
    let s = h.faction_summaries_at(1);
    assert_eq!(s.len(), 2);
    assert_eq!((s[0].species, s[0].best, s[0].mean), (0, 6.0, 3.0));
    assert!(h.faction_summaries_at(5).is_empty());
    assert_eq!(h.leaderboard_at(0, 0).len(), 2);
    assert_eq!(h.leaderboard_at(0, 0)[1].generation, 5);
    assert!(h.leaderboard_at(3, 0).is_empty());
    assert_eq!(h.match_metrics_at(1, 1)[0].population, 3.0);
    assert!(h.match_metrics_at(1, 9).is_empty());
    assert_eq!(h.elite_at(1, 0, 1).unwrap().brain, 2);
    assert!(h.elite_at(1, 0, 0).is_none());
    let cohort = h.cohort_of(0);
    assert_eq!(cohort.len(), 2);
    assert_eq!(cohort[0].0, 0);
    assert_eq!(cohort[0].1.len(), 2);
    assert!(cohort[1].1.is_empty());
    assert!(h.reports[0].factions[1].best().is_none());
    assert_eq!(h.reports[1].factions[0].best().unwrap().generation, 9);
    h.request_stop();
    assert!(h.stop);
    h.status = BreedingStatus::Stopped;
    assert!(h.start(1));
    assert_eq!(h.generation_count(), 0);
    assert!(!h.stop);
}

#[test]
fn the_worker_stops_only_between_generations() {
    assert_eq!(worker_step(false, false, false), WorkerStep::Finish);
    assert_eq!(worker_step(true, true, true), WorkerStep::Finish);
    assert_eq!(worker_step(true, false, true), WorkerStep::Stop);
    assert_eq!(worker_step(true, false, false), WorkerStep::RunGeneration);
    assert_eq!(BreedingStatus::default(), BreedingStatus::Idle);
}

#[test]
fn the_panel_follows_or_pins_generations() {
    let mut p = PanelState::new();
    assert_eq!(p.viewed_generation(5), 4, "following: the latest");
    assert_eq!(p.observe_status(BreedingStatus::Running), None);
    assert_eq!(
        p.observe_status(BreedingStatus::Done),
        Some("Breeding done — click the fitness curve to browse generations, or Replay one in the live world.")
    );
    assert_eq!(p.observe_status(BreedingStatus::Done), None, "said once, at the change");
    p.selected = Some(3);
    assert_eq!(p.pin_generation(9, 5), 4, "a click beyond the history pins the latest");
    assert_eq!(p.selected, None);
    assert_eq!(p.pin_generation(1, 5), 1);
    assert_eq!(p.viewed_generation(5), 1);
    assert_eq!(p.viewed_generation(1), 0, "a pinned generation is kept within the history");
    p.set_follow(true, 5);
    assert_eq!(p.selected_generation, None);
    p.set_follow(false, 3);
    assert_eq!(p.selected_generation, Some(2));
    p.selected_faction = 7;
    assert_eq!(p.faction(2), 1);
    assert_eq!(p.faction(9), 7);
    p.last_status = BreedingStatus::Running;
    assert_eq!(
        p.observe_status(BreedingStatus::Stopped),
        Some("Breeding stopped — the completed generations stay browsable below.")
    );
}
