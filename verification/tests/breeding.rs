use std::collections::HashMap;
use teemlab::brain::BrainKind;
use teemlab::breeding::{
    deepest_members, founder_sources, install_founders, next_champion, seed_founders, survivor_plan, Individual, MatchCounts, MatchMetrics,
    Orchestrator, PoolSlot,
};
use teemlab::config::{Archetype, BatchConfig, Bounds, CostLaw, Fitness, Mutability, Predation, Relation, SimConfig};
use teemlab::genotype::Genotype;

fn genome() -> Genotype<f32> {
    Genotype {
        max_speed: 140.0,
        agility: 0.2,
        vision_range: 140.0,
        vision_fov_deg: 120.0,
        reproduction_threshold: 160.0,
        offspring_energy: 80.0,
        mutation_rate: 0.05,
        base_metabolism: 1.0,
        move_cost: 0.01,
        vision_rays: 7.0,
        photosynthesis: 0.0,
        seed_dispersal: 0.0,
        brain_cost: 0.0,
        agility_cost: 0.0,
        nutrient_absorption: 0.0,
        nutrient_capacity: 0.0,
        offspring_nutrient: 0.0,
    }
}

fn archetype(name: &str, brain: BrainKind<f32>) -> Archetype<f32, u32> {
    Archetype {
        name: name.to_string(),
        color: [0.5, 0.5, 0.5],
        count: 10,
        radius: 8.0,
        reserve_max: 100.0,
        genotype: genome(),
        brain,
        mutable: Mutability::default(),
        source: None,
        captured_brain: None,
        captured_from: None,
        anchor: None,
    }
}

fn agent(i: usize) -> Archetype<f32, u32> {
    archetype(&format!("Species {i}"), BrainKind::Wander { turn_rate: 1.5 })
}

fn food(i: usize) -> Archetype<f32, u32> {
    archetype(&format!("Species {i}"), BrainKind::Sessile)
}

fn bounds() -> Bounds<f32> {
    Bounds { min: 0.0, max: 1.0 }
}

fn config(archetypes: Vec<Archetype<f32, u32>>, relations: Vec<Relation<f32>>) -> SimConfig<f32, f64, u32> {
    SimConfig {
        tick_hz: 64.0,
        arena_half_extent: 400.0,
        archetypes,
        relations,
        field_resolution: 64,
        components: vec![],
        sources: vec![],
        field_relations: vec![],
        speed_bounds: bounds(),
        agility_bounds: bounds(),
        vision_range_bounds: bounds(),
        vision_fov_bounds: bounds(),
        reproduction_threshold_bounds: bounds(),
        offspring_energy_bounds: bounds(),
        mutation_rate_bounds: bounds(),
        vision_rays_bounds: bounds(),
        photosynthesis_bounds: bounds(),
        seed_dispersal_bounds: bounds(),
        brain_cost_bounds: bounds(),
        act_cost_bounds: bounds(),
        cost_law: CostLaw { size_exponent: 2.0, maintenance: 0.0, locomotion: 0.0, maneuver: 0.0 },
        predation: Predation { size_margin: 0.1, range: 4.0, rate: 40.0 },
        play_area_color: [0.07, 0.07, 0.09],
        off_game_color: [0.17, 0.17, 0.19],
        seed: 0x00C0_FFEE,
        batch: None,
        founder_pools: HashMap::new(),
    }
}

fn rel(actor: u16, target: u16) -> Relation<f32> {
    Relation { actor, target, transfer: true, rate: 1.0, range: 1.0 }
}

/// A cheap individual: the brain is a plain tag here; scoring and selection read only
/// species, generation and reserve.
fn ind(species: u16, generation: u32, reserve: f32) -> Individual<f32, u32> {
    Individual { species, generation, reserve, genotype: genome(), brain: 1 }
}

/// The counts of a match, and a flag per member telling whether its brain is sessile.
fn counts(pop: &[Individual<f32, u32>], sessile: &[bool], scored: u16) -> MatchCounts {
    let inds: Vec<Individual<f32, u32>> = pop.iter().map(|i| Individual { genotype: i.genotype, ..*i }).collect();
    MatchCounts::compute(&inds, &sessile.to_vec(), scored)
}

fn best_of(pop: &[Individual<f32, u32>], scored: u16) -> Option<(u32, f32)> {
    let inds: Vec<Individual<f32, u32>> = pop.iter().map(|i| Individual { genotype: i.genotype, ..*i }).collect();
    let idx = deepest_members(&inds, scored);
    // the carried member: the last of the deepest with the greatest reserve
    idx.iter()
        .copied()
        .max_by(|&a, &b| inds[a].reserve.partial_cmp(&inds[b].reserve).unwrap_or(std::cmp::Ordering::Equal))
        .map(|i| (inds[i].generation, inds[i].reserve))
}

#[test]
fn best_evolved_takes_deepest_generation_of_scored_species() {
    let pop = [ind(0, 3, 50.0), ind(0, 7, 10.0), ind(0, 5, 99.0), ind(1, 20, 99.0)];
    assert_eq!(counts(&pop, &[false; 4], 0).best_evolved as f64, 7.0);
}

#[test]
fn population_counts_the_scored_species() {
    let pop = [ind(0, 1, 1.0), ind(0, 2, 1.0), ind(1, 1, 1.0)];
    assert_eq!(counts(&pop, &[false; 3], 0).population as f64, 2.0);
    assert_eq!(counts(&pop, &[false; 3], 1).population as f64, 1.0);
}

#[test]
fn extinct_scored_species_scores_zero() {
    let pop = [ind(1, 9, 99.0)];
    assert_eq!(counts(&pop, &[false], 0).best_evolved as f64, 0.0);
    assert_eq!(counts(&pop, &[false], 0).population as f64, 0.0);
    assert_eq!(counts(&[], &[], 0).best_evolved as f64, 0.0);
}

#[test]
fn match_metrics_computes_every_diagnostic() {
    let mut sessile = ind(2, 0, 99.0);
    sessile.brain = 0;
    let pop = [ind(0, 4, 10.0), ind(0, 7, 30.0), ind(1, 9, 5.0), sessile];
    let flags = [false, false, false, true];
    let c = counts(&pop, &flags, 0);
    assert_eq!(c.best_evolved as f64, 7.0, "deepest generation of species 0");
    assert_eq!(c.population as f64, 2.0, "two survivors of species 0");
    assert_eq!(c.dominance() as f64, 1.0, "2 own − 1 non-sessile rival (food excluded)");
    let reserves: f64 = pop.iter().filter(|i| i.species == 0).map(|i| i.reserve as f64).sum();
    let m = MatchMetrics {
        best_evolved: c.best_evolved as f64,
        population: c.population as f64,
        dominance: c.dominance() as f64,
        mean_reserve: reserves / c.population as f64,
    };
    assert_eq!(m.mean_reserve, 20.0, "(10 + 30) / 2");
    assert_eq!(m.of(Fitness::BestEvolved), 7.0);
    assert_eq!(m.of(Fitness::Population), 2.0);
    assert_eq!(m.of(Fitness::Dominance), 1.0);
    let c0 = counts(&[ind(1, 3, 5.0)], &[false], 0);
    assert_eq!((c0.best_evolved, c0.population), (0, 0));
}

#[test]
fn seed_founders_builds_a_pool_led_by_the_champion() {
    let mut config = config(vec![agent(0)], vec![]);
    config.archetypes[0].count = 5;
    let mut evolved = genome();
    evolved.vision_range = 99.0;
    let champ: u32 = 100;
    let elites = vec![
        Individual { species: 0, generation: 3, reserve: 50.0, genotype: evolved, brain: champ },
        Individual { species: 0, generation: 2, reserve: 40.0, genotype: evolved, brain: 200 },
    ];
    // founder 0 is the top elite itself; the others cycle over the cohort
    assert_eq!(founder_sources(config.archetypes[0].count, elites.len()), vec![0, 1, 0, 1, 0]);
    let variant = |e: &Individual<f32, u32>, k: usize| e.brain + k as u32;
    seed_founders(&mut config, 0, &elites, variant);
    let pool = config.founder_pools.get(&0).expect("a founder pool");
    assert_eq!(pool.len(), 5, "one founder per archetype count");
    assert_eq!(pool[0], champ, "founder 0 is the champion, intact");
    assert!(pool[1..].iter().any(|b| *b != champ), "the rest are diversified variants of the cohort");
    assert_eq!(*pool, vec![100, 201, 102, 203, 104]);
    assert_eq!(config.archetypes[0].genotype.vision_range, 99.0);
    assert_eq!(config.archetypes[0].captured_brain, Some(champ));
    // a species beyond the list still gets its (empty) pool, the archetypes untouched
    seed_founders(&mut config, 9, &elites, variant);
    assert!(config.founder_pools.get(&9).unwrap().is_empty());
    assert_eq!(config.archetypes.len(), 1);
    // An empty cohort is a no-op (no pool inserted).
    let mut c2 = self::config(vec![agent(0)], vec![]);
    seed_founders(&mut c2, 0, &vec![], variant);
    assert!(c2.founder_pools.is_empty());
    assert_eq!(c2.archetypes[0].captured_brain, None);
}

#[test]
fn installing_founders_sets_the_pool_and_the_archetype() {
    let mut config = config(vec![agent(0)], vec![]);
    let mut evolved = genome();
    evolved.vision_range = 42.0;
    install_founders(&mut config, 0, evolved, 7, vec![7, 8]);
    assert_eq!(config.founder_pools.get(&0), Some(&vec![7, 8]));
    assert_eq!(config.archetypes[0].genotype.vision_range, 42.0);
    assert_eq!(config.archetypes[0].captured_brain, Some(7));
}

#[test]
fn dominance_is_own_minus_living_non_sessile_rivals() {
    let pop = [ind(0, 1, 1.0), ind(0, 1, 1.0), ind(0, 1, 1.0), ind(1, 1, 1.0), ind(2, 0, 50.0)];
    let flags = [false, false, false, false, true];
    assert_eq!(counts(&pop, &flags, 0).dominance() as f64, 2.0);
    assert_eq!(counts(&pop, &flags, 1).dominance() as f64, -2.0);
    assert_eq!(counts(&[ind(2, 0, 50.0)], &[true], 0).dominance() as f64, 0.0);
}

#[test]
fn best_individual_is_generation_then_reserve() {
    let pop = [ind(0, 5, 99.0), ind(0, 7, 10.0), ind(0, 7, 40.0), ind(1, 9, 99.0)];
    let inds: Vec<Individual<f32, u32>> = pop.iter().map(|i| Individual { genotype: i.genotype, ..*i }).collect();
    assert_eq!(deepest_members(&inds, 0), vec![1, 2]);
    assert_eq!(best_of(&pop, 0), Some((7, 40.0)));
}

#[test]
fn best_individual_is_none_when_scored_species_extinct() {
    let pop = [ind(1, 3, 50.0)];
    assert!(best_of(&pop, 0).is_none());
    assert!(best_of(&[], 0).is_none());
}

#[test]
fn survivor_pool_keeps_the_champion() {
    // champion not among the top: it leads, the pool is cut back to `survivors`
    assert_eq!(survivor_plan(3, 2, true, &vec![false, false, true]), vec![PoolSlot::Champion, PoolSlot::Elite(0)]);
    // champion already carried by a top elite: the plain top-K
    assert_eq!(survivor_plan(3, 2, true, &vec![false, true, false]), vec![PoolSlot::Elite(0), PoolSlot::Elite(1)]);
    // no selection: nothing carried
    assert_eq!(survivor_plan(3, 0, true, &vec![false, false, false]), vec![]);
    // fewer elites than places
    assert_eq!(
        survivor_plan(1, 4, true, &vec![false]),
        vec![PoolSlot::Champion, PoolSlot::Elite(0)]
    );
    assert_eq!(survivor_plan(2, 4, false, &vec![false, false]), vec![PoolSlot::Elite(0), PoolSlot::Elite(1)]);
}

#[test]
fn orchestrator_bookkeeping() {
    let mut c = config(vec![agent(0)], vec![]);
    assert!(Orchestrator::<f32, f64, u32, f64>::new(config(vec![agent(0)], vec![])).is_none(), "no regime, nothing to breed");
    c.founder_pools.insert(0, vec![3, 4]);
    c.batch = Some(BatchConfig {
        generations: 2,
        matches_per_gen: 4,
        match_ticks: 100,
        scored_species: vec![0],
        fitness: Fitness::Population,
        survivors: 1,
        seed_base: u64::MAX - 1,
    });
    let mut o: Orchestrator<f32, f64, u32, f64> = Orchestrator::new(c).expect("a regime");
    assert!(o.base().batch.is_none());
    assert!(o.base().founder_pools.is_empty());
    assert_eq!(o.generations(), 2);
    assert_eq!(o.scored_species(), &[0]);
    assert!(o.survivors().is_empty());
    assert!(!o.is_done());
    assert!(o.elite_for_match(0, 3).is_none());
    assert_eq!(o.match_seed(0), u64::MAX - 1);
    assert_eq!(o.match_seed(2), 0, "the seed wraps");
    let g = o.close_generation(vec![vec![ind(0, 4, 1.0), ind(0, 2, 1.0)]], vec![Some((3.0, ind(0, 4, 1.0)))]);
    assert_eq!(g, 0);
    assert_eq!(o.next_generation(), 1);
    assert_eq!(o.match_seed(1), 3, "generation 1 starts after the 4 matches of generation 0");
    assert_eq!(o.elite_for_match(0, 3).unwrap().generation, 2, "round-robin over the pool");
    assert_eq!(o.survivors().len(), 2);
    assert_eq!(o.champion(0).as_ref().unwrap().0, 3.0);
    o.close_generation(vec![vec![]], vec![None]);
    assert!(o.is_done());
}

#[test]
fn champion_is_replaced_only_with_selection_on_and_when_beaten() {
    // no champion yet: the generation's top elite takes the title
    assert_eq!(next_champion(2, Some(7u32), 3.5f64, None, false), Some((3.5, 7)));
    // a beaten holder is replaced, an unbeaten one stays
    assert_eq!(next_champion(2, Some(7u32), 3.5f64, Some((2.0, 1)), true), Some((3.5, 7)));
    assert_eq!(next_champion(2, Some(7u32), 1.5f64, Some((2.0, 1)), false), Some((2.0, 1)));
    // selection off (the no-selection contrast): nothing changes
    assert_eq!(next_champion(0, Some(7u32), 3.5f64, None, false), None);
    assert_eq!(next_champion(0, Some(7u32), 3.5f64, Some((2.0, 1)), true), Some((2.0, 1)));
    // an empty cohort has no elite to promote
    assert_eq!(next_champion(2, None::<u32>, 3.5f64, Some((2.0, 1)), true), Some((2.0, 1)));
}
