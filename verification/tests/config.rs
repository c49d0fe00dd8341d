use std::collections::HashMap;
use teemlab::brain::BrainKind;
use teemlab::config::{
    AnchorConfig, Archetype, BatchConfig, Bounds, ComponentConfig, CostLaw, FieldRelation, Fitness,
    Mutability, Predation, Relation, SimConfig, SpeciesEntry,
};
use teemlab::genotype::Genotype;

fn genome() -> Genotype<f32> {
    Genotype {
        max_speed: 140.0,
        agility: 0.2,
        vision_range: 140.0,
        vision_fov_deg: 120.0,
        reproduction_threshold: 160.0,
        offspring_energy: 80.0,
        mutation_rate: 0.05,
        base_metabolism: 1.0,
        move_cost: 0.01,
        vision_rays: 7.0,
        photosynthesis: 0.0,
        seed_dispersal: 0.0,
        brain_cost: 0.0,
        agility_cost: 0.0,
        nutrient_absorption: 0.0,
        nutrient_capacity: 0.0,
        offspring_nutrient: 0.0,
    }
}

fn archetype(name: &str, brain: BrainKind<f32>) -> Archetype<f32, u32> {
    Archetype {
        name: name.to_string(),
        color: [0.5, 0.5, 0.5],
        count: 10,
        radius: 8.0,
        reserve_max: 100.0,
        genotype: genome(),
        brain,
        mutable: Mutability::default(),
        source: None,
        captured_brain: None,
        captured_from: None,
        anchor: None,
    }
}

fn agent(i: usize) -> Archetype<f32, u32> {
    archetype(&format!("Species {i}"), BrainKind::Wander { turn_rate: 1.5 })
}

fn food(i: usize) -> Archetype<f32, u32> {
    archetype(&format!("Species {i}"), BrainKind::Sessile)
}

fn bounds() -> Bounds<f32> {
    Bounds { min: 0.0, max: 1.0 }
}

fn config(archetypes: Vec<Archetype<f32, u32>>, relations: Vec<Relation<f32>>) -> SimConfig<f32, f64, u32> {
    SimConfig {
        tick_hz: 64.0,
        arena_half_extent: 400.0,
        archetypes,
        relations,
        field_resolution: 64,
        components: vec![],
        sources: vec![],
        field_relations: vec![],
        speed_bounds: bounds(),
        agility_bounds: bounds(),
        vision_range_bounds: bounds(),
        vision_fov_bounds: bounds(),
        reproduction_threshold_bounds: bounds(),
        offspring_energy_bounds: bounds(),
        mutation_rate_bounds: bounds(),
        vision_rays_bounds: bounds(),
        photosynthesis_bounds: bounds(),
        seed_dispersal_bounds: bounds(),
        brain_cost_bounds: bounds(),
        act_cost_bounds: bounds(),
        cost_law: CostLaw { size_exponent: 2.0, maintenance: 0.0, locomotion: 0.0, maneuver: 0.0 },
        predation: Predation { size_margin: 0.1, range: 4.0, rate: 40.0 },
        play_area_color: [0.07, 0.07, 0.09],
        off_game_color: [0.17, 0.17, 0.19],
        seed: 0x00C0_FFEE,
        batch: None,
        founder_pools: HashMap::new(),
    }
}

fn rel(actor: u16, target: u16) -> Relation<f32> {
    Relation { actor, target, transfer: true, rate: 1.0, range: 1.0 }
}

fn row(species: u16, component: usize, sense: bool) -> FieldRelation<f32> {
    FieldRelation {
        species,
        component,
        absorb: 1.0,
        capacity: 2.0,
        emit: 0.0,
        emit_at_death: 0.0,
        sense,
        affect: 0.0,
        repro_cost: 0.5,
        need: 0.0,
    }
}

#[test]
fn acts_on_follows_relations() {
    let cfg = config(vec![agent(0)], vec![rel(0, 1)]);
    assert!(cfg.acts_on(0, 1));
    assert!(!cfg.acts_on(1, 0), "the relation is directed");
    assert!(!cfg.acts_on(0, 2), "species not targeted");
}

#[test]
fn resolvers_read_archetype_by_index() {
    let mut cfg = config(vec![agent(0)], vec![]);
    cfg.archetypes.push(food(1));
    cfg.archetypes[0].brain = BrainKind::Hunter;
    cfg.archetypes[0].reserve_max = 120.0;
    cfg.archetypes[0].radius = 10.0;
    let default_kind = BrainKind::Wander { turn_rate: 1.5 };
    assert!(matches!(cfg.brain_of(0, default_kind), BrainKind::Hunter));
    assert_eq!(cfg.reserve_max_of(0, 100.0), 120.0);
    assert_eq!(cfg.agent_radius_of(0, 8.0), 10.0);
    assert!(cfg.archetypes[1].is_sessile());
    let fallback = genome();
    assert_eq!(cfg.founder_max_speed_of(0, fallback.max_speed), cfg.genotype_of(0, fallback).max_speed);
    assert!(matches!(cfg.brain_of(9, BrainKind::Wander { turn_rate: 1.5 }), BrainKind::Wander { turn_rate } if turn_rate == 1.5));
    assert_eq!(cfg.reserve_max_of(9, 100.0), 100.0);
    assert_eq!(cfg.founder_max_speed_of(9, fallback.max_speed), cfg.genotype_of(9, fallback).max_speed);
}

#[test]
fn capture_freezes_genome_and_weights_with_origin_link() {
    let source = agent(0);
    let mut evolved = genome();
    evolved.vision_range = 123.0;
    let brain: u32 = 77;
    let captured = source.capture(evolved, brain, 42);
    assert_eq!(captured.captured_brain, Some(brain), "concrete weights frozen");
    assert_eq!(captured.genotype.vision_range, 123.0, "evolved genome carried over");
    assert_eq!(captured.captured_from.as_deref(), Some("Species 0 · G42"), "origin link = species + generation");
    assert_eq!(captured.source, None, "not a library import");
    assert!(captured.name.contains("(captured)"), "name marked");
    assert_eq!(captured.name, "Species 0 (captured)");
    assert_eq!(captured.color, source.color);
    assert_eq!(captured.radius, source.radius);
    assert_eq!(captured.count, source.count);
    assert!(source.captured_brain.is_none(), "the source species is intact");
}

#[test]
fn species_cardinality_is_at_least_one() {
    assert_eq!(config(vec![], vec![]).species_cardinality(), 1);
    assert_eq!(config(vec![agent(0), food(1)], vec![]).species_cardinality(), 2);
}

#[test]
fn sensed_components_are_sorted_without_repeats() {
    let mut cfg = config(vec![agent(0)], vec![]);
    cfg.field_relations = vec![row(0, 3, true), row(1, 1, true), row(0, 1, true), row(0, 3, true), row(0, 2, false)];
    assert_eq!(cfg.sensed_components(0), vec![1, 3]);
    assert_eq!(cfg.sensed_components(1), vec![1]);
    assert!(cfg.sensed_components(2).is_empty());
}

#[test]
fn field_relation_rows_by_component() {
    let mut cfg = config(vec![agent(0)], vec![]);
    cfg.components = vec![ComponentConfig { name: "nutrient".to_string(), diffusion: 0.1, decay: 0.0 }];
    cfg.field_relations = vec![row(1, 0, false), row(0, 2, false), row(0, 0, false), row(0, 0, true)];
    assert_eq!(cfg.nutrient_row(0), Some(2));
    assert_eq!(cfg.nutrient_row(1), Some(0));
    assert_eq!(cfg.nutrient_row(5), None);
    // spans every declared component and every component a row refers to
    assert_eq!(cfg.component_rows(0), vec![Some(2), None, Some(1)]);
    assert_eq!(cfg.component_rows(1), vec![Some(0)]);
    assert_eq!(cfg.component_rows(7), vec![None]);
}

#[test]
fn mutability_and_anchor_resolvers() {
    let mut cfg = config(vec![agent(0), food(1)], vec![]);
    cfg.archetypes[1].mutable = Mutability::all_fixed();
    cfg.archetypes[1].anchor = Some(AnchorConfig { stiffness: 1.0, damping: 0.5, tear_force: 9.0, die_on_detach: true });
    cfg.archetypes[0].captured_brain = Some(5);
    assert_eq!(cfg.mutable_of(1), Mutability::all_fixed());
    assert_eq!(cfg.mutable_of(9), Mutability::default());
    assert!(cfg.mutable_of(9).max_speed && !cfg.mutable_of(9).mutation_rate);
    assert!(cfg.anchor_of(1).unwrap().die_on_detach);
    assert!(cfg.anchor_of(0).is_none());
    assert_eq!(cfg.captured_brain_of(0), Some(&5));
    assert_eq!(cfg.captured_brain_of(1), None);
    assert_eq!(cfg.color_of(0, [1.0, 1.0, 1.0]), [0.5, 0.5, 0.5]);
    assert_eq!(cfg.color_of(4, [1.0, 0.0, 0.0]), [1.0, 0.0, 0.0]);
}

#[test]
fn breeding_defaults_and_entries() {
    let b: BatchConfig = BatchConfig::default_regime();
    assert_eq!((b.generations, b.matches_per_gen, b.match_ticks), (8, 4, 5000));
    assert_eq!(b.scored_species, vec![0]);
    assert_eq!(b.fitness, Fitness::Population);
    assert_eq!((b.survivors, b.seed_base), (2, 1));
    let base = SpeciesEntry::base(agent(0));
    assert!(!base.is_variant());
    let variant = SpeciesEntry::variant(agent(0), "Species 0".to_string(), "reef-1".to_string());
    assert!(variant.is_variant());
    assert_eq!(variant.variant_id.as_deref(), Some("reef-1"));
    let copy = agent(0).renamed_copy("Other".to_string());
    assert_eq!(copy.name, "Other");
    assert_eq!(copy.count, 10);
}

#[test]
fn new_archetypes_take_their_defaults() {
    let a: Archetype<f32, u32> = Archetype::new_agent(3, [0.3, 0.7, 1.0], 8.0, 100.0, genome(), BrainKind::Hunter);
    assert_eq!(a.name, "Species 3");
    assert_eq!(a.count, 48);
    assert_eq!(a.mutable, Mutability::default());
    assert!(a.source.is_none() && a.captured_brain.is_none() && a.captured_from.is_none() && a.anchor.is_none());
    let f: Archetype<f32, u32> = Archetype::new_food([0.5, 0.9, 0.4], 6.0, 50.0, genome());
    assert_eq!(f.name, "Food");
    assert_eq!(f.count, 0);
    assert!(f.is_sessile());
    assert_eq!(f.mutable, Mutability::all_fixed());
}
