use std::collections::HashMap;
use teemlab::brain::BrainKind;
use teemlab::config::{Archetype, Bounds, CostLaw, Mutability, Predation, Relation, SimConfig};
use teemlab::genotype::Genotype;
use teemlab::sweep::{per_species, species_names, tally, Knob};

fn genome() -> Genotype<f32> {
    Genotype {
        max_speed: 140.0,
        agility: 0.2,
        vision_range: 140.0,
        vision_fov_deg: 120.0,
        reproduction_threshold: 160.0,
        offspring_energy: 80.0,
        mutation_rate: 0.05,
        base_metabolism: 1.0,
        move_cost: 0.01,
        vision_rays: 7.0,
        photosynthesis: 0.0,
        seed_dispersal: 0.0,
        brain_cost: 0.0,
        agility_cost: 0.0,
        nutrient_absorption: 0.0,
        nutrient_capacity: 0.0,
        offspring_nutrient: 0.0,
    }
}

fn archetype(name: &str) -> Archetype<f32, u32> {
    Archetype {
        name: name.to_string(),
        color: [0.5, 0.5, 0.5],
        count: 10,
        radius: 8.0,
        reserve_max: 100.0,
        genotype: genome(),
        brain: BrainKind::Hunter,
        mutable: Mutability::default(),
        source: None,
        captured_brain: None,
        captured_from: None,
        anchor: None,
    }
}

fn bounds() -> Bounds<f32> {
    Bounds { min: 0.0, max: 1.0 }
}

fn config() -> SimConfig<f32, f64, u32> {
    SimConfig {
        tick_hz: 64.0,
        arena_half_extent: 400.0,
        archetypes: vec![archetype("Grass"), archetype("Grazer")],
        relations: vec![Relation { actor: 1, target: 0, transfer: true, rate: 1.0, range: 1.0 }],
        field_resolution: 64,
        components: vec![],
        sources: vec![],
        field_relations: vec![],
        speed_bounds: bounds(),
        agility_bounds: bounds(),
        vision_range_bounds: bounds(),
        vision_fov_bounds: bounds(),
        reproduction_threshold_bounds: bounds(),
        offspring_energy_bounds: bounds(),
        mutation_rate_bounds: bounds(),
        vision_rays_bounds: bounds(),
        photosynthesis_bounds: bounds(),
        seed_dispersal_bounds: bounds(),
        brain_cost_bounds: bounds(),
        act_cost_bounds: bounds(),
        cost_law: CostLaw { size_exponent: 2.0, maintenance: 0.0, locomotion: 0.0, maneuver: 0.0 },
        predation: Predation { size_margin: 0.1, range: 4.0, rate: 40.0 },
        play_area_color: [0.07, 0.07, 0.09],
        off_game_color: [0.17, 0.17, 0.19],
        seed: 1,
        batch: None,
        founder_pools: HashMap::new(),
    }
}

#[test]
fn knobs_parse_from_kind_and_index() {
    assert_eq!(Knob::parse("count:1"), Some(Knob::Count(1)));
    assert_eq!(Knob::parse("mutation:0"), Some(Knob::Mutation(0)));
    assert_eq!(Knob::parse("photo:2"), Some(Knob::Photosynthesis(2)));
    assert_eq!(Knob::parse("rate:+7"), Some(Knob::Rate(7)));
    assert_eq!(Knob::parse("rate"), None);
    assert_eq!(Knob::parse("speed:1"), None);
    assert_eq!(Knob::parse("count:x"), None);
    assert_eq!(Knob::parse("count:"), None);
    assert_eq!(Knob::parse("count:1:2"), None);
    assert_eq!(Knob::parse("Count:1"), None);
}

#[test]
fn knob_labels() {
    assert_eq!(Knob::Count(1).label(), "count[sp1]");
    assert_eq!(Knob::Mutation(0).label(), "mutation[sp0]");
    assert_eq!(Knob::Photosynthesis(12).label(), "photo[sp12]");
    assert_eq!(Knob::Rate(3).label(), "rate[rel3]");
}

#[test]
fn knobs_write_the_addressed_field() {
    let mut c = config();
    Knob::Count(1).apply(&mut c, 42, 0.0);
    assert_eq!(c.archetypes[1].count, 42);
    assert_eq!(c.archetypes[0].count, 10);
    Knob::Mutation(0).apply(&mut c, 0, 0.3);
    assert_eq!(c.archetypes[0].genotype.mutation_rate, 0.3);
    Knob::Photosynthesis(0).apply(&mut c, 0, 2.5);
    assert_eq!(c.archetypes[0].genotype.photosynthesis, 2.5);
    Knob::Rate(0).apply(&mut c, 0, 9.0);
    assert_eq!(c.relations[0].rate, 9.0);
    // out of range: no-op
    Knob::Count(7).apply(&mut c, 1, 1.0);
    Knob::Rate(7).apply(&mut c, 1, 1.0);
    assert_eq!(c.archetypes.len(), 2);
    assert_eq!(c.relations[0].rate, 9.0);
}

#[test]
fn tally_counts_living_agents_per_species() {
    assert_eq!(tally(&vec![0, 1, 1, 3, 1], 3), vec![1, 3, 0]);
    assert_eq!(tally(&vec![], 2), vec![0, 0]);
}

#[test]
fn per_species_lists_the_living() {
    let names = species_names(&config());
    assert_eq!(names, vec!["Grass", "Grazer"]);
    assert_eq!(per_species(&vec![1, 2], &names), "Grass=1  Grazer=2");
    assert_eq!(per_species(&vec![0, 2, 5], &names), "Grazer=2  ?=5");
    assert_eq!(per_species(&vec![0, 0], &names), "");
}

#[test]
fn knob_indices_read_back_their_decimal_writing() {
    for n in [0usize, 7, 10, 4096, usize::MAX] {
        let spec = format!("photo:{}", teemlab::text::format_decimal(n as u64));
        assert_eq!(Knob::parse(&spec), Some(Knob::Photosynthesis(n)));
    }
    assert_eq!(Knob::parse("count:18446744073709551616"), None, "beyond usize");
}
