use std::collections::HashMap;
use teemlab::brain::BrainKind;
use teemlab::config::{Archetype, Bounds, CostLaw, Mutability, Predation, Relation, SimConfig};
use teemlab::editor::{
    display_name, duplicate_archetype, export_path, form_label, has_base, next_variant_number, remove_archetype,
    sanitize_filename, swap_archetypes, variant_id, variant_path, CatalogForm, CatalogSpecies,
};
use teemlab::genotype::Genotype;

fn genome() -> Genotype<f32> {
    Genotype {
        max_speed: 140.0,
        agility: 0.2,
        vision_range: 140.0,
        vision_fov_deg: 120.0,
        reproduction_threshold: 160.0,
        offspring_energy: 80.0,
        mutation_rate: 0.05,
        base_metabolism: 1.0,
        move_cost: 0.01,
        vision_rays: 7.0,
        photosynthesis: 0.0,
        seed_dispersal: 0.0,
        brain_cost: 0.0,
        agility_cost: 0.0,
        nutrient_absorption: 0.0,
        nutrient_capacity: 0.0,
        offspring_nutrient: 0.0,
    }
}

fn archetype(name: &str, brain: BrainKind<f32>) -> Archetype<f32, u32> {
    Archetype {
        name: name.to_string(),
        color: [0.5, 0.5, 0.5],
        count: 10,
        radius: 8.0,
        reserve_max: 100.0,
        genotype: genome(),
        brain,
        mutable: Mutability::default(),
        source: None,
        captured_brain: None,
        captured_from: None,
        anchor: None,
    }
}

fn agent(i: usize) -> Archetype<f32, u32> {
    archetype(&format!("Species {i}"), BrainKind::Wander { turn_rate: 1.5 })
}

fn food(i: usize) -> Archetype<f32, u32> {
    archetype(&format!("Species {i}"), BrainKind::Sessile)
}

fn bounds() -> Bounds<f32> {
    Bounds { min: 0.0, max: 1.0 }
}

fn config(archetypes: Vec<Archetype<f32, u32>>, relations: Vec<Relation<f32>>) -> SimConfig<f32, f64, u32> {
    SimConfig {
        tick_hz: 64.0,
        arena_half_extent: 400.0,
        archetypes,
        relations,
        field_resolution: 64,
        components: vec![],
        sources: vec![],
        field_relations: vec![],
        speed_bounds: bounds(),
        agility_bounds: bounds(),
        vision_range_bounds: bounds(),
        vision_fov_bounds: bounds(),
        reproduction_threshold_bounds: bounds(),
        offspring_energy_bounds: bounds(),
        mutation_rate_bounds: bounds(),
        vision_rays_bounds: bounds(),
        photosynthesis_bounds: bounds(),
        seed_dispersal_bounds: bounds(),
        brain_cost_bounds: bounds(),
        act_cost_bounds: bounds(),
        cost_law: CostLaw { size_exponent: 2.0, maintenance: 0.0, locomotion: 0.0, maneuver: 0.0 },
        predation: Predation { size_margin: 0.1, range: 4.0, rate: 40.0 },
        play_area_color: [0.07, 0.07, 0.09],
        off_game_color: [0.17, 0.17, 0.19],
        seed: 0x00C0_FFEE,
        batch: None,
        founder_pools: HashMap::new(),
    }
}

fn rel(actor: u16, target: u16) -> Relation<f32> {
    Relation { actor, target, transfer: true, rate: 1.0, range: 1.0 }
}

#[test]
fn swap_transposes_relation_indices() {
    let mut config = config(vec![agent(0), agent(1), food(2)], vec![rel(0, 2), rel(1, 0)]);
    swap_archetypes(&mut config, 0, 1);
    assert_eq!(config.archetypes[0].name, "Species 1");
    assert_eq!(config.archetypes[1].name, "Species 0");
    assert_eq!((config.relations[0].actor, config.relations[0].target), (1, 2));
    assert_eq!((config.relations[1].actor, config.relations[1].target), (0, 1));
}

#[test]
fn duplicate_appends_a_clone_without_touching_relations() {
    let mut config = config(vec![agent(0), food(1)], vec![rel(0, 1)]);
    let new = duplicate_archetype(&mut config, 0).expect("clone of a valid index");
    assert_eq!(new, 2, "the clone is added at the end");
    assert_eq!(config.archetypes.len(), 3);
    assert_eq!(config.archetypes[2].name, "Species 0 (copy)");
    assert_eq!(config.archetypes[2].genotype.max_speed, config.archetypes[0].genotype.max_speed);
    assert_eq!(config.archetypes[2].genotype.vision_rays, config.archetypes[0].genotype.vision_rays);
    assert_eq!(config.archetypes[2].brain.name(), config.archetypes[0].brain.name());
    assert!(matches!(config.archetypes[2].brain, BrainKind::Wander { turn_rate } if turn_rate == 1.5));
    assert_eq!(config.relations.len(), 1);
    assert_eq!((config.relations[0].actor, config.relations[0].target), (0, 1));
}

#[test]
fn duplicate_out_of_range_is_none() {
    let mut config = config(vec![agent(0)], vec![]);
    let n = config.archetypes.len();
    assert_eq!(duplicate_archetype(&mut config, 99), None);
    assert_eq!(config.archetypes.len(), n, "nothing added");
}

#[test]
fn sanitize_filename_keeps_safe_chars() {
    assert_eq!(sanitize_filename("Gray wolf/2"), "Gray_wolf_2");
    assert_eq!(sanitize_filename("alpha-1_b"), "alpha-1_b");
    assert_eq!(sanitize_filename(""), "species");
}

#[test]
fn display_name_is_the_file_stem() {
    assert_eq!(display_name("species/examples/hunter.ron"), "hunter");
    assert_eq!(display_name("scenarios/examples/10_predator_prey.ron"), "10_predator_prey");
    assert_eq!(display_name("noext"), "noext");
}

#[test]
fn removal_drops_and_remaps_relations() {
    let mut config = config(vec![agent(0), agent(1), food(2)], vec![rel(0, 2), rel(1, 0), rel(2, 1)]);
    remove_archetype(&mut config, 1);
    assert_eq!(config.archetypes.len(), 2);
    assert_eq!(config.archetypes[1].name, "Species 2");
    // 1→0 and 2→1 referred to the removed species; 0→2 slides to 0→1
    assert_eq!(config.relations.len(), 1);
    assert_eq!((config.relations[0].actor, config.relations[0].target), (0, 1));
}

#[test]
fn swapping_twice_restores_the_scenario() {
    let mut config = config(vec![agent(0), agent(1), food(2)], vec![rel(0, 2), rel(2, 1)]);
    swap_archetypes(&mut config, 0, 2);
    swap_archetypes(&mut config, 0, 2);
    let names: Vec<&str> = config.archetypes.iter().map(|a| a.name.as_str()).collect();
    assert_eq!(names, vec!["Species 0", "Species 1", "Species 2"]);
    assert_eq!((config.relations[0].actor, config.relations[0].target), (0, 2));
    assert_eq!((config.relations[1].actor, config.relations[1].target), (2, 1));
}

fn form(name: &str, id: Option<&str>) -> CatalogForm<f32, u32> {
    CatalogForm {
        path: format!("species/saved/{name}.ron"),
        library: "saved",
        archetype: archetype(name, BrainKind::Hunter),
        variant_id: id.map(|s| s.to_string()),
        usage: vec![],
    }
}

#[test]
fn variant_numbers_continue_after_the_largest() {
    let mut hunter = CatalogSpecies::new("Hunter".to_string());
    hunter.base = Some(form("Hunter", None));
    hunter.variants.push(form("Hunter", Some("reef-1")));
    hunter.variants.push(form("Hunter", Some("reef-4")));
    hunter.variants.push(form("Hunter", Some("reef-x")));
    hunter.variants.push(form("Hunter", Some("kelp-9")));
    let mut other = CatalogSpecies::new("Grazer".to_string());
    other.variants.push(form("Grazer", Some("reef-7")));
    let catalog = vec![hunter, other];
    assert_eq!(next_variant_number(&catalog, "Hunter", "reef"), 5);
    assert_eq!(next_variant_number(&catalog, "Hunter", "kelp"), 10);
    assert_eq!(next_variant_number(&catalog, "Hunter", "dune"), 1);
    assert_eq!(next_variant_number(&catalog, "Grazer", "reef"), 8);
    assert_eq!(next_variant_number(&catalog, "Nobody", "reef"), 1);
    assert!(has_base(&catalog, "Hunter"));
    assert!(!has_base(&catalog, "Grazer"));
    let forms = catalog[0].forms();
    assert_eq!(forms.len(), 5);
    assert_eq!(form_label(forms[0]), "Base");
    assert_eq!(form_label(forms[1]), "Hunter (reef-1)");
}

#[test]
fn library_paths_and_ids() {
    assert_eq!(export_path("Gray wolf"), "species/saved/Gray_wolf.ron");
    assert_eq!(variant_id("reef", 12), "reef-12");
    assert_eq!(variant_path("Gray wolf", "reef-12"), "species/saved/Gray_wolf--reef-12.ron");
}
