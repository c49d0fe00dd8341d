use teemlab::brain::BrainKind;
use teemlab::config::{Archetype, Mutability, SpeciesEntry};
use teemlab::genotype::Genotype;
use teemlab::library::{stem, CatalogSource, Library, LibraryTab, WorldEntry};

fn genome() -> Genotype<f32> {
    Genotype {
        max_speed: 140.0,
        agility: 0.2,
        vision_range: 140.0,
        vision_fov_deg: 120.0,
        reproduction_threshold: 160.0,
        offspring_energy: 80.0,
        mutation_rate: 0.05,
        base_metabolism: 1.0,
        move_cost: 0.01,
        vision_rays: 7.0,
        photosynthesis: 0.0,
        seed_dispersal: 0.0,
        brain_cost: 0.0,
        agility_cost: 0.0,
        nutrient_absorption: 0.0,
        nutrient_capacity: 0.0,
        offspring_nutrient: 0.0,
    }
}

fn species(name: &str) -> SpeciesEntry<f32, u32> {
    SpeciesEntry::base(Archetype {
        name: name.to_string(),
        color: [0.2, 0.6, 0.9],
        count: 10,
        radius: 8.0,
        reserve_max: 100.0,
        genotype: genome(),
        brain: BrainKind::Wander { turn_rate: 1.5 },
        mutable: Mutability::default(),
        source: None,
        captured_brain: None,
        captured_from: None,
        anchor: None,
    })
}

#[test]
fn compose_needs_a_world() {
    let lib: Library<&str, f32, u32> = Library::default();
    assert!(lib.compose().is_none(), "no chosen World → nothing to run");
}

#[test]
fn compose_drops_the_cast_into_the_world_with_counts() {
    let mut lib: Library<&str, f32, u32> = Library::default();
    lib.worlds.push(WorldEntry {
        name: "reef".into(),
        world: "reef stage",
        source: CatalogSource::Examples,
        path: None,
        derived_from: 1,
    });
    lib.chosen_world = Some(0);
    lib.add_to_cast(species("Grazer"));
    lib.add_to_cast(species("Grazer"));
    lib.add_to_cast(species("Kelp"));

    assert_eq!(lib.cast.len(), 2, "same-named species bump the count");
    let (world, archetypes) = lib.compose().expect("a World is chosen");
    assert_eq!(*world, "reef stage");
    assert_eq!(archetypes.len(), 2, "the two distinct species are dropped in");
    let grazer = archetypes.iter().find(|a| a.name == "Grazer").unwrap();
    assert_eq!(grazer.count, 2, "the bumped count carries into the scenario");
    let kelp = archetypes.iter().find(|a| a.name == "Kelp").unwrap();
    assert_eq!(kelp.count, 1);
    assert_eq!(kelp.radius, 8.0);
}

#[test]
fn compose_ignores_a_choice_beyond_the_catalog() {
    let mut lib: Library<&str, f32, u32> = Library::new();
    lib.chosen_world = Some(3);
    assert!(lib.compose().is_none());
    assert_eq!(lib.tab, LibraryTab::Worlds);
    assert_eq!(lib.source, CatalogSource::Examples);
    assert_eq!(LibraryTab::default(), LibraryTab::Worlds);
    assert_eq!(CatalogSource::default(), CatalogSource::Examples);
}

#[test]
fn stem_is_the_file_name_without_extension() {
    assert_eq!(stem("scenarios/examples/20_reef.ron"), "20_reef");
    assert_eq!(stem("noext"), "noext");
    assert_eq!(stem("a/b.tar.gz"), "b.tar");
}
