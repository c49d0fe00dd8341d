use teemlab::genotype::{category_traits, gene, set_gene, traits, GeneCategory, Genotype};

#[test]
fn categories_partition_traits() {
    let table = traits();
    let grouped: usize = GeneCategory::all()
        .iter()
        .map(|c| table.iter().filter(|t| t.category == *c).count())
        .sum();
    assert_eq!(grouped, table.len(), "every gene must fall in exactly one editor category");
    for c in GeneCategory::all() {
        assert!(table.iter().any(|t| t.category == c), "category {} has no gene", c.label());
    }
}

#[test]
fn cost_genes_are_flagged() {
    let table = traits();
    let is_cost = |name: &str| table.iter().find(|t| t.name == name).unwrap().is_cost;
    for c in ["Metabolism/s", "Locomotion cost", "Brain cost/neuron", "Agility cost"] {
        assert!(is_cost(c), "{c} should be a cost");
    }
    for n in ["Max speed", "Vision range", "Repro threshold", "Photosynthesis/s"] {
        assert!(!is_cost(n), "{n} should not be a cost");
    }
}

#[test]
fn stable_sort_puts_costs_last_per_category() {
    let table = traits();
    for c in GeneCategory::all() {
        let idx = category_traits(c);
        let first_cost = idx.iter().position(|&i| table[i].is_cost);
        if let Some(p) = first_cost {
            assert!(
                idx[p..].iter().all(|&i| table[i].is_cost),
                "category {} interleaves a non-cost after a cost",
                c.label()
            );
        }
        // the same indices a stable sort of the category's genes by `is_cost` gives
        let mut sorted: Vec<usize> = (0..table.len()).filter(|&i| table[i].category == c).collect();
        sorted.sort_by_key(|&i| table[i].is_cost);
        assert_eq!(idx, sorted);
    }
}

#[test]
fn category_sections() {
    assert_eq!(GeneCategory::all().len(), 6);
    assert_eq!(GeneCategory::Locomotion.label(), "Locomotion");
    assert!(GeneCategory::Vision.default_open());
    assert!(!GeneCategory::Flora.default_open());
    assert!(!GeneCategory::Nutrients.default_open());
    assert_eq!(category_traits(GeneCategory::Locomotion), vec![0, 1, 8, 13]);
    assert_eq!(category_traits(GeneCategory::Metabolism), vec![7]);
}

#[test]
fn inert_genes_on_an_immobile_body() {
    let inert: Vec<&str> = traits().iter().filter(|t| t.inert_when_immobile).map(|t| t.name).collect();
    assert_eq!(
        inert,
        vec!["Agility", "Vision range", "Vision FOV (°)", "Locomotion cost", "Rays (precision)", "Agility cost"]
    );
}

#[test]
fn gene_accessors_read_back_what_they_write() {
    let mut g = Genotype {
        max_speed: 140.0f32,
        agility: 0.12,
        vision_range: 160.0,
        vision_fov_deg: 120.0,
        reproduction_threshold: 0.0,
        offspring_energy: 30.0,
        mutation_rate: 0.0,
        base_metabolism: 0.0,
        move_cost: 0.0,
        vision_rays: 7.0,
        photosynthesis: 0.0,
        seed_dispersal: 0.0,
        brain_cost: 0.0,
        agility_cost: 0.0,
        nutrient_absorption: 0.0,
        nutrient_capacity: 0.0,
        offspring_nutrient: 0.0,
    };
    assert_eq!(gene(&g, 0), 140.0);
    assert_eq!(gene(&g, 3), 120.0);
    assert_eq!(gene(&g, 9), 7.0);
    set_gene(&mut g, 2, 99.0);
    assert_eq!(g.vision_range, 99.0);
    assert_eq!(gene(&g, 2), 99.0);
    assert_eq!(gene(&g, 0), 140.0);
    set_gene(&mut g, 16, 4.0);
    assert_eq!(g.offspring_nutrient, 4.0);
    let table = traits();
    // the names follow the same order as the accessors
    assert_eq!(table[2].name, "Vision range");
    assert_eq!(table[16].name, "Nutrient/child");
}
