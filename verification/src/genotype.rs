//! The **genotype**: an agent's inherited, mutable description, and the table
//! of its heritable characteristics.
//!
//! The gene values are scalars of type `S` (the engine's single-precision
//! float). What this module proves is the table's structure: every gene has
//! one editor category, every category is populated, and the editor's reading
//! order puts the priced characteristics (the costs) after the capabilities
//! within each category.

use vstd::prelude::*;

verus! {

/// An agent's genes. Each gene is in its storage unit (the field of view in
/// degrees, the ray count as a scalar rounded at phenotype compilation).
#[derive(Clone, Copy)]
pub struct Genotype<S> {
    /// Maximum speed.
    pub max_speed: S,
    /// Steering responsiveness, in `[0, 1]`.
    pub agility: S,
    /// Vision range.
    pub vision_range: S,
    /// Total field of view, in degrees.
    pub vision_fov_deg: S,
    /// Energy to reach in order to reproduce (`0`: does not reproduce).
    pub reproduction_threshold: S,
    /// Energy passed to the child, deducted from the parent.
    pub offspring_energy: S,
    /// Mutation rate transmitted to the offspring.
    pub mutation_rate: S,
    /// Energy drained per second at rest.
    pub base_metabolism: S,
    /// Energy per second at full speed.
    pub move_cost: S,
    /// Number of vision rays (rounded at phenotype compilation).
    pub vision_rays: S,
    /// Energy gained per second, passively (flora).
    pub photosynthesis: S,
    /// Distance at which an offspring is seeded (`0`: the default close offset).
    pub seed_dispersal: S,
    /// Energy per second and per decision neuron.
    pub brain_cost: S,
    /// Energy per unit of maneuvering effort.
    pub agility_cost: S,
    /// Nutrient absorbed per second from the local field.
    pub nutrient_absorption: S,
    /// Capacity of the nutrient store.
    pub nutrient_capacity: S,
    /// Nutrient spent per child.
    pub offspring_nutrient: S,
}

/// A semantic grouping of genes for the editor.
#[derive(Clone, Copy, PartialEq, Eq, Debug, Structural)]
pub enum GeneCategory {
    /// Moving: speed, steering and their costs.
    Locomotion,
    /// Seeing: range, field of view, ray count and the brain it feeds.
    Vision,
    /// The base cost of staying alive.
    Metabolism,
    /// Making offspring: threshold, endowment, mutation.
    Reproduction,
    /// The sessile life: passive gain and seeding.
    Flora,
    /// The substrate axis: absorbing and spending nutrient.
    Nutrients,
}

/// Number of editor categories.
pub const CATEGORY_COUNT: usize = 6;

/// The category at position `i` of the display order.
pub open spec fn category_at(i: int) -> GeneCategory {
    if i == 0 {
        GeneCategory::Locomotion
    } else if i == 1 {
        GeneCategory::Vision
    } else if i == 2 {
        GeneCategory::Metabolism
    } else if i == 3 {
        GeneCategory::Reproduction
    } else if i == 4 {
        GeneCategory::Flora
    } else {
        GeneCategory::Nutrients
    }
}

impl GeneCategory {
    /// The section's display label.
    pub open spec fn spec_label(self) -> Seq<char> {
        match self {
            GeneCategory::Locomotion => "Locomotion"@,
            GeneCategory::Vision => "Vision"@,
            GeneCategory::Metabolism => "Metabolism"@,
            GeneCategory::Reproduction => "Reproduction"@,
            GeneCategory::Flora => "Flora"@,
            GeneCategory::Nutrients => "Nutrients"@,
        }
    }

    /// The section's display label.
    pub fn label(self) -> (s: &'static str)
        ensures
            s@ == self.spec_label(),
    {
        match self {
            GeneCategory::Locomotion => "Locomotion",
            GeneCategory::Vision => "Vision",
            GeneCategory::Metabolism => "Metabolism",
            GeneCategory::Reproduction => "Reproduction",
            GeneCategory::Flora => "Flora",
            GeneCategory::Nutrients => "Nutrients",
        }
    }

    /// Whether the section starts expanded: every category but the advanced,
    /// usually-zero axes (flora, nutrients).
    pub fn default_open(self) -> (b: bool)
        ensures
            b <==> !(self == GeneCategory::Flora || self == GeneCategory::Nutrients),
    {
        !matches!(self, GeneCategory::Flora | GeneCategory::Nutrients)
    }

    /// The categories in display order.
    pub fn all() -> (v: Vec<GeneCategory>)
        ensures
            v.len() == CATEGORY_COUNT,
            forall|i: int| 0 <= i < CATEGORY_COUNT ==> #[trigger] v[i] == category_at(i),
    {
        let mut v: Vec<GeneCategory> = Vec::new();
        v.push(GeneCategory::Locomotion);
        v.push(GeneCategory::Vision);
        v.push(GeneCategory::Metabolism);
        v.push(GeneCategory::Reproduction);
        v.push(GeneCategory::Flora);
        v.push(GeneCategory::Nutrients);
        v
    }
}

/// Every category occurs in the display order.
pub proof fn lemma_all_categories_listed(c: GeneCategory)
    ensures
        exists|i: int| 0 <= i < CATEGORY_COUNT && category_at(i) == c,
{
    match c {
        GeneCategory::Locomotion => assert(category_at(0) == c),
        GeneCategory::Vision => assert(category_at(1) == c),
        GeneCategory::Metabolism => assert(category_at(2) == c),
        GeneCategory::Reproduction => assert(category_at(3) == c),
        GeneCategory::Flora => assert(category_at(4) == c),
        GeneCategory::Nutrients => assert(category_at(5) == c),
    }
}

/// The descriptor of one heritable characteristic, as the editor, the HUD and
/// the inspector read it.
pub struct TraitSpec {
    /// Label for the editor and the HUD.
    pub name: &'static str,
    /// The editor section this gene belongs to.
    pub category: GeneCategory,
    /// Whether the gene is a cost (a price paid) rather than a capability.
    pub is_cost: bool,
    /// Display decimals (inspector).
    pub decimals: u8,
    /// Whether the gene has no effect on an immobile entity.
    pub inert_when_immobile: bool,
}

/// Number of heritable characteristics.
pub const TRAIT_COUNT: usize = 17;

/// Label of gene `i`, in the genotype's field order.
pub open spec fn trait_name(i: int) -> Seq<char> {
    if i == 0 { "Max speed"@ }
    else if i == 1 { "Agility"@ }
    else if i == 2 { "Vision range"@ }
    else if i == 3 { "Vision FOV (°)"@ }
    else if i == 4 { "Repro threshold"@ }
    else if i == 5 { "Energy/child"@ }
    else if i == 6 { "Mutation rate"@ }
    else if i == 7 { "Metabolism/s"@ }
    else if i == 8 { "Locomotion cost"@ }
    else if i == 9 { "Rays (precision)"@ }
    else if i == 10 { "Photosynthesis/s"@ }
    else if i == 11 { "Dispersal"@ }
    else if i == 12 { "Brain cost/neuron"@ }
    else if i == 13 { "Agility cost"@ }
    else if i == 14 { "Nutrient absorb/s"@ }
    else if i == 15 { "Nutrient capacity"@ }
    else { "Nutrient/child"@ }
}

/// Editor category of gene `i`.
pub open spec fn trait_category(i: int) -> GeneCategory {
    if i == 0 || i == 1 || i == 8 || i == 13 {
        GeneCategory::Locomotion
    } else if i == 2 || i == 3 || i == 9 || i == 12 {
        GeneCategory::Vision
    } else if i == 7 {
        GeneCategory::Metabolism
    } else if i == 4 || i == 5 || i == 6 {
        GeneCategory::Reproduction
    } else if i == 10 || i == 11 {
        GeneCategory::Flora
    } else {
        GeneCategory::Nutrients
    }
}

/// Whether gene `i` is a cost.
pub open spec fn trait_is_cost(i: int) -> bool {
    i == 7 || i == 8 || i == 12 || i == 13
}

/// Display decimals of gene `i`.
pub open spec fn trait_decimals(i: int) -> u8 {
    if i == 1 || i == 6 || i == 13 {
        3
    } else if i == 12 || i == 14 {
        2
    } else if i == 0 || i == 2 || i == 7 || i == 8 || i == 10 {
        1
    } else {
        0
    }
}

/// Whether gene `i` is inert on an immobile entity (the locomotion and vision
/// genes other than the mobility switch itself).
pub open spec fn trait_inert_when_immobile(i: int) -> bool {
    i == 1 || i == 2 || i == 3 || i == 8 || i == 9 || i == 13
}

/// Whether `t` is the table's entry `i`.
pub open spec fn is_trait_entry(t: TraitSpec, i: int) -> bool {
    &&& t.name@ == trait_name(i)
    &&& t.category == trait_category(i)
    &&& t.is_cost == trait_is_cost(i)
    &&& t.decimals == trait_decimals(i)
    &&& t.inert_when_immobile == trait_inert_when_immobile(i)
}

fn entry(name: &'static str, category: GeneCategory, is_cost: bool, decimals: u8, inert: bool) -> (t: TraitSpec)
    ensures
        t.name == name,
        t.category == category,
        t.is_cost == is_cost,
        t.decimals == decimals,
        t.inert_when_immobile == inert,
{
    TraitSpec { name, category, is_cost, decimals, inert_when_immobile: inert }
}

/// The heritable characteristics, in the genotype's field order — the single
/// table the mutation, the editor, the HUD and the inspector loop over.
pub fn traits() -> (v: Vec<TraitSpec>)
    ensures
        v.len() == TRAIT_COUNT,
        forall|i: int| 0 <= i < TRAIT_COUNT ==> is_trait_entry(#[trigger] v[i], i),
{
    let mut v: Vec<TraitSpec> = Vec::new();
    v.push(entry("Max speed", GeneCategory::Locomotion, false, 1, false));
    v.push(entry("Agility", GeneCategory::Locomotion, false, 3, true));
    v.push(entry("Vision range", GeneCategory::Vision, false, 1, true));
    v.push(entry("Vision FOV (°)", GeneCategory::Vision, false, 0, true));
    v.push(entry("Repro threshold", GeneCategory::Reproduction, false, 0, false));
    v.push(entry("Energy/child", GeneCategory::Reproduction, false, 0, false));
    v.push(entry("Mutation rate", GeneCategory::Reproduction, false, 3, false));
    v.push(entry("Metabolism/s", GeneCategory::Metabolism, true, 1, false));
    v.push(entry("Locomotion cost", GeneCategory::Locomotion, true, 1, true));
    v.push(entry("Rays (precision)", GeneCategory::Vision, false, 0, true));
    v.push(entry("Photosynthesis/s", GeneCategory::Flora, false, 1, false));
    v.push(entry("Dispersal", GeneCategory::Flora, false, 0, false));
    v.push(entry("Brain cost/neuron", GeneCategory::Vision, true, 2, false));
    v.push(entry("Agility cost", GeneCategory::Locomotion, true, 3, true));
    v.push(entry("Nutrient absorb/s", GeneCategory::Nutrients, false, 2, false));
    v.push(entry("Nutrient capacity", GeneCategory::Nutrients, false, 0, false));
    v.push(entry("Nutrient/child", GeneCategory::Nutrients, false, 0, false));
    v
}

/// The genes of category `c` in table order, keeping only the non-costs
/// (`costs == false`) or only the costs (`costs == true`).
pub open spec fn members(c: GeneCategory, costs: bool) -> Seq<int> {
    Seq::new(TRAIT_COUNT as nat, |i: int| i).filter(
        |i: int| trait_category(i) == c && trait_is_cost(i) == costs,
    )
}

/// The editor's reading order of category `c`: its capabilities in table order,
/// then its costs in table order (a stable sort of the category by `is_cost`).
pub open spec fn reading_order(c: GeneCategory) -> Seq<int> {
    members(c, false) + members(c, true)
}

/// The gene indices of category `c` in the editor's reading order: the
/// capabilities first, then the costs, each group in table order.
pub fn category_traits(c: GeneCategory) -> (v: Vec<usize>)
    ensures
        v@.map_values(|i: usize| i as int) == reading_order(c),
{
    let table = traits();
    let mut head: Vec<usize> = Vec::new();
    let mut tail: Vec<usize> = Vec::new();
    let ghost ids = Seq::new(TRAIT_COUNT as nat, |i: int| i);
    let ghost pick_head = |i: int| trait_category(i) == c && trait_is_cost(i) == false;
    let ghost pick_tail = |i: int| trait_category(i) == c && trait_is_cost(i) == true;
    let mut i: usize = 0;
    while i < TRAIT_COUNT
        invariant
            i <= TRAIT_COUNT,
            table.len() == TRAIT_COUNT,
            forall|k: int| 0 <= k < TRAIT_COUNT ==> is_trait_entry(#[trigger] table[k], k),
            ids == Seq::new(TRAIT_COUNT as nat, |i: int| i),
            pick_head == (|i: int| trait_category(i) == c && trait_is_cost(i) == false),
            pick_tail == (|i: int| trait_category(i) == c && trait_is_cost(i) == true),
            head@.map_values(|i: usize| i as int) == ids.subrange(0, i as int).filter(pick_head),
            tail@.map_values(|i: usize| i as int) == ids.subrange(0, i as int).filter(pick_tail),
        decreases TRAIT_COUNT - i,
    {
        let ghost prev = ids.subrange(0, i as int);
        let ghost next = ids.subrange(0, i + 1);
        let ghost old_head = head@;
        let ghost old_tail = tail@;
        assert(next.drop_last() =~= prev);
        assert(next.last() == i as int);
        assert(next.len() > 0);
        reveal_with_fuel(Seq::filter, 1);
        assert(next.filter(pick_head) == (if pick_head(i as int) {
            prev.filter(pick_head).push(i as int)
        } else {
            prev.filter(pick_head)
        }));
        assert(next.filter(pick_tail) == (if pick_tail(i as int) {
            prev.filter(pick_tail).push(i as int)
        } else {
            prev.filter(pick_tail)
        }));
        let t = &table[i];
        assert(is_trait_entry(table[i as int], i as int));
        if t.category == c {
            if t.is_cost {
                tail.push(i);
                assert(tail@.map_values(|i: usize| i as int) =~= old_tail.map_values(
                    |i: usize| i as int,
                ).push(i as int));
            } else {
                head.push(i);
                assert(head@.map_values(|i: usize| i as int) =~= old_head.map_values(
                    |i: usize| i as int,
                ).push(i as int));
            }
        }
        assert(pick_head(i as int) == (t.category == c && !t.is_cost));
        assert(pick_tail(i as int) == (t.category == c && t.is_cost));
        assert(head@.map_values(|i: usize| i as int) =~= next.filter(pick_head));
        assert(tail@.map_values(|i: usize| i as int) =~= next.filter(pick_tail));
        i = i + 1;
    }
    assert(ids.subrange(0, TRAIT_COUNT as int) =~= ids);
    let mut out = head;
    let ghost h = out@;
    let mut k: usize = 0;
    while k < tail.len()
        invariant
            k <= tail.len(),
            out@ == h + tail@.subrange(0, k as int),
        decreases tail.len() - k,
    {
        out.push(tail[k]);
        k = k + 1;
    }
    assert(out@ =~= h + tail@);
    assert(out@.map_values(|i: usize| i as int) =~= h.map_values(|i: usize| i as int)
        + tail@.map_values(|i: usize| i as int));
    out
}


/// The editor's reading order puts every cost gene of a category after all of
/// its capabilities: within a category, once a cost appears, only costs follow.
pub proof fn lemma_costs_read_last(c: GeneCategory, k: int, l: int)
    requires
        0 <= k < l < reading_order(c).len(),
        trait_is_cost(reading_order(c)[k]),
    ensures
        trait_is_cost(reading_order(c)[l]),
{
    let ids = Seq::new(TRAIT_COUNT as nat, |i: int| i);
    let caps = |i: int| trait_category(i) == c && trait_is_cost(i) == false;
    let costs = |i: int| trait_category(i) == c && trait_is_cost(i) == true;
    assert(members(c, false) == ids.filter(caps));
    assert(members(c, true) == ids.filter(costs));
    let n = members(c, false).len();
    if k < n {
        ids.lemma_filter_pred(caps, k);
        assert(reading_order(c)[k] == members(c, false)[k]);
    } else {
        ids.lemma_filter_pred(costs, l - n);
        assert(reading_order(c)[l] == members(c, true)[l - n]);
    }
}

/// Every gene falls in exactly one editor category: gene `i` is read in the
/// section of category `c` exactly when `c` is its category.
pub proof fn lemma_gene_in_one_category(i: int, c: GeneCategory)
    requires
        0 <= i < TRAIT_COUNT,
    ensures
        reading_order(c).contains(i) <==> trait_category(i) == c,
{
    let ids = Seq::new(TRAIT_COUNT as nat, |i: int| i);
    let caps = |i: int| trait_category(i) == c && trait_is_cost(i) == false;
    let costs = |i: int| trait_category(i) == c && trait_is_cost(i) == true;
    assert(members(c, false) == ids.filter(caps));
    assert(members(c, true) == ids.filter(costs));
    assert(ids[i] == i);
    if trait_category(i) == c {
        if trait_is_cost(i) {
            ids.lemma_filter_contains(costs, i);
            let j = choose|j: int| 0 <= j < members(c, true).len() && members(c, true)[j] == i;
            assert(reading_order(c)[members(c, false).len() + j] == i);
        } else {
            ids.lemma_filter_contains(caps, i);
            let j = choose|j: int| 0 <= j < members(c, false).len() && members(c, false)[j] == i;
            assert(reading_order(c)[j] == i);
        }
    } else if reading_order(c).contains(i) {
        let j = choose|j: int| 0 <= j < reading_order(c).len() && reading_order(c)[j] == i;
        let n = members(c, false).len();
        if j < n {
            ids.lemma_filter_pred(caps, j);
            assert(members(c, false)[j] == i);
        } else {
            ids.lemma_filter_pred(costs, j - n);
            assert(members(c, true)[j - n] == i);
        }
    }
}

/// No editor category is empty (an empty section would draw a dead header).
pub proof fn lemma_no_empty_category(c: GeneCategory)
    ensures
        reading_order(c).len() > 0,
{
    let witness: int = match c {
        GeneCategory::Locomotion => 0,
        GeneCategory::Vision => 2,
        GeneCategory::Metabolism => 7,
        GeneCategory::Reproduction => 4,
        GeneCategory::Flora => 10,
        GeneCategory::Nutrients => 14,
    };
    lemma_gene_in_one_category(witness, c);
}

/// The value of gene `i` (in the order of [`traits`]).
pub open spec fn gene_of<S>(g: Genotype<S>, i: int) -> S {
    if i == 0 {
        g.max_speed
    } else if i == 1 {
        g.agility
    } else if i == 2 {
        g.vision_range
    } else if i == 3 {
        g.vision_fov_deg
    } else if i == 4 {
        g.reproduction_threshold
    } else if i == 5 {
        g.offspring_energy
    } else if i == 6 {
        g.mutation_rate
    } else if i == 7 {
        g.base_metabolism
    } else if i == 8 {
        g.move_cost
    } else if i == 9 {
        g.vision_rays
    } else if i == 10 {
        g.photosynthesis
    } else if i == 11 {
        g.seed_dispersal
    } else if i == 12 {
        g.brain_cost
    } else if i == 13 {
        g.agility_cost
    } else if i == 14 {
        g.nutrient_absorption
    } else if i == 15 {
        g.nutrient_capacity
    } else {
        g.offspring_nutrient
    }
}

/// The genotype `g` with gene `i` set to `v`.
pub open spec fn with_gene<S>(g: Genotype<S>, i: int, v: S) -> Genotype<S> {
    if i == 0 {
        Genotype { max_speed: v, ..g }
    } else if i == 1 {
        Genotype { agility: v, ..g }
    } else if i == 2 {
        Genotype { vision_range: v, ..g }
    } else if i == 3 {
        Genotype { vision_fov_deg: v, ..g }
    } else if i == 4 {
        Genotype { reproduction_threshold: v, ..g }
    } else if i == 5 {
        Genotype { offspring_energy: v, ..g }
    } else if i == 6 {
        Genotype { mutation_rate: v, ..g }
    } else if i == 7 {
        Genotype { base_metabolism: v, ..g }
    } else if i == 8 {
        Genotype { move_cost: v, ..g }
    } else if i == 9 {
        Genotype { vision_rays: v, ..g }
    } else if i == 10 {
        Genotype { photosynthesis: v, ..g }
    } else if i == 11 {
        Genotype { seed_dispersal: v, ..g }
    } else if i == 12 {
        Genotype { brain_cost: v, ..g }
    } else if i == 13 {
        Genotype { agility_cost: v, ..g }
    } else if i == 14 {
        Genotype { nutrient_absorption: v, ..g }
    } else if i == 15 {
        Genotype { nutrient_capacity: v, ..g }
    } else {
        Genotype { offspring_nutrient: v, ..g }
    }
}

/// The value of gene `i` of `g` (in the order of [`traits`]): the read half of
/// the table's accessors.
pub fn gene<S: Copy>(g: &Genotype<S>, i: usize) -> (v: S)
    requires
        i < TRAIT_COUNT,
    ensures
        v == gene_of(*g, i as int),
{
    match i {
        0 => g.max_speed,
        1 => g.agility,
        2 => g.vision_range,
        3 => g.vision_fov_deg,
        4 => g.reproduction_threshold,
        5 => g.offspring_energy,
        6 => g.mutation_rate,
        7 => g.base_metabolism,
        8 => g.move_cost,
        9 => g.vision_rays,
        10 => g.photosynthesis,
        11 => g.seed_dispersal,
        12 => g.brain_cost,
        13 => g.agility_cost,
        14 => g.nutrient_absorption,
        15 => g.nutrient_capacity,
        _ => g.offspring_nutrient,
    }
}

/// Sets gene `i` of `g` to `v`: the write half of the table's accessors.
pub fn set_gene<S: Copy>(g: &mut Genotype<S>, i: usize, v: S)
    requires
        i < TRAIT_COUNT,
    ensures
        *final(g) == with_gene(*old(g), i as int, v),
{
    match i {
        0 => g.max_speed = v,
        1 => g.agility = v,
        2 => g.vision_range = v,
        3 => g.vision_fov_deg = v,
        4 => g.reproduction_threshold = v,
        5 => g.offspring_energy = v,
        6 => g.mutation_rate = v,
        7 => g.base_metabolism = v,
        8 => g.move_cost = v,
        9 => g.vision_rays = v,
        10 => g.photosynthesis = v,
        11 => g.seed_dispersal = v,
        12 => g.brain_cost = v,
        13 => g.agility_cost = v,
        14 => g.nutrient_absorption = v,
        15 => g.nutrient_capacity = v,
        _ => g.offspring_nutrient = v,
    }
}

/// Each row of the trait table addresses the field it is named after: the
/// gene labelled "Max speed" reads and writes `max_speed`, "Photosynthesis/s"
/// `photosynthesis`, "Dispersal" `seed_dispersal`, and so on down the table.
pub proof fn lemma_gene_rows_name_their_fields<S>(g: Genotype<S>, v: S)
    ensures
        trait_name(0) == "Max speed"@ && gene_of(g, 0) == g.max_speed && with_gene(g, 0, v).max_speed == v,
        trait_name(1) == "Agility"@ && gene_of(g, 1) == g.agility && with_gene(g, 1, v).agility == v,
        trait_name(2) == "Vision range"@ && gene_of(g, 2) == g.vision_range && with_gene(g, 2, v).vision_range == v,
        trait_name(3) == "Vision FOV (°)"@ && gene_of(g, 3) == g.vision_fov_deg && with_gene(g, 3, v).vision_fov_deg == v,
        trait_name(4) == "Repro threshold"@ && gene_of(g, 4) == g.reproduction_threshold && with_gene(g, 4, v).reproduction_threshold == v,
        trait_name(5) == "Energy/child"@ && gene_of(g, 5) == g.offspring_energy && with_gene(g, 5, v).offspring_energy == v,
        trait_name(6) == "Mutation rate"@ && gene_of(g, 6) == g.mutation_rate && with_gene(g, 6, v).mutation_rate == v,
        trait_name(7) == "Metabolism/s"@ && gene_of(g, 7) == g.base_metabolism && with_gene(g, 7, v).base_metabolism == v,
        trait_name(8) == "Locomotion cost"@ && gene_of(g, 8) == g.move_cost && with_gene(g, 8, v).move_cost == v,
        trait_name(9) == "Rays (precision)"@ && gene_of(g, 9) == g.vision_rays && with_gene(g, 9, v).vision_rays == v,
        trait_name(10) == "Photosynthesis/s"@ && gene_of(g, 10) == g.photosynthesis && with_gene(g, 10, v).photosynthesis == v,
        trait_name(11) == "Dispersal"@ && gene_of(g, 11) == g.seed_dispersal && with_gene(g, 11, v).seed_dispersal == v,
        trait_name(12) == "Brain cost/neuron"@ && gene_of(g, 12) == g.brain_cost && with_gene(g, 12, v).brain_cost == v,
        trait_name(13) == "Agility cost"@ && gene_of(g, 13) == g.agility_cost && with_gene(g, 13, v).agility_cost == v,
        trait_name(14) == "Nutrient absorb/s"@ && gene_of(g, 14) == g.nutrient_absorption && with_gene(g, 14, v).nutrient_absorption == v,
        trait_name(15) == "Nutrient capacity"@ && gene_of(g, 15) == g.nutrient_capacity && with_gene(g, 15, v).nutrient_capacity == v,
        trait_name(16) == "Nutrient/child"@ && gene_of(g, 16) == g.offspring_nutrient && with_gene(g, 16, v).offspring_nutrient == v,
{
}

/// A gene reads back what was written to it, and writing a gene leaves every
/// other gene as it was: the table's read and write accessors address the same
/// field, and distinct genes distinct fields.
pub proof fn lemma_gene_reads_back<S>(g: Genotype<S>, i: int, j: int, v: S)
    requires
        0 <= i < TRAIT_COUNT,
        0 <= j < TRAIT_COUNT,
    ensures
        gene_of(with_gene(g, i, v), j) == (if i == j {
            v
        } else {
            gene_of(g, j)
        }),
{
}

} // verus!
