//! The *scenario*: a run's parameters.
//!
//! One engine, many scenarios: a [`SimConfig`] is data. Its central part is the
//! list of [`Archetype`]s — each a species, whose **index** in the list is its
//! identity — and the tables that refer to species by that index: the
//! interaction [`Relation`]s and the per-component [`FieldRelation`]s.
//!
//! The model is generic in the engine's scalar types — `S` for the
//! single-precision values (sizes, rates, colours, genes), `D` for the tick
//! rate — and in `K`, the concrete brain a captured archetype carries. What is
//! proved here is the bookkeeping that does not compute with those scalars.

use vstd::prelude::*;
use crate::brain::{BrainKind, same_kind};
use crate::genotype::Genotype;
use crate::text::{decimal, append_decimal, concat_str};

verus! {

/// `[min, max]` bounds of a gene.
#[derive(Clone, Copy)]
pub struct Bounds<S> {
    pub min: S,
    pub max: S,
}

/// The world-level coefficients from which an agent's costs derive from its
/// body size.
#[derive(Clone, Copy)]
pub struct CostLaw<S> {
    /// The size exponent `e`: `size = radius^e`.
    pub size_exponent: S,
    /// Resting drain per unit of size and second.
    pub maintenance: S,
    /// Cruising drain per unit of size and second at full speed.
    pub locomotion: S,
    /// Drain per unit of size and of velocity change.
    pub maneuver: S,
}

/// The knobs of emergent predation.
#[derive(Clone, Copy)]
pub struct Predation<S> {
    /// Size advantage the actor needs over its prey.
    pub size_margin: S,
    /// Reach as a surface-to-surface clearance.
    pub range: S,
    /// Reserve transferred from prey to actor per second.
    pub rate: S,
}

/// Which genes of a species may mutate. A non-mutable gene is still
/// transmitted to the child, unperturbed.
#[derive(Clone, Copy, PartialEq, Eq, Debug, Structural)]
pub struct Mutability {
    pub max_speed: bool,
    pub agility: bool,
    pub vision_range: bool,
    pub vision_fov: bool,
    pub reproduction_threshold: bool,
    pub offspring_energy: bool,
    pub mutation_rate: bool,
    pub vision_rays: bool,
    pub photosynthesis: bool,
    pub seed_dispersal: bool,
    pub brain_cost: bool,
    pub act_cost: bool,
}

impl Mutability {
    /// All genes frozen — the mutability of scenery that does not evolve.
    pub fn all_fixed() -> (m: Mutability)
        ensures
            m == frozen_mutability(),
    {
        Mutability {
            max_speed: false,
            agility: false,
            vision_range: false,
            vision_fov: false,
            reproduction_threshold: false,
            offspring_energy: false,
            mutation_rate: false,
            vision_rays: false,
            photosynthesis: false,
            seed_dispersal: false,
            brain_cost: false,
            act_cost: false,
        }
    }
}

/// Every gene frozen.
pub open spec fn frozen_mutability() -> Mutability {
    Mutability {
        max_speed: false,
        agility: false,
        vision_range: false,
        vision_fov: false,
        reproduction_threshold: false,
        offspring_energy: false,
        mutation_rate: false,
        vision_rays: false,
        photosynthesis: false,
        seed_dispersal: false,
        brain_cost: false,
        act_cost: false,
    }
}

/// The default mutability: everything mutable except the mutation rate, the
/// flora genes and the costs (which, evolvable, would be whittled to zero).
pub open spec fn default_mutability() -> Mutability {
    Mutability {
        max_speed: true,
        agility: true,
        vision_range: true,
        vision_fov: true,
        reproduction_threshold: true,
        offspring_energy: true,
        mutation_rate: false,
        vision_rays: true,
        photosynthesis: false,
        seed_dispersal: false,
        brain_cost: false,
        act_cost: false,
    }
}

impl Default for Mutability {
    fn default() -> (m: Mutability)
        ensures
            m == default_mutability(),
    {
        Mutability {
            max_speed: true,
            agility: true,
            vision_range: true,
            vision_fov: true,
            reproduction_threshold: true,
            offspring_energy: true,
            mutation_rate: false,
            vision_rays: true,
            photosynthesis: false,
            seed_dispersal: false,
            brain_cost: false,
            act_cost: false,
        }
    }
}

/// Anchoring of a species to the substrate by a spring.
#[derive(Clone, Copy)]
pub struct AnchorConfig<S> {
    /// Restoring pull per unit of displacement.
    pub stiffness: S,
    /// Velocity damping of the anchored body.
    pub damping: S,
    /// Tension beyond which the anchor snaps.
    pub tear_force: S,
    /// Whether the body dies when torn off.
    pub die_on_detach: bool,
}

/// An **archetype**: a species. Its index in [`SimConfig::archetypes`] is its
/// identity.
pub struct Archetype<S, K> {
    /// Label for the palette and the inspector.
    pub name: String,
    /// Visual identity, `[r, g, b]`.
    pub color: [S; 3],
    /// Count at spawn.
    pub count: usize,
    /// Body (and collider) radius.
    pub radius: S,
    /// Reserve capacity.
    pub reserve_max: S,
    /// Founding genotype.
    pub genotype: Genotype<S>,
    /// Founding brain type.
    pub brain: BrainKind<S>,
    /// Which genes may mutate.
    pub mutable: Mutability,
    /// The library file this archetype was imported from, if any.
    pub source: Option<String>,
    /// A concrete brain the founders are born with, if captured from a run.
    pub captured_brain: Option<K>,
    /// Informative origin label of a captured archetype.
    pub captured_from: Option<String>,
    /// Anchoring to the substrate, if rooted.
    pub anchor: Option<AnchorConfig<S>>,
}

/// Whether `b` is a copy of `a` except for its name: every scalar field equal,
/// the same brain kind, and the captured brain a clone of the source's.
pub open spec fn copy_but_name<S, K: Clone>(a: Archetype<S, K>, b: Archetype<S, K>) -> bool {
    &&& b.color == a.color
    &&& b.count == a.count
    &&& b.radius == a.radius
    &&& b.reserve_max == a.reserve_max
    &&& b.genotype == a.genotype
    &&& same_kind(b.brain, a.brain)
    &&& b.mutable == a.mutable
    &&& b.source == a.source
    &&& b.captured_from == a.captured_from
    &&& b.anchor == a.anchor
    &&& match (a.captured_brain, b.captured_brain) {
        (None, None) => true,
        (Some(x), Some(y)) => cloned(x, y),
        _ => false,
    }
}

/// `name ++ " (copy)"`.
pub open spec fn copy_name(name: Seq<char>) -> Seq<char> {
    name + " (copy)"@
}

/// `name ++ " (captured)"`.
pub open spec fn captured_name(name: Seq<char>) -> Seq<char> {
    name + " (captured)"@
}

/// `"<species> · G<generation>"` — the origin label of a captured archetype.
pub open spec fn origin_label(name: Seq<char>, generation: nat) -> Seq<char> {
    name + " · G"@ + decimal(generation)
}

impl<S: Copy, K: Clone> Archetype<S, K> {
    /// Whether this archetype is a sessile entity (a plant / food source): its
    /// brain is the immobile one.
    pub fn is_sessile(&self) -> (b: bool)
        ensures
            b == self.brain.spec_is_sessile(),
    {
        matches!(self.brain, BrainKind::Sessile)
    }

    /// A copy of this archetype under another name.
    pub fn renamed_copy(&self, name: String) -> (a: Archetype<S, K>)
        ensures
            a.name == name,
            copy_but_name(*self, a),
    {
        let captured_brain = match &self.captured_brain {
            Some(b) => Some(b.clone()),
            None => None,
        };
        Archetype {
            name,
            color: self.color,
            count: self.count,
            radius: self.radius,
            reserve_max: self.reserve_max,
            genotype: self.genotype,
            brain: self.brain.duplicate(),
            mutable: self.mutable,
            source: self.source.clone(),
            captured_brain,
            captured_from: self.captured_from.clone(),
            anchor: self.anchor,
        }
    }

    /// An archetype derived from a living agent of this species: a copy whose
    /// genome is the agent's evolved `genotype` and whose founders are born with
    /// the agent's concrete `brain`. The name gains ` (captured)`, the origin
    /// label records the species and the `generation`, and the library link is
    /// cleared (a capture is not a file import).
    pub fn capture(&self, genotype: Genotype<S>, brain: K, generation: u32) -> (a: Archetype<S, K>)
        ensures
            a.name@ == captured_name(self.name@),
            a.genotype == genotype,
            a.captured_brain == Some(brain),
            a.captured_from matches Some(f) && f@ == origin_label(self.name@, generation as nat),
            a.source is None,
            a.color == self.color,
            a.count == self.count,
            a.radius == self.radius,
            a.reserve_max == self.reserve_max,
            same_kind(a.brain, self.brain),
            a.mutable == self.mutable,
            a.anchor == self.anchor,
    {
        let name = concat_str(self.name.as_str(), " (captured)");
        let mut from = concat_str(self.name.as_str(), " · G");
        append_decimal(&mut from, generation as u64);
        Archetype {
            name,
            color: self.color,
            count: self.count,
            radius: self.radius,
            reserve_max: self.reserve_max,
            genotype,
            brain: self.brain.duplicate(),
            mutable: self.mutable,
            source: None,
            captured_brain: Some(brain),
            captured_from: Some(from),
            anchor: self.anchor,
        }
    }
}

/// The name of a new agent archetype at index `i`: `Species <i>`.
pub open spec fn agent_name(i: nat) -> Seq<char> {
    "Species "@ + decimal(i)
}

impl<S, K> Archetype<S, K> {
    /// A new agent archetype at index `i`: named `Species <i>`, 48 at spawn,
    /// every gene but the mutation rate mutable, no library link, no captured
    /// brain, no anchor; its colour, body and founding genome and brain are the
    /// given defaults.
    pub fn new_agent(
        i: usize,
        color: [S; 3],
        radius: S,
        reserve_max: S,
        genotype: Genotype<S>,
        brain: BrainKind<S>,
    ) -> (a: Archetype<S, K>)
        ensures
            a.name@ == agent_name(i as nat),
            a.color == color,
            a.count == 48,
            a.radius == radius,
            a.reserve_max == reserve_max,
            a.genotype == genotype,
            a.brain == brain,
            a.mutable == default_mutability(),
            a.source is None,
            a.captured_brain is None,
            a.captured_from is None,
            a.anchor is None,
    {
        let mut name = String::from_str("Species ");
        append_decimal(&mut name, i as u64);
        Archetype {
            name,
            color,
            count: 48,
            radius,
            reserve_max,
            genotype,
            brain,
            mutable: Mutability::default(),
            source: None,
            captured_brain: None,
            captured_from: None,
            anchor: None,
        }
    }

    /// A new food source: a sessile plant named `Food`, none at spawn, every
    /// gene frozen (it is scenery, not a subject of evolution); its colour,
    /// body and genome (immobile, photosynthetic, not reproducing) are given.
    pub fn new_food(color: [S; 3], radius: S, reserve_max: S, genotype: Genotype<S>) -> (a: Archetype<S, K>)
        ensures
            a.name@ == "Food"@,
            a.color == color,
            a.count == 0,
            a.radius == radius,
            a.reserve_max == reserve_max,
            a.genotype == genotype,
            a.brain == BrainKind::<S>::Sessile,
            a.mutable == frozen_mutability(),
            a.source is None,
            a.captured_brain is None,
            a.captured_from is None,
            a.anchor is None,
    {
        Archetype {
            name: String::from_str("Food"),
            color,
            count: 0,
            radius,
            reserve_max,
            genotype,
            brain: BrainKind::Sessile,
            mutable: Mutability::all_fixed(),
            source: None,
            captured_brain: None,
            captured_from: None,
            anchor: None,
        }
    }
}

/// A library file entry: a reusable archetype plus catalog metadata. A base
/// has no variant metadata; a variant links to its base by name.
pub struct SpeciesEntry<S, K> {
    /// The reusable archetype.
    pub archetype: Archetype<S, K>,
    /// Base species name this varies; `None` for a base form.
    pub variant_of: Option<String>,
    /// Variant id `"<scenario>-<n>"`; `None` for a base form.
    pub variant_id: Option<String>,
}

impl<S, K> SpeciesEntry<S, K> {
    /// A base entry wrapping `archetype`.
    pub fn base(archetype: Archetype<S, K>) -> (e: SpeciesEntry<S, K>)
        ensures
            e.archetype == archetype,
            e.variant_of is None,
            e.variant_id is None,
    {
        SpeciesEntry { archetype, variant_of: None, variant_id: None }
    }

    /// A variant entry: an evolved `archetype` linked to base `variant_of`.
    pub fn variant(archetype: Archetype<S, K>, variant_of: String, variant_id: String) -> (e:
        SpeciesEntry<S, K>)
        ensures
            e.archetype == archetype,
            e.variant_of == Some(variant_of),
            e.variant_id == Some(variant_id),
    {
        SpeciesEntry { archetype, variant_of: Some(variant_of), variant_id: Some(variant_id) }
    }

    /// Whether this entry is an evolved variant.
    pub fn is_variant(&self) -> (b: bool)
        ensures
            b == self.variant_of is Some,
    {
        self.variant_of.is_some()
    }
}

/// An entry of the interaction table: `actor` may act on `target` (both
/// archetype indices), transferring (`transfer`) or destroying reserve at
/// `rate` per second within `range`.
pub struct Relation<S> {
    pub actor: u16,
    pub target: u16,
    pub transfer: bool,
    pub rate: S,
    pub range: S,
}

/// A component: a diffusible substrate.
pub struct ComponentConfig<S> {
    /// Display name.
    pub name: String,
    /// Rebalance fraction per tick.
    pub diffusion: S,
    /// Per-tick fractional decay.
    pub decay: S,
}

/// A substrate source: a fixed point emitting a component into its field.
pub struct Source<S> {
    pub pos: [S; 2],
    pub component: usize,
    pub rate: S,
    pub color: [S; 3],
    pub radius: S,
    pub solid: bool,
}

/// How a species relates to a component, one row per (species, component).
pub struct FieldRelation<S> {
    pub species: u16,
    pub component: usize,
    pub absorb: S,
    pub capacity: S,
    pub emit: S,
    pub emit_at_death: S,
    /// Whether the local concentration feeds a perception channel.
    pub sense: bool,
    pub affect: S,
    pub repro_cost: S,
    pub need: S,
}

/// Explicit fitness — how a match scores a genome.
#[derive(Clone, Copy, PartialEq, Eq, Debug, Structural)]
pub enum Fitness {
    /// Standing population of the scored species.
    Population,
    /// Peak standing population over the match.
    Peak,
    /// Fraction of the match the species stayed alive.
    Survival,
    /// Deepest lineage reached.
    BestEvolved,
    /// Own survivors minus living non-sessile rivals.
    Dominance,
}

/// The generational regime's parameters.
pub struct BatchConfig {
    /// Number of generation boundaries.
    pub generations: usize,
    /// Independent seeded matches per generation.
    pub matches_per_gen: usize,
    /// Fixed tick budget of one match.
    pub match_ticks: u64,
    /// The archetypes under selection.
    pub scored_species: Vec<u16>,
    /// The fitness function.
    pub fitness: Fitness,
    /// Top-K genomes carried into the next generation.
    pub survivors: usize,
    /// Base of the per-match seeds.
    pub seed_base: u64,
}

impl BatchConfig {
    /// The breeding defaults: eight generations of four matches of 5000 ticks,
    /// species 0 scored by population, two survivors, seed base 1.
    pub fn default_regime() -> (b: BatchConfig)
        ensures
            b.generations == 8,
            b.matches_per_gen == 4,
            b.match_ticks == 5000,
            b.scored_species@ == seq![0u16],
            b.fitness == Fitness::Population,
            b.survivors == 2,
            b.seed_base == 1,
    {
        let mut scored: Vec<u16> = Vec::new();
        scored.push(0);
        assert(scored@ =~= seq![0u16]);
        BatchConfig {
            generations: 8,
            matches_per_gen: 4,
            match_ticks: 5000,
            scored_species: scored,
            fitness: Fitness::Population,
            survivors: 2,
            seed_base: 1,
        }
    }
}

/// A run's parameters.
pub struct SimConfig<S, D, K> {
    /// Rate of the fixed timestep, in Hz.
    pub tick_hz: D,
    /// Half-side of the square arena.
    pub arena_half_extent: S,
    /// The archetypes; the index of each is its species identity.
    pub archetypes: Vec<Archetype<S, K>>,
    /// Interaction table, by archetype index.
    pub relations: Vec<Relation<S>>,
    /// Cells per side of every component field.
    pub field_resolution: usize,
    /// The diffusible substrates.
    pub components: Vec<ComponentConfig<S>>,
    /// Substrate sources.
    pub sources: Vec<Source<S>>,
    /// How each species relates to each component.
    pub field_relations: Vec<FieldRelation<S>>,
    pub speed_bounds: Bounds<S>,
    pub agility_bounds: Bounds<S>,
    pub vision_range_bounds: Bounds<S>,
    pub vision_fov_bounds: Bounds<S>,
    pub reproduction_threshold_bounds: Bounds<S>,
    pub offspring_energy_bounds: Bounds<S>,
    pub mutation_rate_bounds: Bounds<S>,
    pub vision_rays_bounds: Bounds<S>,
    pub photosynthesis_bounds: Bounds<S>,
    pub seed_dispersal_bounds: Bounds<S>,
    pub brain_cost_bounds: Bounds<S>,
    pub act_cost_bounds: Bounds<S>,
    /// The allometric cost law.
    pub cost_law: CostLaw<S>,
    /// Emergent predation knobs.
    pub predation: Predation<S>,
    /// Background colour of the play area.
    pub play_area_color: [S; 3],
    /// Colour beyond the arena.
    pub off_game_color: [S; 3],
    /// RNG seed.
    pub seed: u64,
    /// The generational regime, if any.
    pub batch: Option<BatchConfig>,
    /// In-memory founder pools per bred species (never saved).
    pub founder_pools: std::collections::HashMap<u16, Vec<K>>,
}

/// Whether some relation of `rels` lets `actor` act on `target`.
pub open spec fn relates<S>(rels: Seq<Relation<S>>, actor: u16, target: u16) -> bool {
    exists|k: int| 0 <= k < rels.len() && rels[k].actor == actor && rels[k].target == target
}

/// The components `species` senses, as a set.
pub open spec fn sensed_set<S>(rows: Seq<FieldRelation<S>>, species: u16) -> Set<usize> {
    Set::new(
        |c: usize|
            exists|k: int|
                0 <= k < rows.len() && rows[k].species == species && rows[k].sense
                    && rows[k].component == c,
    )
}

impl<S, D, K> SimConfig<S, D, K> {
    /// Number of archetypes (= species), as a `u16` and at least 1.
    pub fn species_cardinality(&self) -> (n: u16)
        ensures
            n == (if self.archetypes.len() % 0x10000 == 0 {
                1
            } else {
                self.archetypes.len() % 0x10000
            }),
    {
        let n = (self.archetypes.len() % 0x10000) as u16;
        if n == 0 {
            1
        } else {
            n
        }
    }

    /// Whether archetype `actor` can act on archetype `target`: some relation
    /// allows it (directed).
    pub fn acts_on(&self, actor: u16, target: u16) -> (b: bool)
        ensures
            b == relates(self.relations@, actor, target),
    {
        let mut k: usize = 0;
        while k < self.relations.len()
            invariant
                k <= self.relations.len(),
                forall|j: int|
                    0 <= j < k ==> !(self.relations@[j].actor == actor && self.relations@[j].target
                        == target),
            decreases self.relations.len() - k,
        {
            let r = &self.relations[k];
            if r.actor == actor && r.target == target {
                return true;
            }
            k = k + 1;
        }
        false
    }

    /// The components `species` senses, sorted and without repetition — the
    /// order in which their concentrations fill the perception.
    pub fn sensed_components(&self, species: u16) -> (v: Vec<usize>)
        ensures
            v@.to_set() == sensed_set(self.field_relations@, species),
            forall|i: int, j: int| 0 <= i < j < v.len() ==> v[i] < v[j],
    {
        let rows = &self.field_relations;
        let mut v: Vec<usize> = Vec::new();
        let mut k: usize = 0;
        while k < rows.len()
            invariant
                k <= rows.len(),
                forall|i: int, j: int| 0 <= i < j < v.len() ==> v[i] < v[j],
                forall|c: usize|
                    v@.contains(c) <==> exists|j: int|
                        0 <= j < k && rows@[j].species == species && rows@[j].sense
                            && rows@[j].component == c,
            decreases rows.len() - k,
        {
            let r = &rows[k];
            if r.species == species && r.sense {
                insert_sorted(&mut v, r.component);
            }
            k = k + 1;
        }
        assert(v@.to_set() =~= sensed_set(rows@, species));
        v
    }
}

/// Whether `k` is the first row of `rows` relating `species` to `component`.
pub open spec fn first_row<S>(rows: Seq<FieldRelation<S>>, species: u16, component: usize, k: int) -> bool {
    &&& 0 <= k < rows.len()
    &&& rows[k].species == species && rows[k].component == component
    &&& forall|j: int| 0 <= j < k ==> !(rows[j].species == species && rows[j].component == component)
}

/// Whether some row of `rows` relates `species` to `component`.
pub open spec fn has_row<S>(rows: Seq<FieldRelation<S>>, species: u16, component: usize) -> bool {
    exists|k: int| 0 <= k < rows.len() && rows[k].species == species && rows[k].component == component
}

/// The number of components a per-component vector of `species` spans: every
/// declared component, and at least every component one of its rows refers to.
pub open spec fn component_span<S>(n_components: nat, rows: Seq<FieldRelation<S>>, species: u16) -> nat {
    let referenced = Set::new(
        |c: nat| exists|k: int| 0 <= k < rows.len() && rows[k].species == species && rows[k].component + 1 == c,
    );
    if exists|c: nat| referenced.contains(c) && c > n_components {
        choose|c: nat| referenced.contains(c) && c > n_components && forall|d: nat| referenced.contains(d) ==> d <= c
    } else {
        n_components
    }
}

impl<S: Copy, D, K> SimConfig<S, D, K> {
    /// The archetype of `species`, if it is in the list.
    pub fn archetype_of(&self, species: u16) -> (a: Option<&Archetype<S, K>>)
        ensures
            (species as int) < self.archetypes@.len() ==> a == Some(&self.archetypes@[species as int]),
            (species as int) >= self.archetypes@.len() ==> a is None,
    {
        let i = species as usize;
        if i < self.archetypes.len() {
            Some(&self.archetypes[i])
        } else {
            None
        }
    }

    /// The founding genotype of `species`, or `fallback` (the default genotype)
    /// for an index beyond the list.
    pub fn genotype_of(&self, species: u16, fallback: Genotype<S>) -> (g: Genotype<S>)
        ensures
            (species as int) < self.archetypes@.len() ==> g == self.archetypes@[species as int].genotype,
            (species as int) >= self.archetypes@.len() ==> g == fallback,
    {
        match self.archetype_of(species) {
            Some(a) => a.genotype,
            None => fallback,
        }
    }

    /// The founding maximum speed of `species` (the reference speed of the
    /// locomotion cost), or `fallback` (the default genotype's) beyond the
    /// list.
    pub fn founder_max_speed_of(&self, species: u16, fallback: S) -> (v: S)
        ensures
            (species as int) < self.archetypes@.len() ==> v == self.archetypes@[species as int].genotype.max_speed,
            (species as int) >= self.archetypes@.len() ==> v == fallback,
    {
        match self.archetype_of(species) {
            Some(a) => a.genotype.max_speed,
            None => fallback,
        }
    }

    /// The founding brain kind of `species`, or `fallback` (the default kind)
    /// beyond the list.
    pub fn brain_of(&self, species: u16, fallback: BrainKind<S>) -> (b: BrainKind<S>)
        ensures
            (species as int) < self.archetypes@.len() ==> same_kind(b, self.archetypes@[species as int].brain),
            (species as int) >= self.archetypes@.len() ==> b == fallback,
    {
        match self.archetype_of(species) {
            Some(a) => a.brain.duplicate(),
            None => fallback,
        }
    }

    /// The captured brain the founders of `species` are born with, if any.
    pub fn captured_brain_of(&self, species: u16) -> (b: Option<&K>)
        ensures
            (species as int) < self.archetypes@.len() ==> b == match self.archetypes@[species as int].captured_brain {
                Some(k) => Some(&k),
                None => None::<&K>,
            },
            (species as int) >= self.archetypes@.len() ==> b is None,
    {
        match self.archetype_of(species) {
            Some(a) => match &a.captured_brain {
                Some(k) => Some(k),
                None => None,
            },
            None => None,
        }
    }

    /// The anchoring of `species` to the substrate, if it is rooted.
    pub fn anchor_of(&self, species: u16) -> (c: Option<&AnchorConfig<S>>)
        ensures
            (species as int) < self.archetypes@.len() ==> c == match self.archetypes@[species as int].anchor {
                Some(x) => Some(&x),
                None => None::<&AnchorConfig<S>>,
            },
            (species as int) >= self.archetypes@.len() ==> c is None,
    {
        match self.archetype_of(species) {
            Some(a) => match &a.anchor {
                Some(x) => Some(x),
                None => None,
            },
            None => None,
        }
    }

    /// Which genes of `species` may mutate; the default mutability beyond the
    /// list.
    pub fn mutable_of(&self, species: u16) -> (m: Mutability)
        ensures
            (species as int) < self.archetypes@.len() ==> m == self.archetypes@[species as int].mutable,
            (species as int) >= self.archetypes@.len() ==> m == default_mutability(),
    {
        match self.archetype_of(species) {
            Some(a) => a.mutable,
            None => Mutability::default(),
        }
    }

    /// The reserve capacity of `species`, or `fallback` beyond the list.
    pub fn reserve_max_of(&self, species: u16, fallback: S) -> (v: S)
        ensures
            (species as int) < self.archetypes@.len() ==> v == self.archetypes@[species as int].reserve_max,
            (species as int) >= self.archetypes@.len() ==> v == fallback,
    {
        match self.archetype_of(species) {
            Some(a) => a.reserve_max,
            None => fallback,
        }
    }

    /// The body radius of `species`, or `fallback` beyond the list.
    pub fn agent_radius_of(&self, species: u16, fallback: S) -> (v: S)
        ensures
            (species as int) < self.archetypes@.len() ==> v == self.archetypes@[species as int].radius,
            (species as int) >= self.archetypes@.len() ==> v == fallback,
    {
        match self.archetype_of(species) {
            Some(a) => a.radius,
            None => fallback,
        }
    }

    /// The colour of `species`, or `fallback` (the palette's colour for that
    /// index) beyond the list.
    pub fn color_of(&self, species: u16, fallback: [S; 3]) -> (v: [S; 3])
        ensures
            (species as int) < self.archetypes@.len() ==> v == self.archetypes@[species as int].color,
            (species as int) >= self.archetypes@.len() ==> v == fallback,
    {
        match self.archetype_of(species) {
            Some(a) => a.color,
            None => fallback,
        }
    }

    /// The first field-relation row relating `species` to `component`, if any.
    pub fn relation_row(&self, species: u16, component: usize) -> (r: Option<usize>)
        ensures
            match r {
                Some(k) => first_row(self.field_relations@, species, component, k as int),
                None => !has_row(self.field_relations@, species, component),
            },
    {
        let rows = &self.field_relations;
        let mut k: usize = 0;
        while k < rows.len()
            invariant
                k <= rows@.len(),
                rows@ == self.field_relations@,
                forall|j: int| 0 <= j < k ==> !(rows@[j].species == species && rows@[j].component == component),
            decreases rows.len() - k,
        {
            if rows[k].species == species && rows[k].component == component {
                return Some(k);
            }
            k = k + 1;
        }
        None
    }

    /// The row giving `species`'s relation to the nutrient (component 0), if
    /// any: its absorption, capacity and reproduction cost, all zero without
    /// one.
    pub fn nutrient_row(&self, species: u16) -> (r: Option<usize>)
        ensures
            match r {
                Some(k) => first_row(self.field_relations@, species, 0, k as int),
                None => !has_row(self.field_relations@, species, 0),
            },
    {
        self.relation_row(species, 0)
    }

    /// For each component of `species`'s per-component vectors, the row its
    /// value is read from (zero where there is none). The vector spans every
    /// declared component and, beyond them, every component one of the
    /// species' rows refers to.
    pub fn component_rows(&self, species: u16) -> (v: Vec<Option<usize>>)
        requires
            forall|k: int| 0 <= k < self.field_relations@.len() ==> #[trigger] self.field_relations@[k].component < usize::MAX,
        ensures
            v@.len() == component_span(self.components@.len(), self.field_relations@, species),
            forall|c: int|
                0 <= c < v@.len() ==> match #[trigger] v@[c] {
                    Some(k) => first_row(self.field_relations@, species, c as usize, k as int),
                    None => !has_row(self.field_relations@, species, c as usize),
                },
    {
        let rows = &self.field_relations;
        let mut n: usize = self.components.len();
        let ghost referenced = Set::new(
            |c: nat| exists|k: int| 0 <= k < rows@.len() && rows@[k].species == species && rows@[k].component + 1 == c,
        );
        let mut widest: Option<usize> = None;
        let mut k: usize = 0;
        while k < rows.len()
            invariant
                k <= rows@.len(),
                forall|j: int| 0 <= j < rows@.len() ==> #[trigger] rows@[j].component < usize::MAX,
                match widest {
                    Some(w) => referenced.contains(w as nat) && forall|j: int|
                        0 <= j < k && rows@[j].species == species ==> rows@[j].component + 1 <= w,
                    None => forall|j: int| 0 <= j < k ==> rows@[j].species != species,
                },
                referenced == Set::new(
                    |c: nat| exists|k: int| 0 <= k < rows@.len() && rows@[k].species == species && rows@[k].component + 1 == c,
                ),
            decreases rows.len() - k,
        {
            if rows[k].species == species {
                let c = rows[k].component + 1;
                assert(referenced.contains(c as nat));
                match widest {
                    Some(w) => {
                        if c > w {
                            widest = Some(c);
                        }
                    },
                    None => {
                        widest = Some(c);
                    },
                }
            }
            k = k + 1;
        }
        let ghost span = component_span(self.components@.len(), rows@, species);
        match widest {
            Some(w) => {
                proof {
                    assert forall|d: nat| referenced.contains(d) implies d <= w by {
                        let j = choose|j: int| 0 <= j < rows@.len() && rows@[j].species == species && rows@[j].component + 1 == d;
                    }
                    if w > n {
                        let c = choose|c: nat| referenced.contains(c) && c > self.components@.len() && forall|d: nat| referenced.contains(d) ==> d <= c;
                        assert(c == w);
                    }
                }
                if w > n {
                    n = w;
                }
            },
            None => {
                proof {
                    if exists|c: nat| referenced.contains(c) && c > self.components@.len() {
                        let c = choose|c: nat| referenced.contains(c) && c > self.components@.len();
                        let j = choose|j: int| 0 <= j < rows@.len() && rows@[j].species == species && rows@[j].component + 1 == c;
                    }
                }
            },
        }
        assert(n == span);
        let mut v: Vec<Option<usize>> = Vec::new();
        let mut c: usize = 0;
        while c < n
            invariant
                c <= n,
                v@.len() == c,
                forall|i: int|
                    0 <= i < c ==> match #[trigger] v@[i] {
                        Some(k) => first_row(self.field_relations@, species, i as usize, k as int),
                        None => !has_row(self.field_relations@, species, i as usize),
                    },
            decreases n - c,
        {
            let r = self.relation_row(species, c);
            v.push(r);
            c = c + 1;
        }
        v
    }
}

/// Inserts `x` into the strictly increasing `v`, keeping it strictly increasing
/// and without repetition.
fn insert_sorted(v: &mut Vec<usize>, x: usize)
    requires
        forall|i: int, j: int| 0 <= i < j < old(v).len() ==> old(v)[i] < old(v)[j],
    ensures
        forall|i: int, j: int| 0 <= i < j < final(v).len() ==> final(v)[i] < final(v)[j],
        forall|c: usize| final(v)@.contains(c) <==> (old(v)@.contains(c) || c == x),
{
    let mut p: usize = 0;
    while p < v.len() && v[p] < x
        invariant
            p <= v.len(),
            v@ == old(v)@,
            forall|i: int| 0 <= i < p ==> v[i] < x,
        decreases v.len() - p,
    {
        p = p + 1;
    }
    if p < v.len() && v[p] == x {
        assert(v@[p as int] == x);
        assert(v@.contains(x));
        return;
    }
    let ghost before = v@;
    v.insert(p, x);
    assert(v@ == before.insert(p as int, x));
    assert(before == old(v)@);
    assert forall|c: usize| v@.contains(c) <==> (before.contains(c) || c == x) by {
        if v@.contains(c) {
            let k = choose|k: int| 0 <= k < v@.len() && v@[k] == c;
            if k < p {
                assert(before[k] == c);
            } else if k > p {
                assert(before[k - 1] == c);
            }
        }
        if before.contains(c) {
            let k = choose|k: int| 0 <= k < before.len() && before[k] == c;
            if k < p {
                assert(v@[k] == c);
            } else {
                assert(v@[k + 1] == c);
            }
        }
        if c == x {
            assert(v@[p as int] == c);
        }
    }
    assert(forall|c: usize| v@.contains(c) <==> (old(v)@.contains(c) || c == x));
}

} // verus!
