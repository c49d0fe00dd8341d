//! The generational regime's integer core: what a finished match's cohort
//! counts for a scored species, which of its members selection may carry, how
//! the survivor pool is assembled around the all-time champion, the per-match
//! seeds, and the orchestrator's bookkeeping between generations.
//!
//! Energy reserves and fitness scores are scalars of the engine's types (`S`,
//! `F`); ranking by them, and running the matches, stay with the driver. The
//! brain type `K` is opaque here.

use vstd::prelude::*;
use crate::config::{BatchConfig, Fitness, SimConfig};
use crate::genotype::Genotype;

verus! {

broadcast use vstd::std_specs::hash::group_hash_axioms;

/// One individual lifted out of a finished match's world: what scoring and
/// selection read.
pub struct Individual<S, K> {
    /// Archetype index.
    pub species: u16,
    /// Genealogy depth (0 at a founder, parent + 1 at reproduction).
    pub generation: u32,
    /// Energy reserve at the end of the match (the selection tie-break).
    pub reserve: S,
    /// The evolved genome.
    pub genotype: Genotype<S>,
    /// The evolved brain.
    pub brain: K,
}

/// How many members of `inds` belong to species `sp`.
pub open spec fn population_of<S, K>(inds: Seq<Individual<S, K>>, sp: u16) -> nat
    decreases inds.len(),
{
    if inds.len() == 0 {
        0
    } else {
        population_of(inds.drop_last(), sp) + if inds.last().species == sp {
            1nat
        } else {
            0
        }
    }
}

/// The deepest generation among the members of species `sp` (0 when there is
/// none).
pub open spec fn deepest_of<S, K>(inds: Seq<Individual<S, K>>, sp: u16) -> nat
    decreases inds.len(),
{
    if inds.len() == 0 {
        0
    } else {
        let prev = deepest_of(inds.drop_last(), sp);
        let last = inds.last();
        if last.species == sp && last.generation > prev {
            last.generation as nat
        } else {
            prev
        }
    }
}

/// How many members of `inds` are rivals of species `sp`: of another species
/// and not sessile (`sessile[i]` tells whether member `i`'s brain is).
pub open spec fn rivals_of<S, K>(inds: Seq<Individual<S, K>>, sessile: Seq<bool>, sp: u16) -> nat
    decreases inds.len(),
{
    if inds.len() == 0 {
        0
    } else {
        let i = inds.len() - 1;
        rivals_of(inds.drop_last(), sessile.take(i), sp) + if inds[i].species != sp && !sessile[i] {
            1nat
        } else {
            0
        }
    }
}

/// The integer aggregates of a finished match for a scored species.
#[derive(Clone, Copy, PartialEq, Eq, Debug, Structural)]
pub struct MatchCounts {
    /// Deepest lineage reached by the scored species.
    pub best_evolved: u32,
    /// Living members of the scored species.
    pub population: usize,
    /// Living rivals: every other non-sessile agent (food excluded).
    pub rivals: usize,
}

proof fn lemma_counts_bounded<S, K>(inds: Seq<Individual<S, K>>, sessile: Seq<bool>, sp: u16)
    requires
        sessile.len() == inds.len(),
    ensures
        population_of(inds, sp) <= inds.len(),
        rivals_of(inds, sessile, sp) <= inds.len(),
        deepest_of(inds, sp) <= u32::MAX,
    decreases inds.len(),
{
    if inds.len() > 0 {
        lemma_counts_bounded(inds.drop_last(), sessile.take(inds.len() - 1), sp);
    }
}

impl MatchCounts {
    /// Counts a finished match for `scored`: its deepest generation, its
    /// living members, and its living non-sessile rivals. All zero for the
    /// scored species when it died out.
    pub fn compute<S, K>(individuals: &Vec<Individual<S, K>>, sessile: &Vec<bool>, scored: u16) -> (c:
        MatchCounts)
        requires
            sessile@.len() == individuals@.len(),
        ensures
            c.best_evolved == deepest_of(individuals@, scored),
            c.population == population_of(individuals@, scored),
            c.rivals == rivals_of(individuals@, sessile@, scored),
    {
        let mut best: u32 = 0;
        let mut population: usize = 0;
        let mut rivals: usize = 0;
        let mut k: usize = 0;
        while k < individuals.len()
            invariant
                k <= individuals@.len(),
                sessile@.len() == individuals@.len(),
                best == deepest_of(individuals@.take(k as int), scored),
                population == population_of(individuals@.take(k as int), scored),
                rivals == rivals_of(individuals@.take(k as int), sessile@.take(k as int), scored),
            decreases individuals.len() - k,
        {
            let ghost pre = individuals@.take(k as int);
            let ghost next = individuals@.take(k + 1);
            assert(next.drop_last() =~= pre);
            assert(sessile@.take(k + 1).take(k as int) =~= sessile@.take(k as int));
            proof {
                lemma_counts_bounded(pre, sessile@.take(k as int), scored);
            }
            let ind = &individuals[k];
            if ind.species == scored {
                population = population + 1;
                if ind.generation > best {
                    best = ind.generation;
                }
            } else if !sessile[k] {
                rivals = rivals + 1;
            }
            k = k + 1;
        }
        assert(individuals@.take(k as int) =~= individuals@);
        assert(sessile@.take(k as int) =~= sessile@);
        MatchCounts { best_evolved: best, population, rivals }
    }

    /// Combat dominance: own survivors minus living rivals.
    pub fn dominance(&self) -> (d: i64)
        requires
            self.population <= i64::MAX,
            self.rivals <= i64::MAX,
        ensures
            d == self.population - self.rivals,
    {
        self.population as i64 - self.rivals as i64
    }
}

/// Every selection metric of one match's scored faction, in the driver's
/// scalar type `F`.
#[derive(Clone, Copy, Debug)]
pub struct MatchMetrics<F> {
    /// Deepest lineage reached.
    pub best_evolved: F,
    /// Standing biomass of the scored species.
    pub population: F,
    /// Own survivors minus living rivals.
    pub dominance: F,
    /// Mean energy reserve of the scored species' survivors (a diagnostic,
    /// never a selection key).
    pub mean_reserve: F,
}

/// Whether a fitness is scored from a match's final state (the deepest
/// lineage, the standing population, the dominance).
pub open spec fn terminal_fitness(f: Fitness) -> bool {
    f == Fitness::BestEvolved || f == Fitness::Population || f == Fitness::Dominance
}

impl<F: Copy> MatchMetrics<F> {
    /// The scalar that drives selection for `fitness`.
    pub fn of(&self, fitness: Fitness) -> (v: F)
        requires
            terminal_fitness(fitness),
        ensures
            fitness == Fitness::BestEvolved ==> v == self.best_evolved,
            fitness == Fitness::Population ==> v == self.population,
            fitness == Fitness::Dominance ==> v == self.dominance,
    {
        match fitness {
            Fitness::BestEvolved => self.best_evolved,
            Fitness::Dominance => self.dominance,
            _ => self.population,
        }
    }
}

/// Whether member `i` of `inds` is one selection may carry for species `sp`:
/// of that species and of its deepest generation.
pub open spec fn deepest_member<S, K>(inds: Seq<Individual<S, K>>, sp: u16, i: int) -> bool {
    0 <= i < inds.len() && inds[i].species == sp && inds[i].generation == deepest_of(inds, sp)
}

/// When the species has a member, some member reaches its deepest generation.
proof fn lemma_deepest_attained<S, K>(inds: Seq<Individual<S, K>>, sp: u16) -> (i: int)
    requires
        population_of(inds, sp) > 0,
    ensures
        deepest_member(inds, sp, i),
    decreases inds.len(),
{
    let n = inds.len() - 1;
    let prev = inds.drop_last();
    if population_of(prev, sp) > 0 {
        let j = lemma_deepest_attained(prev, sp);
        if inds[n].species == sp && inds[n].generation > deepest_of(prev, sp) {
            n
        } else {
            assert(inds[j] == prev[j]);
            j
        }
    } else {
        assert(inds[n].species == sp);
        assert(deepest_of(prev, sp) == 0) by {
            lemma_no_member_no_depth(prev, sp);
        }
        n
    }
}

proof fn lemma_no_member_no_depth<S, K>(inds: Seq<Individual<S, K>>, sp: u16)
    requires
        population_of(inds, sp) == 0,
    ensures
        deepest_of(inds, sp) == 0,
    decreases inds.len(),
{
    if inds.len() > 0 {
        lemma_no_member_no_depth(inds.drop_last(), sp);
    }
}

/// The members selection may carry for `scored`, in their order: those of the
/// scored species at its deepest generation. The carried individual is the
/// last of them with the greatest reserve — the driver compares reserves.
pub fn deepest_members<S, K>(individuals: &Vec<Individual<S, K>>, scored: u16) -> (r: Vec<usize>)
    ensures
        forall|k: int| 0 <= k < r@.len() ==> deepest_member(individuals@, scored, #[trigger] r@[k] as int),
        forall|k: int, l: int| 0 <= k < l < r@.len() ==> r@[k] < r@[l],
        forall|i: int|
            deepest_member(individuals@, scored, i) ==> exists|k: int| 0 <= k < r@.len() && #[trigger] r@[k] == i,
        population_of(individuals@, scored) > 0 ==> r@.len() > 0,
{
    let mut best: u32 = 0;
    let mut k: usize = 0;
    while k < individuals.len()
        invariant
            k <= individuals@.len(),
            best == deepest_of(individuals@.take(k as int), scored),
        decreases individuals.len() - k,
    {
        assert(individuals@.take(k + 1).drop_last() =~= individuals@.take(k as int));
        let ind = &individuals[k];
        if ind.species == scored && ind.generation > best {
            best = ind.generation;
        }
        k = k + 1;
    }
    assert(individuals@.take(k as int) =~= individuals@);
    let mut r: Vec<usize> = Vec::new();
    let mut i: usize = 0;
    while i < individuals.len()
        invariant
            i <= individuals@.len(),
            best == deepest_of(individuals@, scored),
            forall|k: int| 0 <= k < r@.len() ==> deepest_member(individuals@, scored, #[trigger] r@[k] as int),
            forall|k: int| 0 <= k < r@.len() ==> #[trigger] r@[k] < i,
            forall|k: int, l: int| 0 <= k < l < r@.len() ==> r@[k] < r@[l],
            forall|j: int|
                0 <= j < i && deepest_member(individuals@, scored, j) ==> exists|k: int|
                    0 <= k < r@.len() && #[trigger] r@[k] == j,
        decreases individuals.len() - i,
    {
        let ind = &individuals[i];
        let ghost r0 = r@;
        if ind.species == scored && ind.generation == best {
            r.push(i);
            assert(r@[r@.len() - 1] == i);
        }
        assert forall|j: int|
            0 <= j < i + 1 && deepest_member(individuals@, scored, j) implies exists|k: int|
                0 <= k < r@.len() && #[trigger] r@[k] == j by {
            if j == i {
                assert(r@[r@.len() - 1] == i);
            } else {
                let k0 = choose|k: int| 0 <= k < r0.len() && #[trigger] r0[k] == j;
                assert(r@[k0] == j);
            }
        }
        i = i + 1;
    }
    proof {
        if population_of(individuals@, scored) > 0 {
            let w = lemma_deepest_attained(individuals@, scored);
            let k = choose|k: int| 0 <= k < r@.len() && #[trigger] r@[k] == w;
        }
    }
    r
}


// ---------------------------------------------------------------------------
// The survivor pool
// ---------------------------------------------------------------------------

/// One place of the survivor pool carried into the next generation.
#[derive(Clone, Copy, PartialEq, Eq, Debug, Structural)]
pub enum PoolSlot {
    /// The faction's all-time best genome.
    Champion,
    /// The generation's elite of that rank (0 = best).
    Elite(usize),
}

/// The survivor pool: the generation's top `survivors` elites (of `n_elites`,
/// best first); when selection is on (`survivors > 0`), an all-time champion
/// exists and none of those elites carries its brain (`in_top`), the champion
/// leads the pool, which is then cut back to `survivors` places.
pub open spec fn planned_pool(n_elites: nat, survivors: nat, champion: bool, in_top: bool) -> Seq<
    PoolSlot,
> {
    let t = if survivors < n_elites {
        survivors
    } else {
        n_elites
    };
    let top = Seq::new(t, |i: int| PoolSlot::Elite(i as usize));
    let led = seq![PoolSlot::Champion] + top;
    if survivors > 0 && champion && !in_top {
        if survivors < led.len() {
            led.take(survivors as int)
        } else {
            led
        }
    } else {
        top
    }
}

/// Places the survivor pool (see [`planned_pool`]). `champion_at[i]` tells
/// whether elite `i` carries the champion's brain.
pub fn survivor_plan(n_elites: usize, survivors: usize, champion: bool, champion_at: &Vec<bool>) -> (p:
    Vec<PoolSlot>)
    requires
        champion_at@.len() == n_elites,
    ensures
        p@ == planned_pool(
            n_elites as nat,
            survivors as nat,
            champion,
            exists|i: int| 0 <= i < n_elites && i < survivors && #[trigger] champion_at@[i],
        ),
{
    let t = if survivors < n_elites {
        survivors
    } else {
        n_elites
    };
    let mut top: Vec<PoolSlot> = Vec::new();
    let mut in_top = false;
    let mut i: usize = 0;
    while i < t
        invariant
            i <= t,
            t <= n_elites,
            t <= survivors,
            t == survivors || t == n_elites,
            champion_at@.len() == n_elites,
            top@ == Seq::new(i as nat, |k: int| PoolSlot::Elite(k as usize)),
            in_top == exists|k: int| 0 <= k < i && #[trigger] champion_at@[k],
        decreases t - i,
    {
        top.push(PoolSlot::Elite(i));
        if champion_at[i] {
            in_top = true;
        }
        assert(top@ =~= Seq::new((i + 1) as nat, |k: int| PoolSlot::Elite(k as usize)));
        i = i + 1;
    }
    let ghost in_spec = exists|k: int| 0 <= k < n_elites && k < survivors && #[trigger] champion_at@[k];
    assert(in_top == in_spec) by {
        if in_spec {
            let k = choose|k: int| 0 <= k < n_elites && k < survivors && #[trigger] champion_at@[k];
            assert(k < t);
        }
    }
    if survivors > 0 && champion && !in_top {
        let mut p: Vec<PoolSlot> = Vec::new();
        p.push(PoolSlot::Champion);
        let mut k: usize = 0;
        while k < t && k + 1 < survivors
            invariant
                k <= t,
                t <= survivors,
                t == survivors || t == n_elites,
                k + 1 <= survivors,
                p@ == (seq![PoolSlot::Champion] + top@).take(k + 1),
                top@.len() == t,
            decreases t - k,
        {
            p.push(top[k]);
            assert((seq![PoolSlot::Champion] + top@).take(k + 2) =~= (seq![PoolSlot::Champion]
                + top@).take(k + 1).push(top@[k as int]));
            k = k + 1;
        }
        proof {
            let led = seq![PoolSlot::Champion] + top@;
            if survivors < led.len() {
                assert(p@ =~= led.take(survivors as int));
            } else {
                assert(p@ =~= led);
            }
        }
        p
    } else {
        top
    }
}

/// Whether the survivor pool carries the champion's brain: as its leading
/// place, or through one of its elites (`champion_at` flags the elites that
/// carry it).
pub open spec fn carries_champion(pool: Seq<PoolSlot>, champion_at: Seq<bool>) -> bool {
    ||| (pool.len() > 0 && pool[0] == PoolSlot::Champion)
    ||| exists|k: int, i: int|
        #![trigger pool[k], champion_at[i]]
        0 <= k < pool.len() && pool[k] == PoolSlot::Elite(i as usize) && 0 <= i < champion_at.len()
            && champion_at[i]
}

/// Inter-generation elitism: the survivor pool never holds more than
/// `survivors` genomes (none with selection off); with selection on and an
/// all-time champion known, the pool carries the champion's brain, so a bad
/// generation never erases past progress.
pub proof fn lemma_champion_carried(n_elites: nat, survivors: nat, champion: bool, champion_at: Seq<bool>)
    requires
        champion_at.len() == n_elites,
    ensures
        ({
            let in_top = exists|i: int| 0 <= i < n_elites && i < survivors && #[trigger] champion_at[i];
            let pool = planned_pool(n_elites, survivors, champion, in_top);
            &&& pool.len() <= survivors
            &&& survivors == 0 ==> pool.len() == 0
            &&& (survivors > 0 && champion) ==> carries_champion(pool, champion_at)
        }),
{
    let in_top = exists|i: int| 0 <= i < n_elites && i < survivors && #[trigger] champion_at[i];
    let pool = planned_pool(n_elites, survivors, champion, in_top);
    if survivors > 0 && champion && in_top {
        let i = choose|i: int| 0 <= i < n_elites && i < survivors && #[trigger] champion_at[i];
        assert(pool[i] == PoolSlot::Elite(i as usize));
        assert(champion_at[i]);
        assert(carries_champion(pool, champion_at));
    }
}

/// The faction's all-time champion after a generation. With selection on
/// (`survivors > 0`), the generation's top elite, scored `best`, takes the
/// title when there was no champion yet or when it `beats` the holder (a
/// score comparison, made by the caller); otherwise the holder stays.
pub open spec fn champion_after<F, T>(survivors: nat, top: Option<T>, best: F, holder: Option<(F, T)>, beats: bool) -> Option<
    (F, T),
> {
    if survivors > 0 && top is Some && (holder is None || beats) {
        Some((best, top->0))
    } else {
        holder
    }
}

/// Updates the faction's all-time champion after a generation (see
/// [`champion_after`]).
pub fn next_champion<F, T>(survivors: usize, top: Option<T>, best: F, holder: Option<(F, T)>, beats: bool) -> (c:
    Option<(F, T)>)
    ensures
        c == champion_after(survivors as nat, top, best, holder, beats),
{
    if survivors > 0 {
        match top {
            Some(t) => {
                match holder {
                    None => Some((best, t)),
                    Some(h) => {
                        if beats {
                            Some((best, t))
                        } else {
                            Some(h)
                        }
                    },
                }
            },
            None => holder,
        }
    } else {
        holder
    }
}

/// Elitism never loses ground: a champion, once known, is kept unless a
/// generation beats it (and is then replaced by that generation's top elite
/// and score); with selection on, a non-empty cohort always leaves a
/// champion; with selection off, the champion is never touched.
pub proof fn lemma_champion_kept<F, T>(survivors: nat, top: Option<T>, best: F, holder: Option<(F, T)>, beats: bool)
    ensures
        ({
            let c = champion_after(survivors, top, best, holder, beats);
            &&& holder is Some ==> c is Some
            &&& (c is Some && holder is Some && c != holder) ==> beats && c == Some((best, top->0))
            &&& (survivors > 0 && top is Some) ==> c is Some
            &&& survivors == 0 ==> c == holder
        }),
{
}

/// Which elite each of `count` founders descends from, cycling over the `n`
/// ranked elites: founder 0 is the top elite itself, founder `k` a variant of
/// elite `k mod n`.
pub fn founder_sources(count: usize, n: usize) -> (v: Vec<usize>)
    requires
        n > 0,
    ensures
        v@.len() == count,
        forall|k: int| 0 <= k < count ==> v@[k] == k % (n as int),
{
    let mut v: Vec<usize> = Vec::new();
    let mut k: usize = 0;
    while k < count
        invariant
            k <= count,
            n > 0,
            v@.len() == k,
            forall|j: int| 0 <= j < k ==> v@[j] == j % (n as int),
        decreases count - k,
    {
        v.push(k % n);
        k = k + 1;
    }
    v
}

// ---------------------------------------------------------------------------
// Seeding a scenario's founders
// ---------------------------------------------------------------------------

/// Whether `b` carries every field of `a` but its archetypes and its founder
/// pools.
pub open spec fn same_but_founders<S, D, K>(a: SimConfig<S, D, K>, b: SimConfig<S, D, K>) -> bool {
    &&& b.tick_hz == a.tick_hz
    &&& b.arena_half_extent == a.arena_half_extent
    &&& b.relations == a.relations
    &&& b.field_resolution == a.field_resolution
    &&& b.components == a.components
    &&& b.sources == a.sources
    &&& b.field_relations == a.field_relations
    &&& b.speed_bounds == a.speed_bounds
    &&& b.agility_bounds == a.agility_bounds
    &&& b.vision_range_bounds == a.vision_range_bounds
    &&& b.vision_fov_bounds == a.vision_fov_bounds
    &&& b.reproduction_threshold_bounds == a.reproduction_threshold_bounds
    &&& b.offspring_energy_bounds == a.offspring_energy_bounds
    &&& b.mutation_rate_bounds == a.mutation_rate_bounds
    &&& b.vision_rays_bounds == a.vision_rays_bounds
    &&& b.photosynthesis_bounds == a.photosynthesis_bounds
    &&& b.seed_dispersal_bounds == a.seed_dispersal_bounds
    &&& b.brain_cost_bounds == a.brain_cost_bounds
    &&& b.act_cost_bounds == a.act_cost_bounds
    &&& b.cost_law == a.cost_law
    &&& b.predation == a.predation
    &&& b.play_area_color == a.play_area_color
    &&& b.off_game_color == a.off_game_color
    &&& b.seed == a.seed
    &&& b.batch == a.batch
}

/// Installs a bred species' founders in a scenario: its archetype (when it
/// exists) takes the champion's genotype and keeps the champion's brain as its
/// captured brain, and the founder pool of `species` becomes `founders`.
pub fn install_founders<S: Copy, D, K>(
    config: &mut SimConfig<S, D, K>,
    species: u16,
    genotype: Genotype<S>,
    champion: K,
    founders: Vec<K>,
)
    ensures
        same_but_founders(*old(config), *final(config)),
        final(config).founder_pools@ == old(config).founder_pools@.insert(species, founders),
        final(config).archetypes@.len() == old(config).archetypes@.len(),
        forall|i: int|
            0 <= i < old(config).archetypes@.len() && i != species ==> final(config).archetypes@[i]
                == old(config).archetypes@[i],
        (species as int) < old(config).archetypes@.len() ==> {
            let a = old(config).archetypes@[species as int];
            let b = final(config).archetypes@[species as int];
            &&& b.genotype == genotype
            &&& b.captured_brain == Some(champion)
            &&& b.name == a.name
            &&& b.color == a.color
            &&& b.count == a.count
            &&& b.radius == a.radius
            &&& b.reserve_max == a.reserve_max
            &&& b.brain == a.brain
            &&& b.mutable == a.mutable
            &&& b.source == a.source
            &&& b.captured_from == a.captured_from
            &&& b.anchor == a.anchor
        },
{
    let i = species as usize;
    if i < config.archetypes.len() {
        let mut a = config.archetypes.remove(i);
        a.genotype = genotype;
        a.captured_brain = Some(champion);
        config.archetypes.insert(i, a);
    }
    config.founder_pools.insert(species, founders);
}

/// Whether `pool` is the founder pool bred from the ranked cohort `elites`
/// for an archetype of `count` members: founder 0 a copy of the top elite's
/// brain, founder `k` the `variant` of elite `k mod n` at rank `k`.
pub open spec fn bred_pool<S, K: Clone, V: Fn(&Individual<S, K>, usize) -> K>(
    pool: Seq<K>,
    elites: Seq<Individual<S, K>>,
    count: nat,
    variant: V,
) -> bool {
    &&& pool.len() == count
    &&& count > 0 ==> cloned(elites[0].brain, pool[0])
    &&& forall|k: int|
        1 <= k < count ==> variant.ensures((&elites[k % (elites.len() as int)], k as usize), #[trigger] pool[k])
}

/// The member count of `species`' archetype, `0` beyond the list.
pub open spec fn archetype_count<S, D, K>(config: SimConfig<S, D, K>, species: u16) -> nat {
    if (species as int) < config.archetypes@.len() {
        config.archetypes@[species as int].count as nat
    } else {
        0
    }
}

/// Re-seeds `species`' founders in a scenario from a generation's ranked
/// cohort `elites` (best first): one founder per member of its archetype,
/// founder 0 the top elite's brain intact, the others diversified variants
/// (made by `variant` from the elite they descend from and their rank) cycling
/// over the whole cohort; the archetype takes the top elite's genome and keeps
/// its brain as the captured brain. An empty cohort changes nothing.
pub fn seed_founders<S: Copy, D, K: Clone, V: Fn(&Individual<S, K>, usize) -> K>(
    config: &mut SimConfig<S, D, K>,
    species: u16,
    elites: &Vec<Individual<S, K>>,
    variant: V,
)
    requires
        forall|i: int, k: usize| 0 <= i < elites@.len() ==> variant.requires((&elites@[i], k)),
    ensures
        elites@.len() == 0 ==> *final(config) == *old(config),
        elites@.len() > 0 ==> {
            let pool = final(config).founder_pools@[species];
            let top = elites@[0];
            &&& bred_pool(pool@, elites@, archetype_count(*old(config), species), variant)
            &&& final(config).founder_pools@ == old(config).founder_pools@.insert(species, pool)
            &&& same_but_founders(*old(config), *final(config))
            &&& final(config).archetypes@.len() == old(config).archetypes@.len()
            &&& forall|i: int|
                0 <= i < old(config).archetypes@.len() && i != species ==> final(config).archetypes@[i]
                    == old(config).archetypes@[i]
            &&& (species as int) < old(config).archetypes@.len() ==> {
                let a = old(config).archetypes@[species as int];
                let b = final(config).archetypes@[species as int];
                &&& b.genotype == top.genotype
                &&& b.captured_brain matches Some(c) && cloned(top.brain, c)
                &&& b.name == a.name
                &&& b.color == a.color
                &&& b.count == a.count
                &&& b.radius == a.radius
                &&& b.reserve_max == a.reserve_max
                &&& b.brain == a.brain
                &&& b.mutable == a.mutable
                &&& b.source == a.source
                &&& b.captured_from == a.captured_from
                &&& b.anchor == a.anchor
            }
        },
{
    let n = elites.len();
    if n == 0 {
        return;
    }
    let count: usize = match config.archetype_of(species) {
        Some(a) => a.count,
        None => 0,
    };
    let sources = founder_sources(count, n);
    let mut pool: Vec<K> = Vec::new();
    let mut k: usize = 0;
    while k < count
        invariant
            n == elites@.len(),
            n > 0,
            k <= count,
            sources@.len() == count,
            forall|j: int| 0 <= j < count ==> sources@[j] == j % (n as int),
            pool@.len() == k,
            forall|i: int, j: usize| 0 <= i < elites@.len() ==> variant.requires((&elites@[i], j)),
            k > 0 ==> cloned(elites@[0].brain, pool@[0]),
            forall|j: int| 1 <= j < k ==> variant.ensures((&elites@[j % (n as int)], j as usize), #[trigger] pool@[j]),
        decreases count - k,
    {
        if k == 0 {
            let c = elites[0].brain.clone();
            pool.push(c);
        } else {
            let b = variant(&elites[sources[k]], k);
            pool.push(b);
        }
        k = k + 1;
    }
    let ghost made = pool@;
    let top_genotype = elites[0].genotype;
    let top_brain = elites[0].brain.clone();
    install_founders(config, species, top_genotype, top_brain, pool);
    proof {
        assert(config.founder_pools@[species]@ == made);
    }
}

// ---------------------------------------------------------------------------
// The orchestrator
// ---------------------------------------------------------------------------

/// The generational orchestrator: runs `generations` cohorts of matches,
/// scoring each and re-seeding the next cohort from the top survivors of every
/// scored faction. The matches themselves are run by the driver; this holds
/// the carrier scenario and the state carried between generations.
pub struct Orchestrator<S, D, K, F> {
    base: SimConfig<S, D, K>,
    batch: BatchConfig,
    survivors: Vec<Vec<Individual<S, K>>>,
    best_ever: Vec<Option<(F, Individual<S, K>)>>,
    next_gen: usize,
}

/// Whether `b` is the carrier made from scenario `a`: every field kept, the
/// regime cleared, and no founder pool left over from a replay.
pub open spec fn carrier_of<S, D, K>(a: SimConfig<S, D, K>, b: SimConfig<S, D, K>) -> bool {
    &&& b.tick_hz == a.tick_hz
    &&& b.arena_half_extent == a.arena_half_extent
    &&& b.archetypes == a.archetypes
    &&& b.relations == a.relations
    &&& b.field_resolution == a.field_resolution
    &&& b.components == a.components
    &&& b.sources == a.sources
    &&& b.field_relations == a.field_relations
    &&& b.speed_bounds == a.speed_bounds
    &&& b.agility_bounds == a.agility_bounds
    &&& b.vision_range_bounds == a.vision_range_bounds
    &&& b.vision_fov_bounds == a.vision_fov_bounds
    &&& b.reproduction_threshold_bounds == a.reproduction_threshold_bounds
    &&& b.offspring_energy_bounds == a.offspring_energy_bounds
    &&& b.mutation_rate_bounds == a.mutation_rate_bounds
    &&& b.vision_rays_bounds == a.vision_rays_bounds
    &&& b.photosynthesis_bounds == a.photosynthesis_bounds
    &&& b.seed_dispersal_bounds == a.seed_dispersal_bounds
    &&& b.brain_cost_bounds == a.brain_cost_bounds
    &&& b.act_cost_bounds == a.act_cost_bounds
    &&& b.cost_law == a.cost_law
    &&& b.predation == a.predation
    &&& b.play_area_color == a.play_area_color
    &&& b.off_game_color == a.off_game_color
    &&& b.seed == a.seed
    &&& b.batch is None
    &&& b.founder_pools@ == Map::<u16, Vec<K>>::empty()
}

/// The seed of match `m` of generation `generation`: the regime's seed base
/// plus the number of matches run before it, wrapping.
pub open spec fn match_seed_of(seed_base: u64, generation: nat, matches_per_gen: nat, m: nat) -> u64 {
    ((seed_base + generation * matches_per_gen + m) % 0x1_0000_0000_0000_0000) as u64
}

impl<S, D, K, F> Orchestrator<S, D, K, F> {
    /// The carrier scenario.
    pub closed spec fn spec_base(&self) -> SimConfig<S, D, K> {
        self.base
    }

    /// The generational regime.
    pub closed spec fn spec_batch(&self) -> BatchConfig {
        self.batch
    }

    /// The current elites of each scored faction.
    pub closed spec fn spec_survivors(&self) -> Seq<Vec<Individual<S, K>>> {
        self.survivors@
    }

    /// The all-time best (score, genome) of each scored faction.
    pub closed spec fn spec_best_ever(&self) -> Seq<Option<(F, Individual<S, K>)>> {
        self.best_ever@
    }

    /// The next generation to run.
    pub closed spec fn spec_next_gen(&self) -> nat {
        self.next_gen as nat
    }

    /// One pool of elites and one all-time best per scored faction.
    pub open spec fn wf(&self) -> bool {
        &&& self.spec_survivors().len() == self.spec_batch().scored_species@.len()
        &&& self.spec_best_ever().len() == self.spec_batch().scored_species@.len()
    }

    /// An orchestrator for a carrier scenario, or `None` when it carries no
    /// generational regime (a continuous scenario: nothing to breed). The
    /// carrier keeps everything but the regime and any founder pool; every
    /// faction starts with no elites and no champion.
    pub fn new(config: SimConfig<S, D, K>) -> (r: Option<Orchestrator<S, D, K, F>>)
        ensures
            r is None <==> config.batch is None,
            r matches Some(o) ==> {
                &&& o.wf()
                &&& carrier_of(config, o.spec_base())
                &&& config.batch == Some(o.spec_batch())
                &&& o.spec_next_gen() == 0
                &&& forall|f: int| 0 <= f < o.spec_survivors().len() ==> (#[trigger] o.spec_survivors()[f])@.len() == 0
                &&& forall|f: int| 0 <= f < o.spec_best_ever().len() ==> (#[trigger] o.spec_best_ever()[f]) is None
            },
    {
        let mut base = config;
        let mut taken: Option<BatchConfig> = None;
        std::mem::swap(&mut taken, &mut base.batch);
        match taken {
            None => None,
            Some(batch) => {
                base.founder_pools.clear();
                let factions = batch.scored_species.len();
                let mut survivors: Vec<Vec<Individual<S, K>>> = Vec::new();
                let mut best_ever: Vec<Option<(F, Individual<S, K>)>> = Vec::new();
                let mut f: usize = 0;
                while f < factions
                    invariant
                        f <= factions,
                        survivors@.len() == f,
                        best_ever@.len() == f,
                        forall|g: int| 0 <= g < f ==> (#[trigger] survivors@[g])@.len() == 0,
                        forall|g: int| 0 <= g < f ==> (#[trigger] best_ever@[g]) is None,
                    decreases factions - f,
                {
                    survivors.push(Vec::new());
                    best_ever.push(None);
                    f = f + 1;
                }
                Some(Orchestrator { base, batch, survivors, best_ever, next_gen: 0 })
            },
        }
    }

    /// Whether there is one pool of elites and one all-time best per scored
    /// faction.
    pub fn is_consistent(&self) -> (b: bool)
        ensures
            b == self.wf(),
    {
        self.survivors.len() == self.batch.scored_species.len() && self.best_ever.len()
            == self.batch.scored_species.len()
    }

    /// Total generations the run executes.
    pub fn generations(&self) -> (n: usize)
        ensures
            n == self.spec_batch().generations,
    {
        self.batch.generations
    }

    /// The archetype indices under selection (the bred factions).
    pub fn scored_species(&self) -> (s: &[u16])
        ensures
            s@ == self.spec_batch().scored_species@,
    {
        self.batch.scored_species.as_slice()
    }

    /// The carrier scenario every match starts from.
    pub fn base(&self) -> (b: &SimConfig<S, D, K>)
        ensures
            *b == self.spec_base(),
    {
        &self.base
    }

    /// The regime's parameters.
    pub fn batch(&self) -> (b: &BatchConfig)
        ensures
            *b == self.spec_batch(),
    {
        &self.batch
    }

    /// The next generation to run (0 before the first).
    pub fn next_generation(&self) -> (g: usize)
        ensures
            g == self.spec_next_gen(),
    {
        self.next_gen
    }

    /// Whether every generation has run.
    pub fn is_done(&self) -> (b: bool)
        ensures
            b == (self.spec_next_gen() >= self.spec_batch().generations),
    {
        self.next_gen >= self.batch.generations
    }

    /// The current elites of the first scored faction (none before the first
    /// generation, nor after a generation with `survivors: 0`).
    pub fn survivors(&self) -> (s: &[Individual<S, K>])
        ensures
            self.spec_survivors().len() > 0 ==> s@ == self.spec_survivors()[0]@,
            self.spec_survivors().len() == 0 ==> s@.len() == 0,
    {
        if self.survivors.len() > 0 {
            self.survivors[0].as_slice()
        } else {
            &[]
        }
    }

    /// The current elites of scored faction `faction`.
    pub fn elites(&self, faction: usize) -> (s: &[Individual<S, K>])
        requires
            faction < self.spec_survivors().len(),
        ensures
            s@ == self.spec_survivors()[faction as int]@,
    {
        self.survivors[faction].as_slice()
    }

    /// The all-time best (score, genome) of scored faction `faction`, if any.
    pub fn champion(&self, faction: usize) -> (c: &Option<(F, Individual<S, K>)>)
        requires
            faction < self.spec_best_ever().len(),
        ensures
            *c == self.spec_best_ever()[faction as int],
    {
        &self.best_ever[faction]
    }

    /// The seed of match `m` of the current generation.
    pub fn match_seed(&self, m: usize) -> (seed: u64)
        requires
            self.spec_next_gen() * self.spec_batch().matches_per_gen <= u64::MAX,
        ensures
            seed == match_seed_of(
                self.spec_batch().seed_base,
                self.spec_next_gen(),
                self.spec_batch().matches_per_gen as nat,
                m as nat,
            ),
    {
        let before = self.next_gen as u64 * self.batch.matches_per_gen as u64;
        let s = self.batch.seed_base.wrapping_add(before).wrapping_add(m as u64);
        assert(s == match_seed_of(
            self.batch.seed_base,
            self.next_gen as nat,
            self.batch.matches_per_gen as nat,
            m as nat,
        )) by (nonlinear_arith)
            requires
                before == self.next_gen * self.batch.matches_per_gen,
                s == ((((self.batch.seed_base + before) % 0x1_0000_0000_0000_0000) + m as u64)
                    % 0x1_0000_0000_0000_0000),
        ;
        s
    }

    /// The elite match `m` re-seeds scored faction `faction` from — round-robin
    /// over its pool — or nothing when the pool is empty (generation 0, or no
    /// selection): the scenario's own founders then stay.
    pub fn elite_for_match(&self, faction: usize, m: usize) -> (e: Option<&Individual<S, K>>)
        requires
            faction < self.spec_survivors().len(),
        ensures
            self.spec_survivors()[faction as int]@.len() == 0 ==> e is None,
            self.spec_survivors()[faction as int]@.len() > 0 ==> e == Some(
                &self.spec_survivors()[faction as int]@[(m as int) % (self.spec_survivors()[faction as int]@.len() as int)],
            ),
    {
        let pool = &self.survivors[faction];
        if pool.len() == 0 {
            None
        } else {
            Some(&pool[m % pool.len()])
        }
    }

    /// Closes a generation: the new elites and all-time bests of every faction
    /// replace the old, and the generation index advances. Returns the index
    /// of the generation just closed.
    pub fn close_generation(
        &mut self,
        survivors: Vec<Vec<Individual<S, K>>>,
        best_ever: Vec<Option<(F, Individual<S, K>)>>,
    ) -> (g: usize)
        requires
            survivors@.len() == old(self).spec_batch().scored_species@.len(),
            best_ever@.len() == old(self).spec_batch().scored_species@.len(),
            old(self).spec_next_gen() < usize::MAX,
        ensures
            g == old(self).spec_next_gen(),
            final(self).spec_next_gen() == old(self).spec_next_gen() + 1,
            final(self).spec_survivors() == survivors@,
            final(self).spec_best_ever() == best_ever@,
            final(self).spec_base() == old(self).spec_base(),
            final(self).spec_batch() == old(self).spec_batch(),
            final(self).wf(),
    {
        self.survivors = survivors;
        self.best_ever = best_ever;
        let g = self.next_gen;
        self.next_gen = g + 1;
        g
    }
}

} // verus!
