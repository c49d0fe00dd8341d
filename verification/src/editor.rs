//! The scenario editor's structural operations on the archetype list, and the
//! species library's naming rules.
//!
//! An archetype's index *is* its species identity, and the relation table
//! refers to species by index: deleting or reordering archetypes must remap
//! that table, or its entries would point to the wrong species. The laws at
//! the end of this module state exactly that.

use vstd::prelude::*;
use crate::config::{Archetype, Relation, SimConfig, copy_name, copy_but_name};
use crate::text::{
    chars_of, string_of, concat_str, push_char, char_is_alphanumeric, is_alnum, decimal,
    parse_bounded, parse_unsigned, append_decimal, chars_eq,
};
use crate::library::{stem, stem_of};

verus! {

// ---------------------------------------------------------------------------
// Index remapping
// ---------------------------------------------------------------------------

/// The species index an archetype position is stored as (`i as u16`).
pub open spec fn as_species(i: int) -> u16 {
    (i % 0x10000) as u16
}

/// A relation endpoint after the archetype `removed` has been deleted: higher
/// indices slide down by one.
pub open spec fn shift_down(x: u16, removed: u16) -> u16 {
    if x > removed {
        (x - 1) as u16
    } else {
        x
    }
}

/// Whether relation `r` survives the deletion of archetype `removed` (it
/// refers to it neither as actor nor as target).
pub open spec fn survives<S>(r: Relation<S>, removed: u16) -> bool {
    r.actor != removed && r.target != removed
}

/// Relation `r` with its endpoints slid down past `removed`.
pub open spec fn shifted<S>(r: Relation<S>, removed: u16) -> Relation<S> {
    Relation {
        actor: shift_down(r.actor, removed),
        target: shift_down(r.target, removed),
        transfer: r.transfer,
        rate: r.rate,
        range: r.range,
    }
}

/// The relation table after the deletion of archetype `removed`.
pub open spec fn after_removal<S>(rels: Seq<Relation<S>>, removed: u16) -> Seq<Relation<S>> {
    rels.filter(|r: Relation<S>| survives(r, removed)).map_values(
        |r: Relation<S>| shifted(r, removed),
    )
}

/// A relation endpoint after archetypes `i` and `j` have traded places.
pub open spec fn transpose(x: u16, i: u16, j: u16) -> u16 {
    if x == i {
        j
    } else if x == j {
        i
    } else {
        x
    }
}

/// Relation `r` with its endpoints transposed.
pub open spec fn transposed<S>(r: Relation<S>, i: u16, j: u16) -> Relation<S> {
    Relation {
        actor: transpose(r.actor, i, j),
        target: transpose(r.target, i, j),
        transfer: r.transfer,
        rate: r.rate,
        range: r.range,
    }
}

/// The relation table after archetypes `i` and `j` have traded places.
pub open spec fn after_swap<S>(rels: Seq<Relation<S>>, i: u16, j: u16) -> Seq<Relation<S>> {
    rels.map_values(|r: Relation<S>| transposed(r, i, j))
}

/// `s` with the elements at `i` and `j` exchanged.
pub open spec fn swapped<A>(s: Seq<A>, i: int, j: int) -> Seq<A> {
    s.update(i, s[j]).update(j, s[i])
}

/// Whether every field of `b` but the archetypes and the relations is the one of
/// `a`.
pub open spec fn same_world<S, D, K>(a: SimConfig<S, D, K>, b: SimConfig<S, D, K>) -> bool {
    &&& b.tick_hz == a.tick_hz
    &&& b.arena_half_extent == a.arena_half_extent
    &&& b.field_resolution == a.field_resolution
    &&& b.components == a.components
    &&& b.sources == a.sources
    &&& b.field_relations == a.field_relations
    &&& b.speed_bounds == a.speed_bounds
    &&& b.agility_bounds == a.agility_bounds
    &&& b.vision_range_bounds == a.vision_range_bounds
    &&& b.vision_fov_bounds == a.vision_fov_bounds
    &&& b.reproduction_threshold_bounds == a.reproduction_threshold_bounds
    &&& b.offspring_energy_bounds == a.offspring_energy_bounds
    &&& b.mutation_rate_bounds == a.mutation_rate_bounds
    &&& b.vision_rays_bounds == a.vision_rays_bounds
    &&& b.photosynthesis_bounds == a.photosynthesis_bounds
    &&& b.seed_dispersal_bounds == a.seed_dispersal_bounds
    &&& b.brain_cost_bounds == a.brain_cost_bounds
    &&& b.act_cost_bounds == a.act_cost_bounds
    &&& b.cost_law == a.cost_law
    &&& b.predation == a.predation
    &&& b.play_area_color == a.play_area_color
    &&& b.off_game_color == a.off_game_color
    &&& b.seed == a.seed
    &&& b.batch == a.batch
    &&& b.founder_pools == a.founder_pools
}

/// Removes archetype `i` and remaps the relation table: relations that refer to
/// it (as actor or target) are dropped, and every higher index slides down by
/// one.
pub fn remove_archetype<S, D, K>(config: &mut SimConfig<S, D, K>, i: usize)
    requires
        i < old(config).archetypes.len(),
    ensures
        final(config).archetypes@ == old(config).archetypes@.remove(i as int),
        final(config).relations@ == after_removal(old(config).relations@, as_species(i as int)),
        same_world(*old(config), *final(config)),
{
    config.archetypes.remove(i);
    let removed = (i % 0x10000) as u16;
    let mut rest: Vec<Relation<S>> = Vec::new();
    std::mem::swap(&mut rest, &mut config.relations);
    let ghost keep = |r: Relation<S>| survives(r, removed);
    let ghost shift = |r: Relation<S>| shifted(r, removed);
    let ghost all = rest@;
    let total = rest.len();
    assert(all.len() == total);
    let mut out: Vec<Relation<S>> = Vec::new();
    let mut k: usize = 0;
    while rest.len() > 0
        invariant
            all.len() == k + rest@.len(),
            all.len() <= usize::MAX,
            rest@ == all.subrange(k as int, all.len() as int),
            keep == (|r: Relation<S>| survives(r, removed)),
            shift == (|r: Relation<S>| shifted(r, removed)),
            out@ == all.subrange(0, k as int).filter(keep).map_values(shift),
        decreases rest.len(),
    {
        let ghost pre = all.subrange(0, k as int);
        let ghost next = all.subrange(0, k + 1);
        assert(next.drop_last() =~= pre);
        assert(next.last() == rest@[0]);
        reveal_with_fuel(Seq::filter, 1);
        let r = rest.remove(0);
        let ghost old_out = out@;
        if r.actor != removed && r.target != removed {
            let actor = if r.actor > removed {
                r.actor - 1
            } else {
                r.actor
            };
            let target = if r.target > removed {
                r.target - 1
            } else {
                r.target
            };
            let moved = Relation { actor, target, transfer: r.transfer, rate: r.rate, range: r.range };
            assert(moved == shifted(r, removed));
            out.push(moved);
            assert(next.filter(keep) == pre.filter(keep).push(r));
            assert(out@ =~= next.filter(keep).map_values(shift));
        } else {
            assert(next.filter(keep) == pre.filter(keep));
        }
        k = k + 1;
        assert(rest@ =~= all.subrange(k as int, all.len() as int));
    }
    assert(all.subrange(0, k as int) =~= all);
    config.relations = out;
}

/// Swaps archetypes `i` and `j` and transposes their indices in the relation
/// table — the counterpart, for reordering, of [`remove_archetype`]'s remap.
pub fn swap_archetypes<S: Copy, D, K>(config: &mut SimConfig<S, D, K>, i: usize, j: usize)
    requires
        i < old(config).archetypes.len(),
        j < old(config).archetypes.len(),
    ensures
        final(config).archetypes@ == swapped(old(config).archetypes@, i as int, j as int),
        final(config).relations@ == after_swap(
            old(config).relations@,
            as_species(i as int),
            as_species(j as int),
        ),
        same_world(*old(config), *final(config)),
{
    swap_items(&mut config.archetypes, i, j);
    let a = (i % 0x10000) as u16;
    let b = (j % 0x10000) as u16;
    let ghost all = config.relations@;
    let mut k: usize = 0;
    while k < config.relations.len()
        invariant
            k <= config.relations.len(),
            config.relations@.len() == all.len(),
            all == old(config).relations@,
            config.archetypes@ == swapped(old(config).archetypes@, i as int, j as int),
            same_world(*old(config), *config),
            forall|m: int| 0 <= m < k ==> config.relations@[m] == transposed(all[m], a, b),
            forall|m: int| k <= m < all.len() ==> config.relations@[m] == all[m],
        decreases config.relations.len() - k,
    {
        let actor = transpose_index(config.relations[k].actor, a, b);
        let target = transpose_index(config.relations[k].target, a, b);
        let moved = Relation {
            actor,
            target,
            transfer: config.relations[k].transfer,
            rate: config.relations[k].rate,
            range: config.relations[k].range,
        };
        config.relations.set(k, moved);
        k = k + 1;
    }
    assert(config.relations@ =~= after_swap(all, a, b));
}

fn transpose_index(x: u16, i: u16, j: u16) -> (y: u16)
    ensures
        y == transpose(x, i, j),
{
    if x == i {
        j
    } else if x == j {
        i
    } else {
        x
    }
}

/// Exchanges the elements at `i` and `j`.
fn swap_items<A>(v: &mut Vec<A>, i: usize, j: usize)
    requires
        i < old(v).len(),
        j < old(v).len(),
    ensures
        final(v)@ == swapped(old(v)@, i as int, j as int),
{
    let ghost s = v@;
    if i == j {
        assert(swapped(s, i as int, j as int) =~= s);
        return;
    }
    let (lo, hi) = if i < j {
        (i, j)
    } else {
        (j, i)
    };
    let x_hi = v.remove(hi);
    let x_lo = v.remove(lo);
    v.insert(lo, x_hi);
    v.insert(hi, x_lo);
    assert(v@ =~= swapped(s, i as int, j as int));
}

/// Duplicates archetype `i`: an independent copy named `"<name> (copy)"` is
/// appended at the end of the list, so no existing index moves and the relation
/// table is untouched (the copy carries no relation). Returns the copy's index,
/// or `None` (and changes nothing) when `i` is out of the list.
pub fn duplicate_archetype<S: Copy, D, K: Clone>(config: &mut SimConfig<S, D, K>, i: usize) -> (r:
    Option<usize>)
    ensures
        i >= old(config).archetypes.len() ==> r is None && final(config).archetypes@ == old(
            config,
        ).archetypes@,
        i < old(config).archetypes.len() ==> {
            &&& r == Some(old(config).archetypes.len())
            &&& final(config).archetypes.len() == old(config).archetypes.len() + 1
            &&& final(config).archetypes@.subrange(0, old(config).archetypes.len() as int)
                == old(config).archetypes@
            &&& final(config).archetypes@.last().name@ == copy_name(old(config).archetypes@[i as int].name@)
            &&& copy_but_name(old(config).archetypes@[i as int], final(config).archetypes@.last())
        },
        final(config).relations@ == old(config).relations@,
        same_world(*old(config), *final(config)),
{
    if i >= config.archetypes.len() {
        return None;
    }
    let name = concat_str(config.archetypes[i].name.as_str(), " (copy)");
    let copy = config.archetypes[i].renamed_copy(name);
    let n = config.archetypes.len();
    let ghost before = config.archetypes@;
    config.archetypes.push(copy);
    assert(config.archetypes@.subrange(0, n as int) =~= before);
    Some(n)
}

// ---------------------------------------------------------------------------
// Laws of the remapping
// ---------------------------------------------------------------------------

/// Deleting an archetype keeps every surviving relation pointing at the same
/// species: a relation between archetypes `a` and `b`, neither of them the
/// deleted one, refers afterwards to the positions where `a` and `b` now stand.
pub proof fn lemma_removal_keeps_identity<A>(archetypes: Seq<A>, i: int, x: int)
    requires
        0 <= i < archetypes.len() <= 0x10000,
        0 <= x < archetypes.len(),
        x != i,
    ensures
        ({
            let y = shift_down(x as u16, i as u16) as int;
            &&& 0 <= y < archetypes.len() - 1
            &&& archetypes.remove(i)[y] == archetypes[x]
        }),
{
}

/// After a deletion, a table whose relations all referred to existing
/// archetypes still does: every endpoint is below the new archetype count.
pub proof fn lemma_removal_keeps_table_valid<S>(rels: Seq<Relation<S>>, n: int, i: int)
    requires
        0 <= i < n <= 0x10000,
        forall|k: int| 0 <= k < rels.len() ==> rels[k].actor < n && rels[k].target < n,
    ensures
        forall|k: int|
            0 <= k < after_removal(rels, i as u16).len() ==> (#[trigger] after_removal(
                rels,
                i as u16,
            )[k]).actor < n - 1 && after_removal(rels, i as u16)[k].target < n - 1,
{
    let removed = i as u16;
    let keep = |r: Relation<S>| survives(r, removed);
    let kept = rels.filter(keep);
    assert forall|k: int| 0 <= k < kept.len() implies kept[k].actor < n && kept[k].target < n
        && survives(kept[k], removed) by {
        rels.filter_lemma(keep);
        assert(kept.contains(kept[k]));
        rels.lemma_filter_contains_rev(keep, kept[k]);
    }
}

/// Deleting archetype `removed` drops exactly the relations that refer to it
/// and keeps every other one, whatever its kind (transfer or combat), rate or
/// range: the kept relations are those with neither endpoint `removed`, in
/// their order, each with its fields unchanged but for its endpoints sliding
/// down past `removed`.
pub proof fn lemma_removal_keeps_other_relations<S>(rels: Seq<Relation<S>>, removed: u16)
    ensures
        ({
            let kept = rels.filter(|r: Relation<S>| r.actor != removed && r.target != removed);
            let out = after_removal(rels, removed);
            &&& out.len() == kept.len()
            &&& forall|k: int|
                0 <= k < out.len() ==> {
                    let r = kept[k];
                    &&& (#[trigger] out[k]).transfer == r.transfer
                    &&& out[k].rate == r.rate
                    &&& out[k].range == r.range
                    &&& out[k].actor == (if r.actor > removed { (r.actor - 1) as u16 } else { r.actor })
                    &&& out[k].target == (if r.target > removed { (r.target - 1) as u16 } else { r.target })
                }
            &&& forall|k: int|
                0 <= k < rels.len() && rels[k].actor != removed && rels[k].target != removed
                    ==> kept.contains(#[trigger] rels[k])
            &&& forall|k: int| 0 <= k < kept.len() ==> rels.contains(#[trigger] kept[k])
        }),
{
    let direct = |r: Relation<S>| r.actor != removed && r.target != removed;
    let keep = |r: Relation<S>| survives(r, removed);
    assert(keep =~= direct);
    let kept = rels.filter(direct);
    assert forall|k: int|
        0 <= k < rels.len() && rels[k].actor != removed && rels[k].target != removed implies kept.contains(
        #[trigger] rels[k],
    ) by {
        rels.lemma_filter_contains(direct, k);
    }
    assert forall|k: int| 0 <= k < kept.len() implies rels.contains(#[trigger] kept[k]) by {
        assert(kept.contains(kept[k]));
        rels.lemma_filter_contains_rev(direct, kept[k]);
    }
}

/// Swapping two archetypes keeps every relation pointing at the same species.
pub proof fn lemma_swap_keeps_identity<A>(archetypes: Seq<A>, i: int, j: int, x: int)
    requires
        0 <= i < archetypes.len() <= 0x10000,
        0 <= j < archetypes.len(),
        0 <= x < archetypes.len(),
    ensures
        ({
            let y = transpose(x as u16, i as u16, j as u16) as int;
            swapped(archetypes, i, j)[y] == archetypes[x]
        }),
{
}

/// Swapping the same two archetypes twice restores the list and the relation
/// table.
pub proof fn lemma_swap_twice_restores<A, S>(archetypes: Seq<A>, rels: Seq<Relation<S>>, i: int, j: int)
    requires
        0 <= i < archetypes.len(),
        0 <= j < archetypes.len(),
    ensures
        swapped(swapped(archetypes, i, j), i, j) == archetypes,
        after_swap(after_swap(rels, as_species(i), as_species(j)), as_species(i), as_species(j))
            == rels,
{
    assert(swapped(swapped(archetypes, i, j), i, j) =~= archetypes);
    assert(after_swap(after_swap(rels, as_species(i), as_species(j)), as_species(i), as_species(j))
        =~= rels);
}

// ---------------------------------------------------------------------------
// Library naming
// ---------------------------------------------------------------------------

/// A character kept as is in a file name: alphanumeric, `-` or `_`.
pub open spec fn file_safe(c: char) -> bool {
    is_alnum(c) || c == '-' || c == '_'
}

/// A species name turned into a safe file name: every unsafe character becomes
/// `_`; an empty name becomes `species`.
pub open spec fn sanitized(name: Seq<char>) -> Seq<char> {
    if name.len() == 0 {
        "species"@
    } else {
        Seq::new(name.len(), |k: int| if file_safe(name[k]) { name[k] } else { '_' })
    }
}

/// A sanitized file name has the name's length and keeps a character exactly
/// when it is alphanumeric, `-` or `_`; every other character (a `.`, a space,
/// a slash...) is replaced by `_`. Only an empty name is renamed whole.
pub proof fn lemma_sanitized_keeps_only_safe_characters(name: Seq<char>)
    ensures
        name.len() == 0 ==> sanitized(name) == "species"@,
        name.len() > 0 ==> sanitized(name).len() == name.len(),
        name.len() > 0 ==> forall|k: int|
            0 <= k < name.len() ==> {
                &&& (#[trigger] sanitized(name)[k] == name[k] <==> (is_alnum(name[k]) || name[k] == '-'
                    || name[k] == '_'))
                &&& sanitized(name)[k] != name[k] ==> sanitized(name)[k] == '_'
            },
{
}

/// Cleans a species name into a safe file name: letters, digits, `-` and `_`
/// are kept, everything else becomes `_`; an empty name falls back to
/// `species`.
pub fn sanitize_filename(name: &str) -> (s: String)
    ensures
        s@ == sanitized(name@),
{
    let cs = chars_of(name);
    if cs.len() == 0 {
        return String::from_str("species");
    }
    let mut out: Vec<char> = Vec::new();
    let mut k: usize = 0;
    while k < cs.len()
        invariant
            k <= cs.len(),
            out@.len() == k,
            forall|m: int| 0 <= m < k ==> out@[m] == (if file_safe(cs@[m]) {
                cs@[m]
            } else {
                '_'
            }),
        decreases cs.len() - k,
    {
        let c = cs[k];
        let keep = char_is_alphanumeric(c) || c == '-' || c == '_';
        out.push(if keep {
            c
        } else {
            '_'
        });
        k = k + 1;
    }
    assert(out@ =~= sanitized(name@));
    string_of(&out)
}


/// The committed, curated species library.
pub const EXAMPLES_LIB: &'static str = "species/examples";

/// The local species library: the only one the editor writes to.
pub const SAVED_LIB: &'static str = "species/saved";

/// File a species is exported to: `species/saved/<sanitized name>.ron`.
pub open spec fn export_path_of(name: Seq<char>) -> Seq<char> {
    "species/saved/"@ + sanitized(name) + ".ron"@
}

/// File an evolved variant is saved to, named after its base so variants group
/// with it: `species/saved/<sanitized base>--<id>.ron`.
pub open spec fn variant_path_of(base: Seq<char>, id: Seq<char>) -> Seq<char> {
    "species/saved/"@ + sanitized(base) + "--"@ + id + ".ron"@
}

/// A variant id: `<scenario>-<n>`.
pub open spec fn variant_id_of(scenario: Seq<char>, n: nat) -> Seq<char> {
    scenario + "-"@ + decimal(n)
}

/// Path a species is exported to: `species/saved/<sanitized name>.ron`.
pub fn export_path(name: &str) -> (p: String)
    ensures
        p@ == export_path_of(name@),
{
    let mut p = String::from_str("species/saved/");
    let n = sanitize_filename(name);
    p.append(n.as_str());
    p.append(".ron");
    proof {
        reveal_strlit("species/saved/");
        reveal_strlit(".ron");
    }
    p
}

/// Path an evolved variant of `base` with id `id` is saved to.
pub fn variant_path(base: &str, id: &str) -> (p: String)
    ensures
        p@ == variant_path_of(base@, id@),
{
    let mut p = String::from_str("species/saved/");
    let n = sanitize_filename(base);
    p.append(n.as_str());
    p.append("--");
    p.append(id);
    p.append(".ron");
    p
}

/// The id of the `n`-th variant saved from `scenario`: `<scenario>-<n>`.
pub fn variant_id(scenario: &str, n: u32) -> (id: String)
    ensures
        id@ == variant_id_of(scenario@, n as nat),
{
    let mut id = String::from_str(scenario);
    id.append("-");
    append_decimal(&mut id, n as u64);
    id
}

/// Display name of a RON path: its file stem (`species/hunter.ron` →
/// `hunter`), or the path itself when it has none.
pub fn display_name(path: &str) -> (s: String)
    ensures
        s@ == stem_of(path@),
{
    stem(path)
}

/// One reusable form in the catalog, a base or an evolved variant, with its
/// file, its library, the loaded archetype and the scenarios that import it.
pub struct CatalogForm<S, K> {
    /// File path, e.g. `species/saved/hunter--predator_prey-1.ron`.
    pub path: String,
    /// Library display name (`examples` or `saved`).
    pub library: &'static str,
    /// The loaded archetype.
    pub archetype: Archetype<S, K>,
    /// Variant id `<scenario>-<n>`; `None` for the base form.
    pub variant_id: Option<String>,
    /// Scenario files importing this form.
    pub usage: Vec<String>,
}

/// A catalog species: the base form and its evolved variants, grouped by name
/// across libraries.
pub struct CatalogSpecies<S, K> {
    /// Species name, shared by the base and its variants.
    pub name: String,
    /// The base form, if any library has one.
    pub base: Option<CatalogForm<S, K>>,
    /// Evolved variants of this species.
    pub variants: Vec<CatalogForm<S, K>>,
}

impl<S, K> CatalogSpecies<S, K> {
    /// A species with no form yet.
    pub fn new(name: String) -> (c: CatalogSpecies<S, K>)
        ensures
            c.name@ == name@,
            c.base is None,
            c.variants@.len() == 0,
    {
        CatalogSpecies { name, base: None, variants: Vec::new() }
    }

    /// All selectable forms: the base (if any) first, then the variants.
    pub fn forms(&self) -> (v: Vec<&CatalogForm<S, K>>)
        ensures
            v@.len() == (if self.base is Some { 1int } else { 0 }) + self.variants@.len(),
            self.base matches Some(b) ==> v@[0] == b,
            forall|k: int|
                0 <= k < self.variants@.len() ==> v@[k + (if self.base is Some {
                    1int
                } else {
                    0
                })] == self.variants@[k],
    {
        let mut v: Vec<&CatalogForm<S, K>> = Vec::new();
        let off: usize = match &self.base {
            Some(b) => {
                v.push(b);
                1
            },
            None => 0,
        };
        let mut k: usize = 0;
        while k < self.variants.len()
            invariant
                k <= self.variants@.len(),
                off == (if self.base is Some { 1int } else { 0 }),
                v@.len() == off + k,
                self.base matches Some(b) ==> v@[0] == b,
                forall|m: int| 0 <= m < k ==> v@[m + off] == self.variants@[m],
            decreases self.variants.len() - k,
        {
            v.push(&self.variants[k]);
            k = k + 1;
        }
        v
    }
}

/// Dropdown label of a catalog form: `Base`, or `<name> (<id>)` for a variant.
pub open spec fn form_label_of<S, K>(form: CatalogForm<S, K>) -> Seq<char> {
    match form.variant_id {
        None => "Base"@,
        Some(id) => form.archetype.name@ + " ("@ + id@ + ")"@,
    }
}

/// Dropdown label of a catalog form: `Base`, or `<name> (<id>)` for a variant.
pub fn form_label<S, K>(form: &CatalogForm<S, K>) -> (s: String)
    ensures
        s@ == form_label_of(*form),
{
    match &form.variant_id {
        None => String::from_str("Base"),
        Some(id) => {
            let mut s = String::from_str(form.archetype.name.as_str());
            s.append(" (");
            s.append(id.as_str());
            s.append(")");
            s
        },
    }
}

/// The number a variant id carries for `scenario`: what follows the prefix
/// `<scenario>-`, read as a `u32`; nothing when the prefix is absent or the
/// rest is no `u32`.
pub open spec fn variant_number_of(id: Seq<char>, scenario: Seq<char>) -> Option<nat> {
    let prefix = scenario.push('-');
    if prefix.len() <= id.len() && id.subrange(0, prefix.len() as int) == prefix {
        parse_unsigned(id.skip(prefix.len() as int), u32::MAX as nat)
    } else {
        None
    }
}

/// Whether some variant of `species` in `catalog` carries the number `n` for
/// `scenario`.
pub open spec fn numbered<S, K>(
    catalog: Seq<CatalogSpecies<S, K>>,
    species: Seq<char>,
    scenario: Seq<char>,
    n: nat,
) -> bool {
    exists|i: int, j: int|
        0 <= i < catalog.len() && catalog[i].name@ == species && 0 <= j < catalog[i].variants@.len()
            && #[trigger] carries(catalog[i].variants@[j], scenario, n)
}

/// Whether `form` is a variant whose id carries the number `n` for `scenario`.
pub open spec fn carries<S, K>(form: CatalogForm<S, K>, scenario: Seq<char>, n: nat) -> bool {
    match form.variant_id {
        Some(id) => variant_number_of(id@, scenario) == Some(n),
        None => false,
    }
}

/// Whether the running maximum `best` is at least `m`.
spec fn covers(best: Option<u32>, m: nat) -> bool {
    match best {
        Some(b) => m <= b,
        None => false,
    }
}

/// The number a variant id carries for the scenario whose prefix
/// `<scenario>-` is `prefix`.
fn id_number(id: &String, prefix: &Vec<char>, Ghost(scenario): Ghost<Seq<char>>) -> (r: Option<u32>)
    requires
        prefix@ == scenario.push('-'),
    ensures
        match variant_number_of(id@, scenario) {
            Some(n) => r == Some(n as u32),
            None => r is None,
        },
{
    let cs = chars_of(id.as_str());
    assert(cs@ == id@);
    let plen = prefix.len();
    if cs.len() < plen {
        return None;
    }
    let mut k: usize = 0;
    while k < plen
        invariant
            k <= plen,
            plen == prefix@.len(),
            plen <= cs@.len(),
            cs@ == id@,
            prefix@ == scenario.push('-'),
            forall|m: int| 0 <= m < k ==> cs@[m] == prefix@[m],
        decreases plen - k,
    {
        if cs[k] != prefix[k] {
            assert(cs@.subrange(0, plen as int)[k as int] != prefix@[k as int]);
            assert(cs@.subrange(0, plen as int) != prefix@);
            return None;
        }
        k = k + 1;
    }
    assert(cs@.subrange(0, plen as int) =~= prefix@);
    let mut rest: Vec<char> = Vec::new();
    let mut m: usize = plen;
    while m < cs.len()
        invariant
            plen <= m <= cs@.len(),
            plen == prefix@.len(),
            rest@ == cs@.subrange(plen as int, m as int),
        decreases cs.len() - m,
    {
        rest.push(cs[m]);
        m = m + 1;
    }
    assert(rest@ =~= cs@.skip(plen as int));
    match parse_bounded(&rest, 4294967295) {
        Some(v) => Some(v as u32),
        None => None,
    }
}

/// Next variant number for `species` from `scenario`: one more than the
/// largest number an existing variant id `<scenario>-<n>` of that species
/// carries, or 1 when there is none, so ids do not collide after a deletion.
pub fn next_variant_number<S, K>(catalog: &Vec<CatalogSpecies<S, K>>, species: &str, scenario: &str) -> (n: u32)
    requires
        !numbered(catalog@, species@, scenario@, u32::MAX as nat),
    ensures
        n >= 1,
        forall|m: nat| numbered(catalog@, species@, scenario@, m) ==> m < n,
        n == 1 || numbered(catalog@, species@, scenario@, (n - 1) as nat),
{
    let name = chars_of(species);
    let mut prefix = chars_of(scenario);
    prefix.push('-');
    let ghost sc = scenario@;
    let ghost sp = species@;
    let mut best: Option<u32> = None;
    let mut i: usize = 0;
    while i < catalog.len()
        invariant
            i <= catalog@.len(),
            name@ == sp,
            sp == species@,
            sc == scenario@,
            prefix@ == sc.push('-'),
            !numbered(catalog@, sp, sc, u32::MAX as nat),
            forall|a: int, j: int, m: nat|
                0 <= a < i && catalog@[a].name@ == sp && 0 <= j < catalog@[a].variants@.len()
                    && #[trigger] carries(catalog@[a].variants@[j], sc, m) ==> covers(best, m),
            best matches Some(b) ==> numbered(catalog@, sp, sc, b as nat),
        decreases catalog.len() - i,
    {
        let entry = &catalog[i];
        let en = chars_of(entry.name.as_str());
        if chars_eq(&en, &name) {
            let mut j: usize = 0;
            while j < entry.variants.len()
                invariant
                    i < catalog@.len(),
                    *entry == catalog@[i as int],
                    entry.name@ == sp,
                    j <= entry.variants@.len(),
                    name@ == sp,
                    prefix@ == sc.push('-'),
                    !numbered(catalog@, sp, sc, u32::MAX as nat),
                    forall|a: int, jj: int, m: nat|
                        0 <= a < i && catalog@[a].name@ == sp && 0 <= jj < catalog@[a].variants@.len()
                            && #[trigger] carries(catalog@[a].variants@[jj], sc, m) ==> covers(best, m),
                    forall|jj: int, m: nat|
                        0 <= jj < j && #[trigger] carries(entry.variants@[jj], sc, m) ==> covers(best, m),
                    best matches Some(b) ==> numbered(catalog@, sp, sc, b as nat),
                decreases entry.variants.len() - j,
            {
                let form = &entry.variants[j];
                match &form.variant_id {
                    Some(id) => {
                        match id_number(id, &prefix, Ghost(sc)) {
                            Some(v) => {
                                proof {
                                    assert(catalog@[i as int].variants@[j as int] == *form);
                                    assert(carries(catalog@[i as int].variants@[j as int], sc, v as nat));
                                    assert(numbered(catalog@, sp, sc, v as nat));
                                }
                                let larger = match best {
                                    Some(b) => v > b,
                                    None => true,
                                };
                                if larger {
                                    best = Some(v);
                                }
                            },
                            None => {},
                        }
                    },
                    None => {},
                }
                j = j + 1;
            }
            assert forall|a: int, jj: int, m: nat|
                0 <= a < i + 1 && catalog@[a].name@ == sp && 0 <= jj < catalog@[a].variants@.len()
                    && #[trigger] carries(catalog@[a].variants@[jj], sc, m) implies covers(best, m) by {
                if a == i {
                    assert(entry.variants@[jj] == catalog@[a].variants@[jj]);
                }
            }
        } else {
            assert forall|a: int, jj: int, m: nat|
                0 <= a < i + 1 && catalog@[a].name@ == sp && 0 <= jj < catalog@[a].variants@.len()
                    && #[trigger] carries(catalog@[a].variants@[jj], sc, m) implies covers(best, m) by {
                if a == i {
                    assert(en@ != name@);
                }
            }
        }
        i = i + 1;
    }
    match best {
        Some(b) => {
            assert(b != u32::MAX);
            b + 1
        },
        None => 1,
    }
}

/// Whether the catalog already holds a base form for the species `name`.
pub fn has_base<S, K>(catalog: &Vec<CatalogSpecies<S, K>>, name: &str) -> (b: bool)
    ensures
        b == exists|i: int|
            0 <= i < catalog@.len() && (#[trigger] catalog@[i]).name@ == name@ && catalog@[i].base is Some,
{
    let target = chars_of(name);
    let mut i: usize = 0;
    while i < catalog.len()
        invariant
            i <= catalog@.len(),
            target@ == name@,
            forall|a: int| 0 <= a < i ==> !((#[trigger] catalog@[a]).name@ == name@ && catalog@[a].base is Some),
        decreases catalog.len() - i,
    {
        let cn = chars_of(catalog[i].name.as_str());
        if chars_eq(&cn, &target) && catalog[i].base.is_some() {
            return true;
        }
        i = i + 1;
    }
    false
}

} // verus!
