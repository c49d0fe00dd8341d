//! The **Library** catalog model: the browsable collections of Worlds and
//! Species, and the **compose tray** — a chosen World plus a cast of Species
//! with counts — from which a runnable scenario is assembled.
//!
//! Composition is drop-only: species are added with their counts and no
//! relation wiring. The World stage type is a parameter `W`; turning the chosen
//! stage into a scenario is the stage's own business.

use vstd::prelude::*;
use crate::config::{Archetype, SpeciesEntry, copy_but_name};

verus! {

/// Which library a catalog entry belongs to.
#[derive(Clone, Copy, PartialEq, Eq, Debug, Structural)]
pub enum CatalogSource {
    /// Committed, curated; read-only.
    Examples,
    /// User-saved; editable.
    Saved,
}

impl Default for CatalogSource {
    fn default() -> (s: CatalogSource)
        ensures
            s == CatalogSource::Examples,
    {
        CatalogSource::Examples
    }
}

/// Which gallery the Library shows.
#[derive(Clone, Copy, PartialEq, Eq, Debug, Structural)]
pub enum LibraryTab {
    /// The Worlds gallery.
    Worlds,
    /// The Species gallery.
    Species,
}

impl Default for LibraryTab {
    fn default() -> (t: LibraryTab)
        ensures
            t == LibraryTab::Worlds,
    {
        LibraryTab::Worlds
    }
}

/// What `Path::file_stem` gives for a path: the final component without its
/// last extension, or nothing (`..`, an empty path, a root).
pub uninterp spec fn file_stem_of(path: Seq<char>) -> Option<Seq<char>>;

/// `Path::file_stem` of a path string (a `&str` path's stem is always valid
/// Unicode, so it comes back as a `String`). The contract claims only that the
/// result is the stem [`file_stem_of`] names for the path's text — that it
/// depends on the text alone, under the target's path syntax; which stem that
/// is, is left to std.
#[verifier::external_body]
fn path_file_stem(path: &str) -> (r: Option<String>)
    ensures
        match file_stem_of(path@) {
            Some(s) => r matches Some(t) && t@ == s,
            None => r is None,
        },
{
    std::path::Path::new(path).file_stem().and_then(|s| s.to_str()).map(|s| s.to_string())
}

/// The file stem of a path string, or the whole path when it has none
/// (`scenarios/examples/20_reef.ron` → `20_reef`).
pub open spec fn stem_of(path: Seq<char>) -> Seq<char> {
    match file_stem_of(path) {
        Some(s) => s,
        None => path,
    }
}

/// File stem of a path string (`scenarios/examples/20_reef.ron` → `20_reef`),
/// or the path itself when it has no stem.
pub fn stem(path: &str) -> (s: String)
    ensures
        s@ == stem_of(path@),
{
    match path_file_stem(path) {
        Some(s) => s,
        None => String::from_str(path),
    }
}

/// A browsable World in the catalog.
pub struct WorldEntry<W> {
    /// Display name.
    pub name: String,
    /// The abiotic stage.
    pub world: W,
    /// Which library it came from.
    pub source: CatalogSource,
    /// Path on disk for a saved world.
    pub path: Option<String>,
    /// For a derived world, how many example scenarios share this stage.
    pub derived_from: usize,
}

/// A browsable Species in the catalog.
pub struct SpeciesCatalogEntry<S, K> {
    /// Display name (the archetype's name).
    pub name: String,
    /// The library entry.
    pub entry: SpeciesEntry<S, K>,
    /// Which library it came from.
    pub source: CatalogSource,
    /// Path on disk.
    pub path: String,
}

/// A cast member being composed: a species and how many to spawn.
pub struct ComposeItem<S, K> {
    /// The species.
    pub entry: SpeciesEntry<S, K>,
    /// Spawn count.
    pub count: usize,
}

/// The Library's state: the catalogs, the browse filters, and the composition
/// in progress.
pub struct Library<W, S, K> {
    pub worlds: Vec<WorldEntry<W>>,
    pub species: Vec<SpeciesCatalogEntry<S, K>>,
    pub tab: LibraryTab,
    pub source: CatalogSource,
    pub search: String,
    /// Index into `worlds` of the chosen stage.
    pub chosen_world: Option<usize>,
    /// The cast being composed.
    pub cast: Vec<ComposeItem<S, K>>,
    /// Whether the catalogs were scanned.
    pub loaded: bool,
}

/// Whether `b` is the archetype of cast member `item`, spawned `item.count`
/// times: a copy of the member's archetype with its count.
pub open spec fn cast_archetype<S, K: Clone>(item: ComposeItem<S, K>, b: Archetype<S, K>) -> bool {
    &&& b.name == item.entry.archetype.name
    &&& copy_but_name(Archetype { count: item.count, ..item.entry.archetype }, b)
}

/// The cast member whose archetype is named `name`, if any: the first one.
pub open spec fn member_named<S, K>(cast: Seq<ComposeItem<S, K>>, name: Seq<char>, k: int) -> bool {
    &&& 0 <= k < cast.len()
    &&& cast[k].entry.archetype.name@ == name
    &&& forall|m: int| 0 <= m < k ==> cast[m].entry.archetype.name@ != name
}

impl<W, S: Copy, K: Clone> Library<W, S, K> {
    /// An empty library: no catalog, no chosen world, no cast.
    pub fn new() -> (l: Library<W, S, K>)
        ensures
            l.worlds@.len() == 0,
            l.species@.len() == 0,
            l.tab == LibraryTab::Worlds,
            l.source == CatalogSource::Examples,
            l.search@.len() == 0,
            l.chosen_world is None,
            l.cast@.len() == 0,
            !l.loaded,
    {
        Library {
            worlds: Vec::new(),
            species: Vec::new(),
            tab: LibraryTab::Worlds,
            source: CatalogSource::Examples,
            search: String::new(),
            chosen_world: None,
            cast: Vec::new(),
            loaded: false,
        }
    }

    /// The chosen World's stage and the cast's archetypes, each with its count —
    /// what a runnable scenario is assembled from. `None` when no World is chosen
    /// (or the choice is out of the catalog).
    pub fn compose(&self) -> (r: Option<(&W, Vec<Archetype<S, K>>)>)
        ensures
            match self.chosen_world {
                Some(c) if c < self.worlds.len() => r matches Some((w, cast)) && {
                    &&& *w == self.worlds@[c as int].world
                    &&& cast.len() == self.cast.len()
                    &&& forall|k: int|
                        0 <= k < cast.len() ==> cast_archetype(self.cast@[k], #[trigger] cast@[k])
                },
                _ => r is None,
            },
    {
        let c = match self.chosen_world {
            Some(c) => c,
            None => return None,
        };
        if c >= self.worlds.len() {
            return None;
        }
        let world = &self.worlds[c].world;
        let mut out: Vec<Archetype<S, K>> = Vec::new();
        let mut k: usize = 0;
        while k < self.cast.len()
            invariant
                k <= self.cast.len(),
                out.len() == k,
                forall|m: int| 0 <= m < k ==> cast_archetype(self.cast@[m], #[trigger] out@[m]),
            decreases self.cast.len() - k,
        {
            let item = &self.cast[k];
            let name = item.entry.archetype.name.clone();
            let mut arch = item.entry.archetype.renamed_copy(name);
            arch.count = item.count;
            out.push(arch);
            k = k + 1;
        }
        Some((world, out))
    }

    /// Adds a species to the compose cast with count 1 — or, if a member of the
    /// same name is already there, bumps that member's count instead of
    /// duplicating the row.
    pub fn add_to_cast(&mut self, entry: SpeciesEntry<S, K>)
        requires
            forall|k: int|
                0 <= k < old(self).cast.len() && (#[trigger] old(self).cast@[k]).entry.archetype.name@
                    == entry.archetype.name@ ==> old(self).cast@[k].count < usize::MAX,
        ensures
            ({
                let name = entry.archetype.name@;
                let before = old(self).cast@;
                let after = final(self).cast@;
                if exists|k: int| member_named(before, name, k) {
                    let k = choose|k: int| member_named(before, name, k);
                    after == before.update(
                        k,
                        ComposeItem { entry: before[k].entry, count: (before[k].count + 1) as usize },
                    )
                } else {
                    after == before.push(ComposeItem { entry, count: 1 })
                }
            }),
            final(self).worlds == old(self).worlds,
            final(self).species == old(self).species,
            final(self).chosen_world == old(self).chosen_world,
    {
        let ghost name = entry.archetype.name@;
        let ghost before = self.cast@;
        let mut k: usize = 0;
        while k < self.cast.len()
            invariant
                k <= self.cast.len(),
                self.cast@ == before,
                before == old(self).cast@,
                name == entry.archetype.name@,
                self.worlds == old(self).worlds,
                self.species == old(self).species,
                self.chosen_world == old(self).chosen_world,
                forall|m: int|
                    0 <= m < before.len() && (#[trigger] before[m]).entry.archetype.name@ == name
                        ==> before[m].count < usize::MAX,
                forall|m: int| 0 <= m < k ==> self.cast@[m].entry.archetype.name@ != name,
            decreases self.cast.len() - k,
        {
            if self.cast[k].entry.archetype.name == entry.archetype.name {
                assert(member_named(before, name, k as int));
                proof {
                    let j = choose|j: int| member_named(before, name, j);
                    assert(j == k) by {
                        if j < k {
                            assert(before[j].entry.archetype.name@ != name);
                        } else if j > k {
                            assert(before[k as int].entry.archetype.name@ != name);
                        }
                    }
                }
                let mut item = self.cast.remove(k);
                item.count = item.count + 1;
                self.cast.insert(k, item);
                assert(self.cast@ =~= before.update(
                    k as int,
                    ComposeItem { entry: before[k as int].entry, count: (before[k as int].count + 1) as usize },
                ));
                return;
            }
            k = k + 1;
        }
        assert(!exists|j: int| member_named(before, name, j));
        self.cast.push(ComposeItem { entry, count: 1 });
    }
}


impl<W, S: Copy, K: Clone> Default for Library<W, S, K> {
    /// An empty library (see [`Library::new`]).
    fn default() -> (l: Library<W, S, K>)
        ensures
            l.worlds@.len() == 0,
            l.species@.len() == 0,
            l.tab == LibraryTab::Worlds,
            l.source == CatalogSource::Examples,
            l.search@.len() == 0,
            l.chosen_world is None,
            l.cast@.len() == 0,
            !l.loaded,
    {
        Library::new()
    }
}

} // verus!
