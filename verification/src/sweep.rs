//! The parameter sweep's pure parts: the scenario knobs it can vary (addressed
//! as `kind:index`), how a value is written into a scenario, how a finished
//! world's living agents are tallied per species, and the per-species summary
//! line of the printout.
//!
//! Running the worlds and scoring them by Shannon diversity compute with
//! floating point and stay with the driver.

use vstd::prelude::*;
use crate::config::{Archetype, Relation, SimConfig};
use crate::genotype::Genotype;
use crate::text::{chars_of, parse_bounded, parse_unsigned, append_decimal, decimal};

verus! {

/// A scenario knob the parameter sweep can vary. The index is an archetype,
/// except for `Rate`, where it is a relation.
#[derive(Clone, Copy, PartialEq, Eq, Debug, Structural)]
pub enum Knob {
    /// The spawn count of an archetype.
    Count(usize),
    /// The founding mutation rate of an archetype.
    Mutation(usize),
    /// The founding photosynthesis of an archetype.
    Photosynthesis(usize),
    /// The rate of a relation.
    Rate(usize),
}

/// Whether `k` is the position of the first `:` of `s`.
pub open spec fn first_colon(s: Seq<char>, k: int) -> bool {
    0 <= k < s.len() && s[k] == ':' && forall|j: int| 0 <= j < k ==> s[j] != ':'
}

/// The knob a `kind:index` spec names: the text before the first `:` is one of
/// `count`, `mutation`, `photo`, `rate`, and the text after it reads as a
/// `usize` (as `str::parse` reads one).
pub open spec fn knob_of(s: Seq<char>) -> Option<Knob> {
    if exists|k: int| first_colon(s, k) {
        let k = choose|k: int| first_colon(s, k);
        let kind = s.take(k);
        match parse_unsigned(s.skip(k + 1), usize::MAX as nat) {
            None => None,
            Some(i) => if kind == "count"@ {
                Some(Knob::Count(i as usize))
            } else if kind == "mutation"@ {
                Some(Knob::Mutation(i as usize))
            } else if kind == "photo"@ {
                Some(Knob::Photosynthesis(i as usize))
            } else if kind == "rate"@ {
                Some(Knob::Rate(i as usize))
            } else {
                None
            },
        }
    } else {
        None
    }
}

/// The printed name of a knob: `count[sp<i>]`, `mutation[sp<i>]`,
/// `photo[sp<i>]`, `rate[rel<i>]`.
pub open spec fn knob_label(k: Knob) -> Seq<char> {
    match k {
        Knob::Count(i) => "count[sp"@ + decimal(i as nat) + "]"@,
        Knob::Mutation(i) => "mutation[sp"@ + decimal(i as nat) + "]"@,
        Knob::Photosynthesis(i) => "photo[sp"@ + decimal(i as nat) + "]"@,
        Knob::Rate(i) => "rate[rel"@ + decimal(i as nat) + "]"@,
    }
}

/// Whether the characters `v[start..]` spell `word` exactly.
fn spells(v: &Vec<char>, end: usize, word: &str) -> (b: bool)
    requires
        end <= v@.len(),
    ensures
        b == (v@.take(end as int) == word@),
{
    let w = chars_of(word);
    if w.len() != end {
        return false;
    }
    let mut i: usize = 0;
    while i < end
        invariant
            i <= end,
            end <= v@.len(),
            w@.len() == end,
            w@ == word@,
            forall|j: int| 0 <= j < i ==> v@[j] == w@[j],
        decreases end - i,
    {
        if v[i] != w[i] {
            assert(v@.take(end as int)[i as int] != word@[i as int]);
            return false;
        }
        i = i + 1;
    }
    assert(v@.take(end as int) =~= word@);
    true
}

impl Knob {
    /// Parses a `kind:index` spec (`count:1`, `photo:2`, `rate:0`).
    pub fn parse(spec: &str) -> (r: Option<Knob>)
        ensures
            r == knob_of(spec@),
    {
        let s = chars_of(spec);
        let mut k: usize = 0;
        while k < s.len() && s[k] != ':'
            invariant
                k <= s@.len(),
                s@ == spec@,
                forall|j: int| 0 <= j < k ==> s@[j] != ':',
            decreases s.len() - k,
        {
            k = k + 1;
        }
        if k == s.len() {
            assert(!exists|j: int| first_colon(s@, j));
            return None;
        }
        proof {
            assert(first_colon(s@, k as int));
            let c = choose|j: int| first_colon(s@, j);
            assert(c == k) by {
                if c < k {
                    assert(s@[c] != ':');
                } else if c > k {
                    assert(s@[k as int] != ':');
                }
            }
        }
        let mut rest: Vec<char> = Vec::new();
        let mut m: usize = k + 1;
        while m < s.len()
            invariant
                k < m <= s@.len() || (m == k + 1 && k < s@.len()),
                k < s@.len(),
                rest@ == s@.subrange(k + 1, m as int),
            decreases s.len() - m,
        {
            rest.push(s[m]);
            m = m + 1;
        }
        assert(rest@ =~= s@.skip(k + 1));
        let idx = match parse_bounded(&rest, usize::MAX as u64) {
            Some(v) => v as usize,
            None => {
                return None;
            },
        };
        if spells(&s, k, "count") {
            Some(Knob::Count(idx))
        } else if spells(&s, k, "mutation") {
            Some(Knob::Mutation(idx))
        } else if spells(&s, k, "photo") {
            Some(Knob::Photosynthesis(idx))
        } else if spells(&s, k, "rate") {
            Some(Knob::Rate(idx))
        } else {
            None
        }
    }

    /// The knob's printed name (`count[sp1]`, `rate[rel0]`, …).
    pub fn label(&self) -> (s: String)
        ensures
            s@ == knob_label(*self),
    {
        let (head, i) = match *self {
            Knob::Count(i) => ("count[sp", i),
            Knob::Mutation(i) => ("mutation[sp", i),
            Knob::Photosynthesis(i) => ("photo[sp", i),
            Knob::Rate(i) => ("rate[rel", i),
        };
        let mut s = String::from_str(head);
        append_decimal(&mut s, i as u64);
        s.append("]");
        s
    }
}

/// The archetype `a` with its spawn count set to `count`.
pub open spec fn with_count<S, K>(a: Archetype<S, K>, count: usize) -> Archetype<S, K> {
    Archetype { count, ..a }
}

/// The archetype `a` with its founding genotype set to `g`.
pub open spec fn with_genotype<S, K>(a: Archetype<S, K>, g: Genotype<S>) -> Archetype<S, K> {
    Archetype { genotype: g, ..a }
}

/// The genotype `g` with its mutation rate set to `v`.
pub open spec fn with_mutation_rate<S>(g: Genotype<S>, v: S) -> Genotype<S> {
    Genotype { mutation_rate: v, ..g }
}

/// The genotype `g` with its photosynthesis set to `v`.
pub open spec fn with_photosynthesis<S>(g: Genotype<S>, v: S) -> Genotype<S> {
    Genotype { photosynthesis: v, ..g }
}

/// The relation `r` with its rate set to `v`.
pub open spec fn with_rate<S>(r: Relation<S>, v: S) -> Relation<S> {
    Relation { rate: v, ..r }
}

impl Knob {
    /// Writes a swept value into the addressed field: `count` for a `Count`
    /// knob (the value already clamped at zero and rounded), `scalar` for the
    /// others. An out-of-range index leaves the scenario unchanged.
    pub fn apply<S: Copy, D, K>(&self, config: &mut SimConfig<S, D, K>, count: usize, scalar: S)
        ensures
            final(config).relations@.len() == old(config).relations@.len(),
            final(config).archetypes@.len() == old(config).archetypes@.len(),
            match *self {
                Knob::Count(i) => final(config).relations@ == old(config).relations@ && if i < old(
                    config,
                ).archetypes@.len() {
                    final(config).archetypes@ == old(config).archetypes@.update(
                        i as int,
                        with_count(old(config).archetypes@[i as int], count),
                    )
                } else {
                    final(config).archetypes@ == old(config).archetypes@
                },
                Knob::Mutation(i) => final(config).relations@ == old(config).relations@ && if i < old(
                    config,
                ).archetypes@.len() {
                    final(config).archetypes@ == old(config).archetypes@.update(
                        i as int,
                        with_genotype(
                            old(config).archetypes@[i as int],
                            with_mutation_rate(old(config).archetypes@[i as int].genotype, scalar),
                        ),
                    )
                } else {
                    final(config).archetypes@ == old(config).archetypes@
                },
                Knob::Photosynthesis(i) => final(config).relations@ == old(config).relations@ && if i
                    < old(config).archetypes@.len() {
                    final(config).archetypes@ == old(config).archetypes@.update(
                        i as int,
                        with_genotype(
                            old(config).archetypes@[i as int],
                            with_photosynthesis(old(config).archetypes@[i as int].genotype, scalar),
                        ),
                    )
                } else {
                    final(config).archetypes@ == old(config).archetypes@
                },
                Knob::Rate(i) => final(config).archetypes@ == old(config).archetypes@ && if i < old(
                    config,
                ).relations@.len() {
                    final(config).relations@ == old(config).relations@.update(
                        i as int,
                        with_rate(old(config).relations@[i as int], scalar),
                    )
                } else {
                    final(config).relations@ == old(config).relations@
                },
            },
    {
        match *self {
            Knob::Count(i) => {
                if i < config.archetypes.len() {
                    let mut a = config.archetypes.remove(i);
                    a.count = count;
                    config.archetypes.insert(i, a);
                }
            },
            Knob::Mutation(i) => {
                if i < config.archetypes.len() {
                    let mut a = config.archetypes.remove(i);
                    a.genotype.mutation_rate = scalar;
                    config.archetypes.insert(i, a);
                }
            },
            Knob::Photosynthesis(i) => {
                if i < config.archetypes.len() {
                    let mut a = config.archetypes.remove(i);
                    a.genotype.photosynthesis = scalar;
                    config.archetypes.insert(i, a);
                }
            },
            Knob::Rate(i) => {
                if i < config.relations.len() {
                    let mut r = config.relations.remove(i);
                    r.rate = scalar;
                    config.relations.insert(i, r);
                }
            },
        }
    }
}


/// How many entries of `s` equal `c`.
pub open spec fn occurrences(s: Seq<u16>, c: int) -> nat
    decreases s.len(),
{
    if s.len() == 0 {
        0
    } else {
        occurrences(s.drop_last(), c) + if s.last() == c {
            1nat
        } else {
            0
        }
    }
}

proof fn lemma_occurrences_bound(s: Seq<u16>, c: int)
    ensures
        occurrences(s, c) <= s.len(),
    decreases s.len(),
{
    if s.len() > 0 {
        lemma_occurrences_bound(s.drop_last(), c);
    }
}

/// Final per-species living counts: for each species index below
/// `n_species`, how many of the living agents (given by their species) belong
/// to it; agents of a species beyond the list are not counted.
pub fn tally(species: &Vec<u16>, n_species: usize) -> (counts: Vec<u32>)
    requires
        species@.len() <= u32::MAX,
    ensures
        counts@.len() == n_species,
        forall|c: int| 0 <= c < n_species ==> counts@[c] == occurrences(species@, c),
{
    let mut counts: Vec<u32> = Vec::new();
    let mut c: usize = 0;
    while c < n_species
        invariant
            c <= n_species,
            counts@.len() == c,
            forall|j: int| 0 <= j < c ==> counts@[j] == 0,
        decreases n_species - c,
    {
        counts.push(0);
        c = c + 1;
    }
    let mut k: usize = 0;
    while k < species.len()
        invariant
            k <= species@.len(),
            species@.len() <= u32::MAX,
            counts@.len() == n_species,
            forall|j: int| 0 <= j < n_species ==> counts@[j] == occurrences(species@.take(k as int), j),
        decreases species.len() - k,
    {
        let s = species[k] as usize;
        assert(species@.take(k + 1).drop_last() =~= species@.take(k as int));
        if s < counts.len() {
            proof {
                lemma_occurrences_bound(species@.take(k as int), s as int);
            }
            let v = counts[s];
            counts.set(s, v + 1);
        }
        k = k + 1;
    }
    assert(species@.take(k as int) =~= species@);
    counts
}

/// The summary entry of species `i`: `<name>=<count>`, `?` standing for a
/// species without a name.
pub open spec fn summary_entry(counts: Seq<u32>, names: Seq<String>, i: int) -> Seq<char> {
    (if i < names.len() {
        names[i]@
    } else {
        "?"@
    }) + "="@ + decimal(counts[i] as nat)
}

/// The summary of the first `n` species: the entries of those still alive,
/// separated by two spaces.
pub open spec fn summary(counts: Seq<u32>, names: Seq<String>, n: nat) -> Seq<char>
    decreases n,
{
    if n == 0 {
        Seq::empty()
    } else {
        let prev = summary(counts, names, (n - 1) as nat);
        let i = n - 1;
        if counts[i] > 0 {
            if prev.len() == 0 {
                summary_entry(counts, names, i)
            } else {
                prev + "  "@ + summary_entry(counts, names, i)
            }
        } else {
            prev
        }
    }
}

/// `"A=1  B=2"`: the living species of `counts`, each with its name (or `?`)
/// and its count.
pub fn per_species(counts: &Vec<u32>, names: &Vec<String>) -> (s: String)
    ensures
        s@ == summary(counts@, names@, counts@.len()),
{
    let mut s = String::new();
    let mut i: usize = 0;
    while i < counts.len()
        invariant
            i <= counts@.len(),
            s@ == summary(counts@, names@, i as nat),
        decreases counts.len() - i,
    {
        if counts[i] > 0 {
            let empty = s.unicode_len() == 0;
            if !empty {
                s.append("  ");
            }
            if i < names.len() {
                s.append(names[i].as_str());
            } else {
                s.append("?");
            }
            s.append("=");
            append_decimal(&mut s, counts[i] as u64);
        }
        i = i + 1;
    }
    s
}

/// Per-species labels for the printout: the archetypes' names, in order.
pub fn species_names<S, D, K>(config: &SimConfig<S, D, K>) -> (v: Vec<String>)
    ensures
        v@.len() == config.archetypes@.len(),
        forall|i: int| 0 <= i < v@.len() ==> v@[i]@ == config.archetypes@[i].name@,
{
    let mut v: Vec<String> = Vec::new();
    let mut i: usize = 0;
    while i < config.archetypes.len()
        invariant
            i <= config.archetypes@.len(),
            v@.len() == i,
            forall|j: int| 0 <= j < i ==> v@[j]@ == config.archetypes@[j].name@,
        decreases config.archetypes.len() - i,
    {
        v.push(String::from_str(config.archetypes[i].name.as_str()));
        i = i + 1;
    }
    v
}

} // verus!
