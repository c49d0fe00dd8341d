//! The brain: which decider an agent carries, and the shape of the learned
//! one.
//!
//! The scalars the brains compute with are a type parameter `S` (the engine
//! instantiates it with its single-precision float); this module holds what
//! does not depend on their arithmetic — the family of a brain, its labels,
//! and the topology of the multilayer perceptron, including how its input layer
//! is re-homed when a child sees with a different number of rays.

use vstd::prelude::*;
use vstd::arithmetic::mul::lemma_mul_inequality;
use vstd::arithmetic::mul::lemma_mul_is_distributive_add_other_way;

verus! {

/// The brain families in their stable order.
#[derive(Clone, Copy, PartialEq, Eq, Debug, Structural)]
pub enum BrainFamily {
    Wander,
    Hunter,
    Grazer,
    Sessile,
    Mlp,
}

/// Number of distinct brain families.
pub const FAMILY_COUNT: usize = 5;

/// The label of the family at index `i` of the stable order.
pub open spec fn family_label(i: int) -> Seq<char> {
    if i == 0 {
        seq!['W', 'a', 'n', 'd', 'e', 'r']
    } else if i == 1 {
        seq!['H', 'u', 'n', 't', 'e', 'r']
    } else if i == 2 {
        seq!['G', 'r', 'a', 'z', 'e', 'r']
    } else if i == 3 {
        seq!['S', 'e', 's', 's', 'i', 'l', 'e']
    } else {
        seq!['M', 'L', 'P']
    }
}

impl BrainFamily {
    /// The family's position in the stable order.
    pub open spec fn spec_index(self) -> int {
        match self {
            BrainFamily::Wander => 0,
            BrainFamily::Hunter => 1,
            BrainFamily::Grazer => 2,
            BrainFamily::Sessile => 3,
            BrainFamily::Mlp => 4,
        }
    }

    /// The family's position in the stable order.
    pub fn index(self) -> (i: usize)
        ensures
            i == self.spec_index(),
            i < FAMILY_COUNT,
    {
        match self {
            BrainFamily::Wander => 0,
            BrainFamily::Hunter => 1,
            BrainFamily::Grazer => 2,
            BrainFamily::Sessile => 3,
            BrainFamily::Mlp => 4,
        }
    }

    /// The family's short label.
    pub fn label(self) -> (s: String)
        ensures
            s@ == family_label(self.spec_index()),
    {
        let lit = match self {
            BrainFamily::Wander => "Wander",
            BrainFamily::Hunter => "Hunter",
            BrainFamily::Grazer => "Grazer",
            BrainFamily::Sessile => "Sessile",
            BrainFamily::Mlp => "MLP",
        };
        proof {
            reveal_strlit("Wander");
            reveal_strlit("Hunter");
            reveal_strlit("Grazer");
            reveal_strlit("Sessile");
            reveal_strlit("MLP");
        }
        String::from_str(lit)
    }
}

/// The family labels in stable order (`Wander`, `Hunter`, `Grazer`, `Sessile`,
/// `MLP`) — the list a UI iterates to offer a per-family filter.
pub fn families() -> (v: Vec<String>)
    ensures
        v.len() == FAMILY_COUNT,
        forall|i: int| 0 <= i < FAMILY_COUNT ==> (#[trigger] v[i])@ == family_label(i),
{
    let mut v: Vec<String> = Vec::new();
    v.push(BrainFamily::Wander.label());
    v.push(BrainFamily::Hunter.label());
    v.push(BrainFamily::Grazer.label());
    v.push(BrainFamily::Sessile.label());
    v.push(BrainFamily::Mlp.label());
    v
}

/// The **type** of brain a species is founded with, with the parameters of each
/// variant — the scenario's choice of decider. It compiles into a fresh
/// [`Brain`] at spawn, like a genotype into a phenotype.
pub enum BrainKind<S> {
    /// Random heading drift; `turn_rate` is the drift's amplitude per tick.
    Wander { turn_rate: S },
    /// Deterministic reflex toward the nearest target, fleeing close threats.
    Hunter,
    /// Forages like the hunter but eats only while its energy fraction is at or
    /// below `hunger_threshold`.
    Grazer { hunger_threshold: S },
    /// Immobile flora.
    Sessile,
    /// Evolved multilayer perceptron with the given hidden-layer widths.
    Mlp { hidden: Vec<usize> },
}

/// The short label of a brain kind, as the editor selector shows it.
pub open spec fn kind_label<S>(k: BrainKind<S>) -> Seq<char> {
    match k {
        BrainKind::Wander { .. } => "Wander"@,
        BrainKind::Hunter => "Hunter"@,
        BrainKind::Grazer { .. } => "Grazer"@,
        BrainKind::Sessile => "Sessile"@,
        BrainKind::Mlp { .. } => "Network (MLP)"@,
    }
}

/// The functional description of a brain kind — how it decides.
pub open spec fn kind_description<S>(k: BrainKind<S>) -> Seq<char> {
    match k {
        BrainKind::Wander { .. } => WANDER_TEXT@,
        BrainKind::Hunter => HUNTER_TEXT@,
        BrainKind::Grazer { .. } => GRAZER_TEXT@,
        BrainKind::Sessile => SESSILE_TEXT@,
        BrainKind::Mlp { .. } => MLP_TEXT@,
    }
}

/// What the wandering brain does.
pub const WANDER_TEXT: &'static str = "Random heading drift every tick: ignores perception, forages at random. The naive control group.";

/// What the hunting brain does.
pub const HUNTER_TEXT: &'static str = "Steering field: attracted toward the nearest visible target, AND repelled by any threat (a species that can attack it) — relation table. Skirts walls and conspecifics without fleeing them; with no memory, out of range it explores. The competent control group.";

/// What the grazing brain does.
pub const GRAZER_TEXT: &'static str = "Forages exactly like the hunter, but eats DELIBERATELY: it holds its eat/attack intent only while hungry (energy below its threshold), so a prudent grazer leaves food uneaten once sated. The deterministic control for behavioural restraint — a lever of ecosystem persistence under spatial viscosity.";

/// What the sessile brain does.
pub const SESSILE_TEXT: &'static str = "Does not decide, does not move: the brain of flora. Lives on photosynthesis (a gene) and reproduces by local seeding — the rest of the ecology (growth, dispersal, competition) emerges from the genes and the relation table.";

/// What the learned network does.
pub const MLP_TEXT: &'static str = "Evolved multilayer perceptron: decides by reading its vision/target/threat channels, and LEARNS through neuroevolution (Gaussian mutation of the weights at reproduction) — including to flee. Editable hidden layers; input and output fixed by the contract.";

impl<S> BrainKind<S> {
    /// Whether this is the immobile flora brain.
    pub open spec fn spec_is_sessile(&self) -> bool {
        self is Sessile
    }

    /// Short label of the type, for the editor selector.
    pub fn name(&self) -> (s: &'static str)
        ensures
            s@ == kind_label(*self),
    {
        match self {
            BrainKind::Wander { .. } => "Wander",
            BrainKind::Hunter => "Hunter",
            BrainKind::Grazer { .. } => "Grazer",
            BrainKind::Sessile => "Sessile",
            BrainKind::Mlp { .. } => "Network (MLP)",
        }
    }

    /// Functional description of the brain — how it decides, not just its name.
    pub fn description(&self) -> (s: &'static str)
        ensures
            s@ == kind_description(*self),
    {
        match self {
            BrainKind::Wander { .. } => WANDER_TEXT,
            BrainKind::Hunter => HUNTER_TEXT,
            BrainKind::Grazer { .. } => GRAZER_TEXT,
            BrainKind::Sessile => SESSILE_TEXT,
            BrainKind::Mlp { .. } => MLP_TEXT,
        }
    }

    /// The family this kind compiles into.
    pub fn family(&self) -> (f: BrainFamily)
        ensures
            f == kind_family(*self),
    {
        match self {
            BrainKind::Wander { .. } => BrainFamily::Wander,
            BrainKind::Hunter => BrainFamily::Hunter,
            BrainKind::Grazer { .. } => BrainFamily::Grazer,
            BrainKind::Sessile => BrainFamily::Sessile,
            BrainKind::Mlp { .. } => BrainFamily::Mlp,
        }
    }
}

/// The family a brain kind compiles into.
pub open spec fn kind_family<S>(k: BrainKind<S>) -> BrainFamily {
    match k {
        BrainKind::Wander { .. } => BrainFamily::Wander,
        BrainKind::Hunter => BrainFamily::Hunter,
        BrainKind::Grazer { .. } => BrainFamily::Grazer,
        BrainKind::Sessile => BrainFamily::Sessile,
        BrainKind::Mlp { .. } => BrainFamily::Mlp,
    }
}

/// Whether two kinds are the same variant with the same parameters.
pub open spec fn same_kind<S>(a: BrainKind<S>, b: BrainKind<S>) -> bool {
    match (a, b) {
        (BrainKind::Wander { turn_rate: x }, BrainKind::Wander { turn_rate: y }) => x == y,
        (BrainKind::Hunter, BrainKind::Hunter) => true,
        (
            BrainKind::Grazer { hunger_threshold: x },
            BrainKind::Grazer { hunger_threshold: y },
        ) => x == y,
        (BrainKind::Sessile, BrainKind::Sessile) => true,
        (BrainKind::Mlp { hidden: x }, BrainKind::Mlp { hidden: y }) => x@ == y@,
        _ => false,
    }
}

impl<S: Copy> BrainKind<S> {
    /// An identical copy of the kind.
    pub fn duplicate(&self) -> (k: BrainKind<S>)
        ensures
            same_kind(k, *self),
    {
        match self {
            BrainKind::Wander { turn_rate } => BrainKind::Wander { turn_rate: *turn_rate },
            BrainKind::Hunter => BrainKind::Hunter,
            BrainKind::Grazer { hunger_threshold } => BrainKind::Grazer {
                hunger_threshold: *hunger_threshold,
            },
            BrainKind::Sessile => BrainKind::Sessile,
            BrainKind::Mlp { hidden } => {
                let h = hidden.clone();
                assert(h@ =~= hidden@);
                BrainKind::Mlp { hidden: h }
            },
        }
    }
}

// ---------------------------------------------------------------------------
// The multilayer perceptron's topology
// ---------------------------------------------------------------------------

/// Number of output neurons: the body-frame steering vector and the eat/attack
/// intent.
pub const OUTPUTS: usize = 3;

/// Number of per-ray perception channels: vision, target, threat.
pub const CHANNELS: usize = 3;

/// Number of scalar proprioceptive channels: energy, nutrient, speed.
pub const SELF_CHANNELS: usize = 3;

/// Abbreviated names of the per-ray input channels, in input order: vision,
/// target, threat.
pub fn channel_labels() -> (l: [&'static str; CHANNELS])
    ensures
        l[0]@ == "vis"@,
        l[1]@ == "tgt"@,
        l[2]@ == "thr"@,
{
    ["vis", "tgt", "thr"]
}

/// Abbreviated names of the proprioceptive input channels, in input order:
/// energy reserve, nutrient store, speed.
pub fn self_labels() -> (l: [&'static str; SELF_CHANNELS])
    ensures
        l[0]@ == "nrg"@,
        l[1]@ == "nut"@,
        l[2]@ == "spd"@,
{
    ["nrg", "nut", "spd"]
}

/// Names of the output neurons, in order: the body-frame steering vector
/// (forward, side), then the eat/attack intent.
pub fn output_labels() -> (l: [&'static str; OUTPUTS])
    ensures
        l[0]@ == "fwd"@,
        l[1]@ == "side"@,
        l[2]@ == "act"@,
{
    ["fwd", "side", "act"]
}

/// A dense layer: `outputs × inputs` weights, row-major (`weights[o*inputs + i]`),
/// and one bias per output neuron.
pub struct Layer<S> {
    inputs: usize,
    weights: Vec<S>,
    biases: Vec<S>,
}

impl<S> Layer<S> {
    /// The layer's fan-in.
    pub closed spec fn spec_inputs(&self) -> nat {
        self.inputs as nat
    }

    /// The layer's weights, row-major.
    pub closed spec fn spec_weights(&self) -> Seq<S> {
        self.weights@
    }

    /// The layer's biases, one per output neuron.
    pub closed spec fn spec_biases(&self) -> Seq<S> {
        self.biases@
    }

    /// Whether the weight matrix has exactly `outputs × inputs` entries.
    pub open spec fn wf(&self) -> bool {
        self.spec_weights().len() == self.spec_inputs() * self.spec_biases().len()
    }

    /// A layer of fan-in `inputs` from its row-major weights and its biases.
    pub fn new(inputs: usize, weights: Vec<S>, biases: Vec<S>) -> (l: Layer<S>)
        requires
            weights.len() == inputs * biases.len(),
        ensures
            l.spec_inputs() == inputs,
            l.spec_weights() == weights@,
            l.spec_biases() == biases@,
            l.wf(),
    {
        Layer { inputs, weights, biases }
    }

    /// The layer's fan-in.
    pub fn inputs(&self) -> (n: usize)
        ensures
            n == self.spec_inputs(),
    {
        self.inputs
    }

    /// Number of output neurons (one per bias).
    pub fn outputs(&self) -> (n: usize)
        ensures
            n == self.spec_biases().len(),
    {
        self.biases.len()
    }

    /// The weights, row-major.
    pub fn weights(&self) -> (w: &[S])
        ensures
            w@ == self.spec_weights(),
    {
        self.weights.as_slice()
    }

    /// The biases.
    pub fn biases(&self) -> (b: &[S])
        ensures
            b@ == self.spec_biases(),
    {
        self.biases.as_slice()
    }
}

/// A homemade multilayer perceptron, input to output. Only its topology and
/// the placement of its weights are handled here; the forward pass and the
/// mutation compute with the scalars.
pub struct MlpBrain<S> {
    layers: Vec<Layer<S>>,
}

/// Size of the input layer for `rays` vision rays and `n_sensed` sensed
/// components: the per-ray blocks, then the proprioceptive channels, then the
/// field-sense channels.
pub open spec fn spec_input_size(rays: nat, n_sensed: nat) -> nat {
    (CHANNELS * rays + SELF_CHANNELS + n_sensed) as nat
}

/// Sum of the output counts of `layers`.
pub open spec fn total_outputs<S>(layers: Seq<Layer<S>>) -> nat
    decreases layers.len(),
{
    if layers.len() == 0 {
        0
    } else {
        total_outputs(layers.drop_last()) + layers.last().spec_biases().len()
    }
}

/// The graph's column sizes: the first layer's fan-in, then every layer's
/// output count.
pub open spec fn column_sizes<S>(layers: Seq<Layer<S>>) -> Seq<nat> {
    if layers.len() == 0 {
        Seq::empty()
    } else {
        seq![layers[0].spec_inputs()] + layers.map_values(|l: Layer<S>| l.spec_biases().len())
    }
}

impl<S> MlpBrain<S> {
    /// The layers, input to output.
    pub closed spec fn spec_layers(&self) -> Seq<Layer<S>> {
        self.layers@
    }

    /// A network from its layers, input to output.
    pub fn from_layers(layers: Vec<Layer<S>>) -> (m: MlpBrain<S>)
        ensures
            m.spec_layers() == layers@,
    {
        MlpBrain { layers }
    }

    /// Size of the input layer: `CHANNELS × vision_rays + SELF_CHANNELS + n_sensed`.
    pub fn input_size(vision_rays: usize, n_sensed: usize) -> (n: usize)
        requires
            spec_input_size(vision_rays as nat, n_sensed as nat) <= usize::MAX,
        ensures
            n == spec_input_size(vision_rays as nat, n_sensed as nat),
    {
        CHANNELS * vision_rays + SELF_CHANNELS + n_sensed
    }

    /// The column sizes of a fresh network: the input, the hidden layers, then
    /// the `OUTPUTS` output neurons (`[n_inputs] ++ hidden ++ [OUTPUTS]`);
    /// each pair of neighbouring sizes is one layer's fan-in and output count.
    pub fn dims(n_inputs: usize, hidden: &Vec<usize>) -> (d: Vec<usize>)
        ensures
            d@ == seq![n_inputs] + hidden@ + seq![OUTPUTS],
    {
        let mut d: Vec<usize> = Vec::new();
        d.push(n_inputs);
        let mut k: usize = 0;
        while k < hidden.len()
            invariant
                k <= hidden@.len(),
                d@ == seq![n_inputs] + hidden@.subrange(0, k as int),
            decreases hidden.len() - k,
        {
            d.push(hidden[k]);
            assert(hidden@.subrange(0, k + 1) =~= hidden@.subrange(0, k as int).push(hidden@[k as int]));
            k = k + 1;
        }
        d.push(OUTPUTS);
        assert(hidden@.subrange(0, k as int) =~= hidden@);
        assert(d@ =~= seq![n_inputs] + hidden@ + seq![OUTPUTS]);
        d
    }

    /// Layer sizes for drawing the graph, input included: `[n_inputs, h0, …,
    /// OUTPUTS]`.
    pub fn layer_sizes(&self) -> (v: Vec<usize>)
        ensures
            v@.map_values(|n: usize| n as nat) == column_sizes(self.spec_layers()),
    {
        let mut v: Vec<usize> = Vec::new();
        if self.layers.len() == 0 {
            assert(v@.map_values(|n: usize| n as nat) =~= column_sizes(self.spec_layers()));
            return v;
        }
        v.push(self.layers[0].inputs);
        let mut k: usize = 0;
        while k < self.layers.len()
            invariant
                k <= self.layers.len(),
                self.layers.len() > 0,
                v@.len() == k + 1,
                v@[0] == self.layers@[0].spec_inputs(),
                forall|m: int| 0 <= m < k ==> v@[m + 1] == (#[trigger] self.layers@[m]).spec_biases().len(),
            decreases self.layers.len() - k,
        {
            v.push(self.layers[k].outputs());
            k = k + 1;
        }
        assert(v@.map_values(|n: usize| n as nat) =~= column_sizes(self.spec_layers()));
        v
    }

    /// Number of decision neurons: hidden + output units (the input layer is the
    /// sensory afferent vector, not a decision).
    pub fn neuron_count(&self) -> (n: usize)
        requires
            total_outputs(self.spec_layers()) <= usize::MAX,
        ensures
            n == total_outputs(self.spec_layers()),
    {
        let mut n: usize = 0;
        let mut k: usize = 0;
        while k < self.layers.len()
            invariant
                k <= self.layers.len(),
                n == total_outputs(self.layers@.subrange(0, k as int)),
                total_outputs(self.layers@) <= usize::MAX,
            decreases self.layers.len() - k,
        {
            let ghost next = self.layers@.subrange(0, k + 1);
            assert(next.drop_last() =~= self.layers@.subrange(0, k as int));
            proof {
                lemma_total_outputs_prefix(self.layers@, k + 1);
            }
            n = n + self.layers[k].outputs();
            k = k + 1;
        }
        assert(self.layers@.subrange(0, k as int) =~= self.layers@);
        n
    }

    /// Number of weight layers (the edge inter-columns of the graph).
    pub fn weight_layers(&self) -> (n: usize)
        ensures
            n == self.spec_layers().len(),
    {
        self.layers.len()
    }

    /// Weights of layer `l` (`outputs × inputs`, row-major) with its fan-in and
    /// its output count.
    pub fn layer_weights(&self, l: usize) -> (r: (&[S], usize, usize))
        requires
            l < self.spec_layers().len(),
        ensures
            r.0@ == self.spec_layers()[l as int].spec_weights(),
            r.1 == self.spec_layers()[l as int].spec_inputs(),
            r.2 == self.spec_layers()[l as int].spec_biases().len(),
    {
        let layer = &self.layers[l];
        (layer.weights.as_slice(), layer.inputs, layer.biases.len())
    }

    /// Biases of layer `l`, one per output neuron.
    pub fn layer_biases(&self, l: usize) -> (b: &[S])
        requires
            l < self.spec_layers().len(),
        ensures
            b@ == self.spec_layers()[l as int].spec_biases(),
    {
        self.layers[l].biases.as_slice()
    }
}

proof fn lemma_total_outputs_prefix<S>(layers: Seq<Layer<S>>, k: int)
    requires
        0 <= k <= layers.len(),
    ensures
        total_outputs(layers.subrange(0, k)) <= total_outputs(layers),
    decreases layers.len(),
{
    if k < layers.len() {
        lemma_total_outputs_prefix(layers.drop_last(), k);
        assert(layers.drop_last().subrange(0, k) =~= layers.subrange(0, k));
    } else {
        assert(layers.subrange(0, k) =~= layers);
    }
}


// ---------------------------------------------------------------------------
// Re-homing the input layer when the number of vision rays changes
// ---------------------------------------------------------------------------

/// Number of rays per block recovered from a fan-in: the per-ray part of the
/// input vector, once the ray-count-independent `tail` is stripped, split into
/// its `CHANNELS` blocks.
pub open spec fn rays_of(fan_in: int, tail: int) -> int {
    (fan_in - tail) / (CHANNELS as int)
}

/// How many rays each per-ray block gains (zero when it shrinks or stays).
pub open spec fn grown_rays(old_rays: int, new_rays: int) -> int {
    if new_rays > old_rays {
        new_rays - old_rays
    } else {
        0
    }
}

/// One per-ray block of a re-homed row, `new_rays` wide: position `r` keeps the
/// parent's weight `old[start + r]` while the parent had that ray, and otherwise
/// takes the next fresh weight, `fresh[fstart + (r - old_rays)]`.
pub open spec fn kept_block<S>(
    old: Seq<S>,
    start: int,
    fresh: Seq<S>,
    fstart: int,
    old_rays: int,
    new_rays: int,
) -> Seq<S> {
    Seq::new(
        new_rays as nat,
        |r: int|
            if r < old_rays {
                old[start + r]
            } else {
                fresh[fstart + (r - old_rays)]
            },
    )
}

/// The re-homed row built from the parent row that starts at `base` in `old`:
/// the vision, target and threat blocks, each truncated or padded (fresh
/// weights taken in order from `fbase`), then the scalar tail copied unchanged.
pub open spec fn resized_row<S>(
    old: Seq<S>,
    base: int,
    fresh: Seq<S>,
    fbase: int,
    old_rays: int,
    new_rays: int,
    tail: int,
) -> Seq<S> {
    let g = grown_rays(old_rays, new_rays);
    kept_block(old, base, fresh, fbase, old_rays, new_rays) + kept_block(
        old,
        base + old_rays,
        fresh,
        fbase + g,
        old_rays,
        new_rays,
    ) + kept_block(old, base + 2 * old_rays, fresh, fbase + 2 * g, old_rays, new_rays)
        + old.subrange(base + CHANNELS * old_rays, base + CHANNELS * old_rays + tail)
}

/// The first `n` re-homed rows, back to back: row `o` reads the parent's row
/// `o` (fan-in `old_in`) and the `o`-th run of `CHANNELS × grown_rays` fresh
/// weights.
pub open spec fn resized_rows<S>(
    old: Seq<S>,
    old_in: int,
    fresh: Seq<S>,
    old_rays: int,
    new_rays: int,
    tail: int,
    n: nat,
) -> Seq<S>
    decreases n,
{
    if n == 0 {
        Seq::empty()
    } else {
        let o = n - 1;
        resized_rows(old, old_in, fresh, old_rays, new_rays, tail, o as nat) + resized_row(
            old,
            o * old_in,
            fresh,
            o * (CHANNELS * grown_rays(old_rays, new_rays)),
            old_rays,
            new_rays,
            tail,
        )
    }
}

/// An exact copy of a vector of plain scalars.
fn copy_all<S: Copy>(v: &Vec<S>) -> (w: Vec<S>)
    ensures
        w@ == v@,
{
    let mut w: Vec<S> = Vec::new();
    let mut i: usize = 0;
    while i < v.len()
        invariant
            i <= v.len(),
            w@ == v@.subrange(0, i as int),
        decreases v.len() - i,
    {
        w.push(v[i]);
        i = i + 1;
    }
    assert(w@ =~= v@);
    w
}

/// Appends one per-ray block (see [`kept_block`]).
fn push_block<S: Copy>(
    out: &mut Vec<S>,
    src: &Vec<S>,
    start: usize,
    fresh: &Vec<S>,
    fstart: usize,
    old_rays: usize,
    new_rays: usize,
)
    requires
        new_rays <= old_rays ==> start + new_rays <= src.len(),
        old_rays < new_rays ==> start + old_rays <= src.len(),
        old_rays < new_rays ==> fstart + (new_rays - old_rays) <= fresh.len(),
    ensures
        final(out)@ == old(out)@ + kept_block(
            src@,
            start as int,
            fresh@,
            fstart as int,
            old_rays as int,
            new_rays as int,
        ),
{
    let ghost init = out@;
    let ghost block = kept_block(
        src@,
        start as int,
        fresh@,
        fstart as int,
        old_rays as int,
        new_rays as int,
    );
    let mut r: usize = 0;
    while r < new_rays
        invariant
            r <= new_rays,
            out@ == init + block.subrange(0, r as int),
            block == kept_block(
                src@,
                start as int,
                fresh@,
                fstart as int,
                old_rays as int,
                new_rays as int,
            ),
            new_rays <= old_rays ==> start + new_rays <= src.len(),
            old_rays < new_rays ==> start + old_rays <= src.len(),
            old_rays < new_rays ==> fstart + (new_rays - old_rays) <= fresh.len(),
        decreases new_rays - r,
    {
        if r < old_rays {
            out.push(src[start + r]);
        } else {
            out.push(fresh[fstart + (r - old_rays)]);
        }
        assert(block.subrange(0, r + 1) =~= block.subrange(0, r as int).push(block[r as int]));
        r = r + 1;
    }
    assert(block.subrange(0, r as int) =~= block);
}

/// Appends the scalar tail `src[start .. start + len]` unchanged.
fn push_tail<S: Copy>(out: &mut Vec<S>, src: &Vec<S>, start: usize, len: usize)
    requires
        start + len <= src.len(),
    ensures
        final(out)@ == old(out)@ + src@.subrange(start as int, start + len),
{
    let ghost init = out@;
    let mut s: usize = 0;
    while s < len
        invariant
            s <= len,
            start + len <= src.len(),
            out@ == init + src@.subrange(start as int, start + s),
        decreases len - s,
    {
        out.push(src[start + s]);
        assert(src@.subrange(start as int, start + s + 1) =~= src@.subrange(
            start as int,
            start + s,
        ).push(src@[start + s]));
        s = s + 1;
    }
}

/// An agent's brain, one variant per decider. The scalars are `S`; the
/// wandering brain's state (its random stream and current heading) is `W`,
/// advanced by the driver that runs the simulation.
pub enum Brain<S, W> {
    /// Random walk: the naive control group.
    Wander(W),
    /// Deterministic reflex toward the nearest target: the competent control.
    Hunter,
    /// Forages like the hunter but eats only while its energy fraction is at
    /// or below `hunger_threshold`: the control for restraint.
    Grazer { hunger_threshold: S },
    /// Does not decide, does not move: the brain of flora.
    Sessile,
    /// The evolved multilayer perceptron.
    Mlp(MlpBrain<S>),
}

/// The family a brain belongs to.
pub open spec fn brain_family<S, W>(b: Brain<S, W>) -> BrainFamily {
    match b {
        Brain::Wander(_) => BrainFamily::Wander,
        Brain::Hunter => BrainFamily::Hunter,
        Brain::Grazer { .. } => BrainFamily::Grazer,
        Brain::Sessile => BrainFamily::Sessile,
        Brain::Mlp(_) => BrainFamily::Mlp,
    }
}

/// Size of a brain's decision system: the hidden and output neurons of an MLP,
/// none for the hand-written brains.
pub open spec fn brain_neurons<S, W>(b: Brain<S, W>) -> nat {
    match b {
        Brain::Mlp(m) => total_outputs(m.spec_layers()),
        _ => 0,
    }
}

impl<S, W> Brain<S, W> {
    /// Short label of the brain's family (`Wander`, `Hunter`, `Grazer`,
    /// `Sessile`, `MLP`).
    pub fn name(&self) -> (s: &'static str)
        ensures
            s@ == family_label(brain_family(*self).spec_index()),
    {
        let s = match self {
            Brain::Wander(_) => "Wander",
            Brain::Hunter => "Hunter",
            Brain::Grazer { .. } => "Grazer",
            Brain::Sessile => "Sessile",
            Brain::Mlp(_) => "MLP",
        };
        proof {
            reveal_strlit("Wander");
            reveal_strlit("Hunter");
            reveal_strlit("Grazer");
            reveal_strlit("Sessile");
            reveal_strlit("MLP");
        }
        s
    }

    /// Stable index of the brain's family, in the order of [`families`].
    pub fn family_index(&self) -> (i: usize)
        ensures
            i == brain_family(*self).spec_index(),
            i < FAMILY_COUNT,
    {
        match self {
            Brain::Wander(_) => 0,
            Brain::Hunter => 1,
            Brain::Grazer { .. } => 2,
            Brain::Sessile => 3,
            Brain::Mlp(_) => 4,
        }
    }

    /// Size of the decision system, for the metabolic cost: the MLP's hidden
    /// and output neurons, `0` for the hand-written brains, which carry no
    /// evolvable network and pay nothing.
    pub fn neuron_count(&self) -> (n: usize)
        requires
            brain_neurons(*self) <= usize::MAX,
        ensures
            n == brain_neurons(*self),
    {
        match self {
            Brain::Mlp(m) => m.neuron_count(),
            _ => 0,
        }
    }
}

impl<S: Copy> MlpBrain<S> {
    /// Resizes an input layer's fan-in to `n_inputs`, respecting the input
    /// layout: the `CHANNELS` per-ray blocks (vision, target, threat, each as
    /// wide as the ray count) followed by the scalar tail (`SELF_CHANNELS`
    /// proprioceptive channels, then `n_sensed` field-sense channels). Each
    /// per-ray block is truncated when the child sees less finely, or padded
    /// with the next weights of `fresh` (drawn by the caller, row by row, block
    /// by block) when it sees more finely, so every kept weight stays on its
    /// channel; the tail's weights and all biases are carried over unchanged.
    pub fn resize_input_fan(
        layer: &Layer<S>,
        fresh: &Vec<S>,
        n_inputs: usize,
        n_sensed: usize,
    ) -> (l: Layer<S>)
        requires
            layer.wf(),
            SELF_CHANNELS + n_sensed <= layer.spec_inputs(),
            SELF_CHANNELS + n_sensed <= n_inputs,
            fresh@.len() == layer.spec_biases().len() * (CHANNELS * grown_rays(
                rays_of(layer.spec_inputs() as int, SELF_CHANNELS + n_sensed),
                rays_of(n_inputs as int, SELF_CHANNELS + n_sensed),
            )),
        ensures
            (n_inputs - (SELF_CHANNELS + n_sensed)) % (CHANNELS as int) == 0 ==> l.wf(),
            l.spec_inputs() == n_inputs,
            l.spec_biases() == layer.spec_biases(),
            l.spec_weights() == resized_rows(
                layer.spec_weights(),
                layer.spec_inputs() as int,
                fresh@,
                rays_of(layer.spec_inputs() as int, SELF_CHANNELS + n_sensed),
                rays_of(n_inputs as int, SELF_CHANNELS + n_sensed),
                SELF_CHANNELS + n_sensed,
                layer.spec_biases().len(),
            ),
    {
        let outputs = layer.biases.len();
        let old_in = layer.inputs;
        let tail = SELF_CHANNELS + n_sensed;
        let old_rays = (old_in - tail) / CHANNELS;
        let new_rays = (n_inputs - tail) / CHANNELS;
        let grown: usize = if new_rays > old_rays {
            new_rays - old_rays
        } else {
            0
        };
        let ghost per_row: int = CHANNELS * grown;
        let ghost width: int = CHANNELS * new_rays + tail;
        assert(CHANNELS * old_rays + tail <= old_in);
        assert((n_inputs - tail) % (CHANNELS as int) == 0 ==> width == n_inputs);
        let old_len = layer.weights.len();
        let fresh_len = fresh.len();
        let mut weights: Vec<S> = Vec::new();
        let mut base: usize = 0;
        let mut fbase: usize = 0;
        let mut o: usize = 0;
        while o < outputs
            invariant
                o <= outputs,
                outputs == layer.biases@.len(),
                old_in == layer.inputs,
                layer.weights@.len() == old_in * outputs,
                old_len == layer.weights@.len(),
                fresh_len == fresh@.len(),
                CHANNELS * old_rays + tail <= old_in,
                width == CHANNELS * new_rays + tail,
                grown == grown_rays(old_rays as int, new_rays as int),
                per_row == CHANNELS * grown,
                fresh@.len() == outputs * per_row,
                base == o * old_in,
                fbase == o * per_row,
                weights@ == resized_rows(
                    layer.weights@,
                    old_in as int,
                    fresh@,
                    old_rays as int,
                    new_rays as int,
                    tail as int,
                    o as nat,
                ),
                weights@.len() == o * width,
            decreases outputs - o,
        {
            proof {
                lemma_mul_inequality(o + 1, outputs as int, old_in as int);
                lemma_mul_inequality(o + 1, outputs as int, per_row);
                lemma_mul_is_distributive_add_other_way(old_in as int, o as int, 1);
                lemma_mul_is_distributive_add_other_way(per_row, o as int, 1);
                lemma_mul_is_distributive_add_other_way(width, o as int, 1);
            }
            let ghost before = weights@;
            push_block(&mut weights, &layer.weights, base, fresh, fbase, old_rays, new_rays);
            push_block(
                &mut weights,
                &layer.weights,
                base + old_rays,
                fresh,
                fbase + grown,
                old_rays,
                new_rays,
            );
            push_block(
                &mut weights,
                &layer.weights,
                base + 2 * old_rays,
                fresh,
                fbase + 2 * grown,
                old_rays,
                new_rays,
            );
            push_tail(&mut weights, &layer.weights, base + CHANNELS * old_rays, tail);
            assert(weights@ =~= before + resized_row(
                layer.weights@,
                base as int,
                fresh@,
                fbase as int,
                old_rays as int,
                new_rays as int,
                tail as int,
            ));
            base = base + old_in;
            fbase = fbase + CHANNELS * grown;
            o = o + 1;
        }
        proof {
            vstd::arithmetic::mul::lemma_mul_is_commutative(outputs as int, width);
        }
        Layer { inputs: n_inputs, weights, biases: copy_all(&layer.biases) }
    }

    /// The child's layers before their weights are perturbed: the input layer
    /// re-homed to `n_inputs` (see [`MlpBrain::resize_input_fan`]) when the
    /// child's number of rays differs from the parent's, every other layer
    /// copied as it is. Hidden topology is inherited unchanged.
    pub fn rehomed(&self, fresh: &Vec<S>, n_inputs: usize, n_sensed: usize) -> (m: MlpBrain<S>)
        requires
            forall|k: int| 0 <= k < self.spec_layers().len() ==> (#[trigger] self.spec_layers()[k]).wf(),
            self.spec_layers().len() > 0 && self.spec_layers()[0].spec_inputs() != n_inputs ==> {
                let first = self.spec_layers()[0];
                let tail = SELF_CHANNELS + n_sensed;
                &&& tail <= first.spec_inputs()
                &&& tail <= n_inputs
                &&& fresh@.len() == first.spec_biases().len() * (CHANNELS * grown_rays(
                    rays_of(first.spec_inputs() as int, tail),
                    rays_of(n_inputs as int, tail),
                ))
            },
        ensures
            m.spec_layers().len() == self.spec_layers().len(),
            forall|k: int|
                0 <= k < m.spec_layers().len() && (k > 0 || self.spec_layers()[0].spec_inputs() == n_inputs
                    || (n_inputs - (SELF_CHANNELS + n_sensed)) % (CHANNELS as int) == 0) ==> (#[trigger] m.spec_layers()[k]).wf(),
            forall|k: int|
                0 <= k < m.spec_layers().len() && (k > 0 || self.spec_layers()[0].spec_inputs()
                    == n_inputs) ==> same_layer(#[trigger] m.spec_layers()[k], self.spec_layers()[k]),
            self.spec_layers().len() > 0 && self.spec_layers()[0].spec_inputs() != n_inputs ==> {
                let first = self.spec_layers()[0];
                let tail = SELF_CHANNELS + n_sensed;
                let got = m.spec_layers()[0];
                &&& got.spec_inputs() == n_inputs
                &&& got.spec_biases() == first.spec_biases()
                &&& got.spec_weights() == resized_rows(
                    first.spec_weights(),
                    first.spec_inputs() as int,
                    fresh@,
                    rays_of(first.spec_inputs() as int, tail),
                    rays_of(n_inputs as int, tail),
                    tail as int,
                    first.spec_biases().len(),
                )
            },
    {
        let mut layers: Vec<Layer<S>> = Vec::new();
        let mut k: usize = 0;
        while k < self.layers.len()
            invariant
                k <= self.layers.len(),
                layers@.len() == k,
                forall|j: int| 0 <= j < self.layers@.len() ==> (#[trigger] self.layers@[j]).wf(),
                self.layers@.len() > 0 && self.layers@[0].spec_inputs() != n_inputs ==> {
                    let first = self.layers@[0];
                    let tail = SELF_CHANNELS + n_sensed;
                    &&& tail <= first.spec_inputs()
                    &&& tail <= n_inputs
                    &&& fresh@.len() == first.spec_biases().len() * (CHANNELS * grown_rays(
                        rays_of(first.spec_inputs() as int, tail),
                        rays_of(n_inputs as int, tail),
                    ))
                },
                forall|j: int|
                    0 <= j < k && (j > 0 || self.layers@[0].spec_inputs() == n_inputs || (n_inputs - (
                    SELF_CHANNELS + n_sensed)) % (CHANNELS as int) == 0) ==> (#[trigger] layers@[j]).wf(),
                forall|j: int|
                    0 <= j < k && (j > 0 || self.layers@[0].spec_inputs() == n_inputs) ==> same_layer(
                        #[trigger] layers@[j],
                        self.layers@[j],
                    ),
                k > 0 && self.layers@[0].spec_inputs() != n_inputs ==> {
                    let first = self.layers@[0];
                    let tail = SELF_CHANNELS + n_sensed;
                    let got = layers@[0];
                    &&& got.spec_inputs() == n_inputs
                    &&& got.spec_biases() == first.spec_biases()
                    &&& got.spec_weights() == resized_rows(
                        first.spec_weights(),
                        first.spec_inputs() as int,
                        fresh@,
                        rays_of(first.spec_inputs() as int, tail),
                        rays_of(n_inputs as int, tail),
                        tail as int,
                        first.spec_biases().len(),
                    )
                },
            decreases self.layers.len() - k,
        {
            let layer = &self.layers[k];
            if k == 0 && layer.inputs != n_inputs {
                let l = Self::resize_input_fan(layer, fresh, n_inputs, n_sensed);
                layers.push(l);
            } else {
                let l = Layer {
                    inputs: layer.inputs,
                    weights: copy_all(&layer.weights),
                    biases: copy_all(&layer.biases),
                };
                layers.push(l);
            }
            k = k + 1;
        }
        MlpBrain { layers }
    }
}

/// Whether two layers have the same fan-in, weights and biases.
pub open spec fn same_layer<S>(a: Layer<S>, b: Layer<S>) -> bool {
    &&& a.spec_inputs() == b.spec_inputs()
    &&& a.spec_weights() == b.spec_weights()
    &&& a.spec_biases() == b.spec_biases()
}


/// The shape of the re-homed rows: `n` rows of `CHANNELS × new_rays + tail`
/// weights each, row `o` being [`resized_row`] of the parent's row `o`.
proof fn lemma_rows_shape<S>(
    old: Seq<S>,
    old_in: int,
    fresh: Seq<S>,
    old_rays: int,
    new_rays: int,
    tail: int,
    n: nat,
    o: int,
    j: int,
)
    requires
        0 <= old_rays,
        0 <= new_rays,
        0 <= tail,
        CHANNELS * old_rays + tail <= old_in,
        old.len() >= n * old_in,
        0 <= o < n,
        0 <= j < CHANNELS * new_rays + tail,
    ensures
        resized_rows(old, old_in, fresh, old_rays, new_rays, tail, n).len() == n * (CHANNELS
            * new_rays + tail),
        resized_rows(old, old_in, fresh, old_rays, new_rays, tail, n)[o * (CHANNELS * new_rays
            + tail) + j] == resized_row(
            old,
            o * old_in,
            fresh,
            o * (CHANNELS * grown_rays(old_rays, new_rays)),
            old_rays,
            new_rays,
            tail,
        )[j],
    decreases n,
{
    let w = CHANNELS * new_rays + tail;
    let m = (n - 1) as nat;
    let row = resized_row(
        old,
        m * old_in,
        fresh,
        m * (CHANNELS * grown_rays(old_rays, new_rays)),
        old_rays,
        new_rays,
        tail,
    );
    assert(m * old_in + old_in == n * old_in) by (nonlinear_arith)
        requires
            m == n - 1,
    ;
    assert(0 <= m * old_in) by (nonlinear_arith)
        requires
            0 <= m,
            0 <= old_in,
    ;
    assert(row.len() == w);
    assert(m * w + w == n * w) by (nonlinear_arith)
        requires
            m == n - 1,
    ;
    if m > 0 {
        assert(old.len() >= m * old_in) by (nonlinear_arith)
            requires
                old.len() >= n * old_in,
                m < n,
                0 <= old_in,
        ;
        if o < m {
            lemma_rows_shape(old, old_in, fresh, old_rays, new_rays, tail, m, o, j);
            assert(o * w + j < m * w) by (nonlinear_arith)
                requires
                    0 <= o,
                    o + 1 <= m,
                    0 <= j < w,
            ;
        } else {
            lemma_rows_len(old, old_in, fresh, old_rays, new_rays, tail, m);
            assert(o == m);
        }
    } else {
        assert(resized_rows(old, old_in, fresh, old_rays, new_rays, tail, 0).len() == 0);
        assert(o == 0);
    }
    lemma_rows_len(old, old_in, fresh, old_rays, new_rays, tail, n);
}

/// `n` re-homed rows hold `n × (CHANNELS × new_rays + tail)` weights.
proof fn lemma_rows_len<S>(
    old: Seq<S>,
    old_in: int,
    fresh: Seq<S>,
    old_rays: int,
    new_rays: int,
    tail: int,
    n: nat,
)
    requires
        0 <= old_rays,
        0 <= new_rays,
        0 <= tail,
        CHANNELS * old_rays + tail <= old_in,
        old.len() >= n * old_in,
    ensures
        resized_rows(old, old_in, fresh, old_rays, new_rays, tail, n).len() == n * (CHANNELS
            * new_rays + tail),
    decreases n,
{
    if n > 0 {
        let m = (n - 1) as nat;
        let w = CHANNELS * new_rays + tail;
        assert(m * old_in + old_in == n * old_in) by (nonlinear_arith)
            requires
                m == n - 1,
        ;
        assert(0 <= m * old_in) by (nonlinear_arith)
            requires
                0 <= m,
                0 <= old_in,
        ;
        assert(m * w + w == n * w) by (nonlinear_arith)
            requires
                m == n - 1,
        ;
        assert(old.len() >= m * old_in) by (nonlinear_arith)
            requires
                old.len() >= n * old_in,
                m < n,
                0 <= old_in,
        ;
        let row = resized_row(
            old,
            m * old_in,
            fresh,
            m * (CHANNELS * grown_rays(old_rays, new_rays)),
            old_rays,
            new_rays,
            tail,
        );
        assert(row.len() == w);
        lemma_rows_len(old, old_in, fresh, old_rays, new_rays, tail, m);
        assert(resized_rows(old, old_in, fresh, old_rays, new_rays, tail, n) == resized_rows(
            old,
            old_in,
            fresh,
            old_rays,
            new_rays,
            tail,
            m,
        ) + row);
    } else {
        assert(0 * (CHANNELS * new_rays + tail) == 0) by (nonlinear_arith);
    }
}

/// Re-homing keeps every kept weight on its channel and carries the scalar
/// tail unchanged: in row `o` of the re-homed layer, ray `r` of per-ray block
/// `b` is the parent's ray `r` of the same block while the parent had that ray,
/// the next fresh weight otherwise, and tail channel `s` is the parent's tail
/// channel `s`.
pub proof fn lemma_rehoming_keeps_channels<S>(
    old: Seq<S>,
    old_in: int,
    fresh: Seq<S>,
    old_rays: int,
    new_rays: int,
    tail: int,
    outputs: nat,
    o: int,
)
    requires
        0 <= old_rays,
        0 <= new_rays,
        0 <= tail,
        CHANNELS * old_rays + tail <= old_in,
        old.len() == outputs * old_in,
        0 <= o < outputs,
    ensures
        ({
            let w = CHANNELS * new_rays + tail;
            let g = grown_rays(old_rays, new_rays);
            let rows = resized_rows(old, old_in, fresh, old_rays, new_rays, tail, outputs);
            &&& rows.len() == outputs * w
            &&& forall|b: int, r: int|
                0 <= b < CHANNELS && 0 <= r < new_rays && r < old_rays ==> #[trigger] rows[o * w + b
                    * new_rays + r] == old[o * old_in + b * old_rays + r]
            &&& forall|b: int, r: int|
                0 <= b < CHANNELS && old_rays <= r < new_rays ==> #[trigger] rows[o * w + b * new_rays
                    + r] == fresh[o * (CHANNELS * g) + b * g + (r - old_rays)]
            &&& forall|t: int|
                0 <= t < tail ==> #[trigger] rows[o * w + CHANNELS * new_rays + t] == old[o * old_in
                    + CHANNELS * old_rays + t]
        }),
{
    let w = CHANNELS * new_rays + tail;
    let g = grown_rays(old_rays, new_rays);
    let rows = resized_rows(old, old_in, fresh, old_rays, new_rays, tail, outputs);
    lemma_rows_len(old, old_in, fresh, old_rays, new_rays, tail, outputs);
    let base = o * old_in;
    let fbase = o * (CHANNELS * g);
    let row = resized_row(old, base, fresh, fbase, old_rays, new_rays, tail);
    assert forall|b: int, r: int|
        0 <= b < CHANNELS && 0 <= r < new_rays && r < old_rays implies #[trigger] rows[o * w + b
            * new_rays + r] == old[o * old_in + b * old_rays + r] by {
        lemma_rows_shape(old, old_in, fresh, old_rays, new_rays, tail, outputs, o, b * new_rays + r);
        if b == 0 {
        } else if b == 1 {
        } else {
            assert(b == 2);
        }
    }
    assert forall|b: int, r: int|
        0 <= b < CHANNELS && old_rays <= r < new_rays implies #[trigger] rows[o * w + b * new_rays
            + r] == fresh[o * (CHANNELS * g) + b * g + (r - old_rays)] by {
        lemma_rows_shape(old, old_in, fresh, old_rays, new_rays, tail, outputs, o, b * new_rays + r);
        if b == 0 {
        } else if b == 1 {
        } else {
            assert(b == 2);
        }
    }
    assert forall|t: int| 0 <= t < tail implies #[trigger] rows[o * w + CHANNELS * new_rays + t]
        == old[o * old_in + CHANNELS * old_rays + t] by {
        lemma_rows_shape(old, old_in, fresh, old_rays, new_rays, tail, outputs, o, CHANNELS * new_rays + t);
        assert(0 <= o * old_in) by (nonlinear_arith)
            requires
                0 <= o,
                0 <= old_in,
        ;
        assert(o * old_in + old_in <= outputs * old_in) by (nonlinear_arith)
            requires
                o < outputs,
                0 <= old_in,
        ;
    }
}

} // verus!
