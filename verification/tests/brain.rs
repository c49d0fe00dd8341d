use teemlab::brain::{
    channel_labels, families, output_labels, self_labels, Brain, BrainFamily, BrainKind, Layer, MlpBrain, CHANNELS, OUTPUTS,
    SELF_CHANNELS,
};

/// A network with the given column sizes; every weight of layer `l` is `l + 1`
/// and every bias `-(l + 1)` (the values are irrelevant to topology).
fn network(dims: &[usize]) -> MlpBrain<f32> {
    let layers = dims
        .windows(2)
        .enumerate()
        .map(|(l, w)| Layer::new(w[0], vec![(l + 1) as f32; w[0] * w[1]], vec![-((l + 1) as f32); w[1]]))
        .collect();
    MlpBrain::from_layers(layers)
}

fn random_like(n_inputs: usize, hidden: &[usize]) -> MlpBrain<f32> {
    network(&MlpBrain::<f32>::dims(n_inputs, &hidden.to_vec()))
}

#[test]
fn contract_label_arrays_match_io_arity() {
    assert_eq!(channel_labels().len() + self_labels().len(), MlpBrain::<f32>::input_size(1, 0));
    assert_eq!(self_labels().len(), SELF_CHANNELS);
    assert_eq!(output_labels().len(), OUTPUTS);
    assert_eq!(channel_labels(), ["vis", "tgt", "thr"]);
    assert_eq!(output_labels(), ["fwd", "side", "act"]);
}

#[test]
fn neuron_count_is_hidden_plus_output() {
    let n_inputs = MlpBrain::<f32>::input_size(7, 0);
    assert_eq!(n_inputs, 24);
    let m = random_like(n_inputs, &[8]);
    assert_eq!(m.neuron_count(), 8 + OUTPUTS, "hidden + output only");
    let p = random_like(n_inputs, &[]);
    assert_eq!(p.neuron_count(), OUTPUTS);

    // The wrapper exposes the same count, and the hand-written brains pay nothing.
    assert_eq!(Brain::<f32, (u64, f32, f32)>::Mlp(m).neuron_count(), 8 + OUTPUTS);
    assert_eq!(Brain::<f32, (u64, f32, f32)>::Hunter.neuron_count(), 0);
    assert_eq!(Brain::<f32, (u64, f32, f32)>::Sessile.neuron_count(), 0);
    assert_eq!(Brain::<f32, (u64, f32, f32)>::Wander((0, 0.0, 0.25)).neuron_count(), 0);
}

#[test]
fn brain_name_and_family_index_follow_the_family_list() {
    let list = families();
    let brains: Vec<Brain<f32, ()>> = vec![
        Brain::Wander(()),
        Brain::Hunter,
        Brain::Grazer { hunger_threshold: 0.5 },
        Brain::Sessile,
        Brain::Mlp(random_like(6, &[2])),
    ];
    let names: Vec<&str> = brains.iter().map(|b| b.name()).collect();
    assert_eq!(names, vec!["Wander", "Hunter", "Grazer", "Sessile", "MLP"]);
    for (i, b) in brains.iter().enumerate() {
        assert_eq!(b.family_index(), i);
        assert_eq!(list[b.family_index()], b.name());
    }
    assert_eq!(Brain::<f32, ()>::Grazer { hunger_threshold: 1.0 }.neuron_count(), 0);
    assert_eq!(brains[4].neuron_count(), 2 + OUTPUTS);
}

#[test]
fn mlp_reproduce_resizes_input_layer_to_child_rays() {
    let parent = random_like(MlpBrain::<f32>::input_size(3, 0), &[8, 4]);
    assert_eq!(parent.layer_sizes(), vec![12, 8, 4, OUTPUTS]);

    // Unchanged precision: no fresh weight, an identical topology and weights.
    let same = parent.rehomed(&vec![], MlpBrain::<f32>::input_size(3, 0), 0);
    assert_eq!(same.layer_sizes(), parent.layer_sizes());
    for l in 0..parent.weight_layers() {
        assert_eq!(same.layer_weights(l), parent.layer_weights(l));
        assert_eq!(same.layer_biases(l), parent.layer_biases(l));
    }

    // Child that sees more finely: 5 rays → 18 inputs; 8 rows × 3 blocks × 2 fresh rays.
    let fresh = vec![0.5f32; 8 * CHANNELS * 2];
    let grown = parent.rehomed(&fresh, MlpBrain::<f32>::input_size(5, 0), 0);
    assert_eq!(grown.layer_sizes(), vec![18, 8, 4, OUTPUTS]);

    // Child that sees more coarsely: 2 rays → 9 inputs, no fresh weight.
    let shrunk = parent.rehomed(&vec![], MlpBrain::<f32>::input_size(2, 0), 0);
    assert_eq!(shrunk.layer_sizes(), vec![9, 8, 4, OUTPUTS]);
}

/// A one-row input layer over 2 rays and a 3-channel tail: the blocks keep
/// their channel when rays are added or dropped, and the tail is carried over.
#[test]
fn resizing_keeps_each_weight_on_its_channel() {
    // row: vision v0 v1 | target t0 t1 | threat h0 h1 | tail s0 s1 s2
    let weights = vec![1.0, 2.0, 11.0, 12.0, 21.0, 22.0, 31.0, 32.0, 33.0];
    let layer = Layer::new(9, weights, vec![0.25]);
    let fresh = vec![-1.0, -2.0, -3.0];
    let wider = MlpBrain::resize_input_fan(&layer, &fresh, 12, 0);
    assert_eq!(wider.inputs(), 12);
    assert_eq!(wider.weights(), &[1.0, 2.0, -1.0, 11.0, 12.0, -2.0, 21.0, 22.0, -3.0, 31.0, 32.0, 33.0]);
    assert_eq!(wider.biases(), &[0.25]);
    let narrower = MlpBrain::resize_input_fan(&layer, &vec![], 6, 0);
    assert_eq!(narrower.weights(), &[1.0, 11.0, 21.0, 31.0, 32.0, 33.0]);
    // two output rows, one sensed field channel in the tail
    let two = Layer::new(
        10,
        vec![1.0, 2.0, 11.0, 12.0, 21.0, 22.0, 31.0, 32.0, 33.0, 34.0, 101.0, 102.0, 111.0, 112.0, 121.0, 122.0, 131.0, 132.0, 133.0, 134.0],
        vec![0.0, 1.0],
    );
    let w = MlpBrain::resize_input_fan(&two, &vec![-1.0, -2.0, -3.0, -4.0, -5.0, -6.0], 13, 1);
    assert_eq!(
        w.weights(),
        &[
            1.0, 2.0, -1.0, 11.0, 12.0, -2.0, 21.0, 22.0, -3.0, 31.0, 32.0, 33.0, 34.0, 101.0, 102.0, -4.0, 111.0, 112.0,
            -5.0, 121.0, 122.0, -6.0, 131.0, 132.0, 133.0, 134.0
        ]
    );
}

#[test]
fn brain_kinds_and_families() {
    let names: Vec<String> = families();
    assert_eq!(names, vec!["Wander", "Hunter", "Grazer", "Sessile", "MLP"]);
    assert_eq!(BrainFamily::Mlp.index(), 4);
    assert_eq!(BrainFamily::Hunter.label(), "Hunter");
    let k: BrainKind<f32> = BrainKind::Grazer { hunger_threshold: 0.8 };
    assert_eq!(k.family(), BrainFamily::Grazer);
    assert!(matches!(k.duplicate(), BrainKind::Grazer { hunger_threshold } if hunger_threshold == 0.8));
    let m: BrainKind<f32> = BrainKind::Mlp { hidden: vec![8, 4] };
    assert!(matches!(m.duplicate(), BrainKind::Mlp { hidden } if hidden == vec![8, 4]));
    assert_eq!(MlpBrain::<f32>::dims(24, &vec![8]), vec![24, 8, OUTPUTS]);
}
