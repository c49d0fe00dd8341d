use teemlab::decor::{is_exterior, sparkle_count, texel_hash_bits, visual_seed, Lcg};

#[test]
fn lcg_matches_the_reference_sequence() {
    let mut lcg = Lcg::new(0);
    let mut states = Vec::new();
    for _ in 0..4 {
        lcg.next_state();
        states.push(lcg.state());
    }
    assert_eq!(states, vec![1_013_904_223, 1_196_435_762, 3_519_870_697, 2_868_466_484]);
}

#[test]
fn lcg_samples_stay_in_unit_interval() {
    let mut lcg = Lcg::new(0xDEAD_BEEF);
    for _ in 0..10_000 {
        let q = (f64::from(lcg.next_state()) / 4_294_967_296.0) as f32;
        assert!((0.0..1.0).contains(&q), "sample out of range: {q}");
    }
}

#[test]
fn visual_seed_folds_both_halves() {
    assert_eq!(visual_seed(0), 0x8DA3_D251);
    assert_eq!(visual_seed(0x0000_0001_0000_0001), 0x8DA3_D251);
    assert_eq!(visual_seed(0x00C0_FFEE), 0x00C0_FFEE ^ 0x8DA3_D251);
}

#[test]
fn texel_hash_is_the_documented_mix() {
    fn reference(i: u32, j: u32, salt: u32) -> u32 {
        let mut h = i.wrapping_mul(0x9E37_79B9).wrapping_add(j.wrapping_mul(0x85EB_CA6B)) ^ salt;
        h ^= h >> 16;
        h = h.wrapping_mul(0x7FEB_352D);
        h ^= h >> 15;
        h = h.wrapping_mul(0x846C_A68B);
        h ^= h >> 16;
        h
    }
    for (i, j, salt) in [(0, 0, 0), (1, 2, 3), (400, 17, 0x5F35_6495), (u32::MAX, u32::MAX, 7)] {
        assert_eq!(texel_hash_bits(i, j, salt), reference(i, j, salt));
    }
    assert_eq!(texel_hash_bits(0, 0, 0), 0);
    assert_ne!(texel_hash_bits(1, 0, 0), texel_hash_bits(0, 1, 0));
}

#[test]
fn sparkles_and_waterline_neighbours() {
    assert_eq!(sparkle_count(4), 8);
    assert_eq!(sparkle_count(828), 828 * 828 / 3000);
    let wet = vec![false, true, true, true];
    assert!(is_exterior(&wet, 2, -1, 0));
    assert!(is_exterior(&wet, 2, 0, 2));
    assert!(is_exterior(&wet, 2, 0, 0));
    assert!(!is_exterior(&wet, 2, 1, 1));
}
