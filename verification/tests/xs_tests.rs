use foodsim::xs::{from_seed, gaussian, gaussian_zero_to_one, new_seed, range, shuffle, GaussianState};

#[test]
fn identical_seeds_give_identical_streams() {
    let seed = [9u8, 1, 2, 3, 4, 5, 6, 7, 8, 9, 10, 11, 12, 13, 14, 15];
    let mut a = from_seed(seed);
    let mut b = from_seed(seed);
    for _ in 0..100 {
        assert_eq!(range(&mut a, 0, 1000), range(&mut b, 0, 1000));
    }
}

#[test]
fn range_stays_in_bounds() {
    let mut xs = from_seed([1u8; 16]);
    for _ in 0..1000 {
        let r = range(&mut xs, 10, 17);
        assert!((10..17).contains(&r));
    }
}

#[test]
fn zero_seed_is_remapped() {
    let zero = from_seed([0u8; 16]);
    let fallback = from_seed([0xED, 0x5E, 0xAD, 0x0B, 0, 0, 0, 0, 0, 0, 0, 0, 0, 0, 0, 0]);
    assert_eq!(zero, fallback);
    assert_ne!(zero, [0u32; 4]);
}

#[test]
fn new_seed_is_deterministic_and_advances_the_state() {
    let mut xs = from_seed([3u8; 16]);
    let before = xs;
    let seed = new_seed(&mut xs);
    assert_ne!(xs, before);

    let mut copy = from_seed([3u8; 16]);
    let again = new_seed(&mut copy);
    assert_eq!(seed, again);
    assert_eq!(xs, copy);
}

#[test]
fn shuffle_keeps_the_elements() {
    let mut xs = from_seed([5u8; 16]);
    let mut v: Vec<u32> = (0..50).collect();
    shuffle(&mut xs, &mut v);
    let mut sorted = v.clone();
    sorted.sort();
    let expected: Vec<u32> = (0..50).collect();
    assert_eq!(sorted, expected);
}

#[test]
fn shuffle_is_deterministic_in_the_seed() {
    let mut xs_a = from_seed([6u8; 16]);
    let mut xs_b = from_seed([6u8; 16]);
    let mut a: Vec<u32> = (0..20).collect();
    let mut b: Vec<u32> = (0..20).collect();
    shuffle(&mut xs_a, &mut a);
    shuffle(&mut xs_b, &mut b);
    assert_eq!(a, b);
    assert_eq!(xs_a, xs_b);
    assert_ne!(a, (0..20).collect::<Vec<u32>>());
}

#[test]
fn gaussian_caches_one_sample_and_serves_it_without_drawing() {
    let mut xs = from_seed([7u8; 16]);
    let mut state = GaussianState::default();

    let first = gaussian(&mut xs, &mut state);
    assert!(state.cached.is_some());
    let cached = state.cached.unwrap();

    let state_before = xs;
    let second = gaussian(&mut xs, &mut state);
    assert_eq!(second, cached);
    assert!(state.cached.is_none());
    assert_eq!(xs, state_before);
    let _ = first;
}

#[test]
fn gaussian_zero_to_one_stays_in_unit_interval() {
    let mut xs = from_seed([8u8; 16]);
    let mut state = GaussianState::default();
    for _ in 0..500 {
        let g = gaussian_zero_to_one(&mut xs, &mut state);
        assert!((0..=65536).contains(&g));
    }
}
