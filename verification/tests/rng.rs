use aim_room::rng::XorShift;

#[test]
fn xorshift_matches_its_reference_sequence() {
    let mut rng = XorShift::new(42);
    assert_eq!(rng.next_bits(), 0);
    assert_eq!(rng.next_bits(), 40970);
    assert_eq!(rng.next_bits(), 35603);
}

#[test]
fn seed_zero_behaves_like_seed_one() {
    let mut zero = XorShift::new(0);
    let mut one = XorShift::new(1);
    for _ in 0..100 {
        assert_eq!(zero.next_bits(), one.next_bits());
    }
}
