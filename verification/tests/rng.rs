use cj2k26::rng::{Rng, SEED};

fn xorshift(mut x: u64) -> u64 {
    x ^= x << 13;
    x ^= x >> 7;
    x ^= x << 17;
    x
}

#[test]
fn next_steps_xorshift() {
    let mut r = Rng::new();
    let a = r.next_u64();
    assert_eq!(a, xorshift(SEED));
    let b = r.next_u64();
    assert_eq!(b, xorshift(a));
}

#[test]
fn range_stays_below() {
    let mut r = Rng::default();
    let expected = (xorshift(SEED) % 7) as u32;
    assert_eq!(r.range(7), expected);
    for n in 1..200u32 {
        assert!(r.range(n) < n);
    }
}
