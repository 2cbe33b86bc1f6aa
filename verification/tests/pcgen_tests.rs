use rlr::pcgen::PCGen;

/// The inc value of a PCGen built with `new` must always be odd.
#[test]
fn new_inc_is_always_odd() {
    for &(s, i) in [(0u64, 0u64), (42, 54), (7, 7), (u64::MAX, u64::MAX - 1)].iter() {
        let gen = PCGen::new(s, i);
        assert_eq!(gen.inc % 2, 1);
    }
}

/// The inc value of a generator must not be changed by the `next` method.
#[test]
fn inc_never_changes() {
    for &(s, i) in [(0u64, 0u64), (42, 54), (123456789, 987654321)].iter() {
        let gen = PCGen::new(s, i);
        let mut gen2 = gen.clone();
        gen2.next();
        assert_eq!(gen.inc, gen2.inc);
    }
}

/// The `in_range` method must never generate a value that's outside the
/// range specified.
#[test]
fn in_range_always_gives_good_output() {
    for &(s, i) in [(0u64, 0u64), (42, 54), (5, 99)].iter() {
        for &(a, b) in [(0i32, 1i32), (-10, 10), (i32::MIN, i32::MAX), (100, 101)].iter() {
            let mut gen = PCGen::new(s, i);
            let result = gen.in_range(a, b);
            assert!(a <= result && result < b);
        }
    }
}

/// The generator's exact output stream for a fixed seed.
#[test]
fn next_exact_values() {
    let mut gen = PCGen::new(42, 54);
    assert_eq!(gen.inc, 55);
    assert_eq!(gen.state, 9039304369631583641);
    assert_eq!(gen.next(), 210066564);
    assert_eq!(gen.next(), 1160386676);
}

/// `in_range` folds the output stream into the range exactly.
#[test]
fn in_range_exact_values() {
    let mut gen = PCGen::new(42, 54);
    assert_eq!(gen.in_range(0, 10), 4);
    assert_eq!(gen.in_range(-5, 5), 1);
}

/// A generator seeded from the clock is ready to use: its increment is odd.
#[test]
fn from_time_is_well_formed() {
    let gen = PCGen::from_time();
    assert_eq!(gen.inc % 2, 1);
}
