use httpbench::draw::neg_exp_from_draw;
use httpbench::requestgen::timedelay::{ConstantDelay, NegativeExponentialDelay, UniformDelay};

// The integer inverse-CDF transform hits its exact fixed-point values:
// a draw of one half gives mean times ln 2, smaller draws give longer
// delays, and the transform is linear in the mean.
#[test]
fn exponential_transform_exact_values() {
    // u = 1/2: one million microseconds times ln 2, truncated.
    assert_eq!(693_145, neg_exp_from_draw(1_000_000, 0x8000_0000));
    // u = 2^-32, the deepest tail the draw can reach: 32 ln 2 times the mean.
    assert_eq!(22_180_664, neg_exp_from_draw(1_000_000, 1));
    // u = 1/4 at a 30ms mean.
    assert_eq!(41_588, neg_exp_from_draw(30_000, 0x4000_0000));
    // A zero mean collapses every draw to zero.
    assert_eq!(0, neg_exp_from_draw(0, 12_345));
    // u just below 1: the delay all but vanishes.
    assert_eq!(10, neg_exp_from_draw(1_000_000, 0xFFFF_FFFF));
}

// Verifies the constant delay supplier returns the expected value
#[test]
fn timedelay_test_constant() {
    const DELAY_US: u64 = 5 * 1000;

    let time_delay = ConstantDelay::new(DELAY_US);
    assert_eq!(DELAY_US, time_delay.next_delay());
}

// Verifies that the exponential supplier generates a set of delays consistent with the distribution
#[test]
fn timedelay_test_negative_exponential() {
    const DELAY_US: u64 = 30 * 1000;
    const TEST_ITERS: usize = 10000;

    let time_delay = NegativeExponentialDelay::new(DELAY_US);
    let mut sum_us = 0u64;
    for _i in 0..TEST_ITERS {
        sum_us += time_delay.next_delay();
    }
    let avg = sum_us as f64 / TEST_ITERS as f64;

    assert!(
        (DELAY_US as f64 - avg).abs() < 2000f64,
        "sample mean {} strays too far from {}",
        avg,
        DELAY_US
    );
}

// Verifies that the uniform supplier generates the correct distribution
#[test]
fn timedelay_test_uniform() {
    const DELAY_US: u64 = 10 * 1000;
    const TEST_ITERS: usize = 10000;

    let time_delay = UniformDelay::new(DELAY_US);
    let mut histo = vec![0u32; DELAY_US as usize];
    for _i in 0..TEST_ITERS {
        let delay_us = time_delay.next_delay();
        histo[delay_us as usize] += 1;
    }

    let expected_avg = (TEST_ITERS as u64 / DELAY_US) as f64;
    let sum: f64 = histo.iter().map(|v| *v as f64).sum();
    let actual_avg = sum / histo.len() as f64;
    assert!((expected_avg - actual_avg).abs() < 0.00000001f64);
}
