use httpbench::timedelay::{ConstantDelay, NegativeExponentialDelay, UniformDelay};

#[test]
fn mod_test_constant() {
    const DELAY_MS: u32 = 5;

    let mut time_delay = ConstantDelay::new(DELAY_MS);
    assert_eq!(DELAY_MS as u64, time_delay.next().unwrap());
}

#[test]
fn mod_test_negative_exponential() {
    const DELAY_MS: u32 = 30;
    const TEST_ITERS: u32 = 10000;

    let mut time_delay = NegativeExponentialDelay::new(DELAY_MS);
    let mut sum: u32 = 0;
    for _i in 0..TEST_ITERS {
        sum += time_delay.next().unwrap() as u32;
    }
    let avg = sum as f32 / TEST_ITERS as f32;

    assert!(
        (DELAY_MS as f32 - avg).abs() < 2f32,
        "sample mean {} strays too far from {}",
        avg,
        DELAY_MS
    );
}

#[test]
fn mod_test_uniform() {
    const DELAY_MS: u32 = 10;
    const TEST_ITERS: u32 = 10000;

    let mut time_delay = UniformDelay::new(DELAY_MS);
    let mut histo = [0u32; DELAY_MS as usize];
    for _i in 0..TEST_ITERS {
        let ms = time_delay.next().unwrap() as usize;
        histo[ms] += 1;
    }

    let expected = (TEST_ITERS / DELAY_MS) as f32;
    let epsilon = expected / 10f32;
    for freq in histo.iter() {
        assert!(
            (*freq as f32 - expected).abs() < epsilon,
            "bucket frequency {} strays too far from {}",
            freq,
            expected
        );
    }
}

#[test]
fn tests_test_constant() {
    const DELAY_MS: u32 = 5;

    let mut time_delay = ConstantDelay::new(DELAY_MS);
    assert_eq!(DELAY_MS as u64, time_delay.next().unwrap());
}

#[test]
fn tests_test_negative_exponential() {
    const DELAY_MS: u32 = 30;
    const TEST_ITERS: u32 = 10000;

    let mut time_delay = NegativeExponentialDelay::new(DELAY_MS);
    let mut sum: u32 = 0;
    for _i in 0..TEST_ITERS {
        sum += time_delay.next().unwrap() as u32;
    }
    let avg = sum as f32 / TEST_ITERS as f32;

    assert!(
        (DELAY_MS as f32 - avg).abs() < 2f32,
        "sample mean {} strays too far from {}",
        avg,
        DELAY_MS
    );
}

#[test]
fn tests_test_uniform() {
    const DELAY_MS: u32 = 10;
    const TEST_ITERS: u32 = 10000;

    let mut time_delay = UniformDelay::new(DELAY_MS);
    let mut histo = [0u32; DELAY_MS as usize];
    for _i in 0..TEST_ITERS {
        let ms = time_delay.next().unwrap() as usize;
        histo[ms] += 1;
    }

    let expected = (TEST_ITERS / DELAY_MS) as f32;
    let epsilon = expected / 10f32;
    for freq in histo.iter() {
        assert!(
            (*freq as f32 - expected).abs() < epsilon,
            "bucket frequency {} strays too far from {}",
            freq,
            expected
        );
    }
}
