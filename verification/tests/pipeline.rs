use rand::rngs::StdRng;
use rand::SeedableRng;
use scalar_kalman::config::SimulationConfig;
use scalar_kalman::error::FilterError;
use scalar_kalman::estimator::estimate;
use scalar_kalman::fixed::SCALE;
use scalar_kalman::pipeline::run;

fn scenario() -> SimulationConfig {
    SimulationConfig {
        dt: 10_000_000,
        duration: 10 * SCALE,
        x0: 0,
        v0: 10 * SCALE,
        process_variance: 10_000,
        measurement_variance: 200 * SCALE,
        v_model: 9 * SCALE,
        model_variance: 3 * SCALE,
        x_prior: SCALE,
    }
}

fn mean_abs_deviation(a: &[i64], b: &[i64]) -> f64 {
    let mut total: f64 = 0.0;
    for i in 0..a.len() {
        total += ((a[i] - b[i]) as f64).abs();
    }
    total / (a.len() as f64) / (SCALE as f64)
}

#[test]
fn run_has_one_sample_per_step_in_every_sequence() {
    let mut rng = StdRng::seed_from_u64(21);
    let t = run(&scenario(), &mut rng).unwrap();
    assert_eq!(t.positions.len(), 1001);
    assert_eq!(t.velocities.len(), 1001);
    assert_eq!(t.observations.len(), 1001);
    assert_eq!(t.estimates.len(), 1001);
}

#[test]
fn run_length_follows_duration_and_time_step() {
    let mut rng = StdRng::seed_from_u64(22);
    let cases: [(i64, i64, usize); 5] = [
        (3 * SCALE, 10 * SCALE, 4),
        (10 * SCALE, 10 * SCALE, 2),
        (11 * SCALE, 10 * SCALE, 1),
        (1, 250, 251),
        (7, 50, 8),
    ];
    for (dt, duration, samples) in cases {
        let mut config = scenario();
        config.dt = dt;
        config.duration = duration;
        let t = run(&config, &mut rng).unwrap();
        assert_eq!(t.positions.len(), samples);
        assert_eq!(t.velocities.len(), samples);
        assert_eq!(t.observations.len(), samples);
        assert_eq!(t.estimates.len(), samples);
        assert_eq!(config.sample_count(), samples as u64);
    }
}

#[test]
fn run_starts_from_the_initial_conditions() {
    let mut rng = StdRng::seed_from_u64(23);
    let t = run(&scenario(), &mut rng).unwrap();
    assert_eq!(t.positions[0], 0);
    assert_eq!(t.velocities[0], 10 * SCALE);
    assert_eq!(t.estimates[0], SCALE);
}

#[test]
fn run_sequences_belong_together() {
    let config = scenario();
    let mut rng = StdRng::seed_from_u64(24);
    let t = run(&config, &mut rng).unwrap();
    let sigma = config.process_noise();
    let spread = config.measurement_noise();
    for n in 1..t.positions.len() {
        let dv = t.velocities[n] - t.velocities[n - 1];
        assert!(-sigma <= dv && dv <= sigma);
        let dx = ((t.velocities[n] as i128) * (config.dt as i128)).div_euclid(SCALE as i128);
        assert_eq!((t.positions[n] - t.positions[n - 1]) as i128, dx);
    }
    for n in 0..t.positions.len() {
        let delta = t.observations[n] - t.positions[n];
        assert!(-spread <= delta && delta <= spread);
    }
    assert_eq!(estimate(&t.observations, &config), Ok(t.estimates));
}

#[test]
fn run_is_repeatable_from_one_seed() {
    let mut first = StdRng::seed_from_u64(25);
    let mut second = StdRng::seed_from_u64(25);
    assert_eq!(run(&scenario(), &mut first), run(&scenario(), &mut second));
}

#[test]
fn run_differs_between_seeds() {
    let mut first = StdRng::seed_from_u64(26);
    let mut second = StdRng::seed_from_u64(27);
    assert_ne!(run(&scenario(), &mut first), run(&scenario(), &mut second));
}

#[test]
fn run_rejects_an_invalid_config() {
    let mut rng = StdRng::seed_from_u64(28);
    let mut config = scenario();
    config.dt = 0;
    assert_eq!(run(&config, &mut rng), Err(FilterError::InvalidConfig));
    let mut config = scenario();
    config.duration = -SCALE;
    assert_eq!(run(&config, &mut rng), Err(FilterError::InvalidConfig));
    let mut config = scenario();
    config.process_variance = -1;
    assert_eq!(run(&config, &mut rng), Err(FilterError::InvalidConfig));
    let mut config = scenario();
    config.measurement_variance = -1;
    assert_eq!(run(&config, &mut rng), Err(FilterError::InvalidConfig));
    let mut config = scenario();
    config.model_variance = -1;
    assert_eq!(run(&config, &mut rng), Err(FilterError::InvalidConfig));
}

#[test]
fn run_with_exact_measurements_is_degenerate() {
    let mut rng = StdRng::seed_from_u64(29);
    let mut config = scenario();
    config.measurement_variance = 0;
    assert_eq!(run(&config, &mut rng), Err(FilterError::DegenerateFusion));
}

#[test]
fn run_fails_when_the_truth_leaves_the_range() {
    let mut rng = StdRng::seed_from_u64(30);
    let mut config = scenario();
    config.x0 = i64::MAX - SCALE;
    assert_eq!(run(&config, &mut rng), Err(FilterError::Overflow));
}

#[test]
fn convergence_scenario_rejects_most_of_the_noise() {
    let config = scenario();
    for seed in 100..108 {
        let mut rng = StdRng::seed_from_u64(seed);
        let t = run(&config, &mut rng).unwrap();
        let raw = mean_abs_deviation(&t.observations, &t.positions);
        let filtered = mean_abs_deviation(&t.estimates, &t.positions);
        assert!(raw > 6.0 && raw < 8.0);
        assert!(filtered * 3.5 < raw);
    }
}

#[test]
fn zero_noise_estimate_tracks_the_truth_at_every_step() {
    let mut config = scenario();
    config.process_variance = 0;
    config.measurement_variance = 1;
    config.x_prior = config.x0;
    let mut rng = StdRng::seed_from_u64(31);
    let t = run(&config, &mut rng).unwrap();
    for n in 0..t.positions.len() {
        assert_eq!(t.positions[n], (n as i64) * 100_000_000);
        let off = t.estimates[n] - t.positions[n];
        assert!(-100_000 <= off && off <= 100_000);
    }
}

#[test]
fn zero_noise_estimate_tracks_the_truth_after_a_wrong_guess() {
    let mut config = scenario();
    config.process_variance = 0;
    config.measurement_variance = 1;
    let mut rng = StdRng::seed_from_u64(32);
    let t = run(&config, &mut rng).unwrap();
    assert_eq!(t.estimates[0], config.x_prior);
    for n in 1..t.positions.len() {
        let off = t.estimates[n] - t.positions[n];
        assert!(-100_000 <= off && off <= 100_000);
    }
}
