use scalar_kalman::config::SimulationConfig;
use scalar_kalman::error::FilterError;
use scalar_kalman::fixed::SCALE;

fn scenario() -> SimulationConfig {
    SimulationConfig {
        dt: 10_000_000,
        duration: 10 * SCALE,
        x0: 0,
        v0: 10 * SCALE,
        process_variance: 10_000,
        measurement_variance: 200 * SCALE,
        v_model: 9 * SCALE,
        model_variance: 3 * SCALE,
        x_prior: SCALE,
    }
}

#[test]
fn validate_accepts_the_scenario() {
    assert_eq!(scenario().validate(), Ok(()));
}

#[test]
fn validate_accepts_zero_variances() {
    let mut config = scenario();
    config.process_variance = 0;
    config.measurement_variance = 0;
    config.model_variance = 0;
    assert_eq!(config.validate(), Ok(()));
}

#[test]
fn validate_rejects_a_time_step_that_is_not_positive() {
    let mut config = scenario();
    config.dt = 0;
    assert_eq!(config.validate(), Err(FilterError::InvalidConfig));
    config.dt = -1;
    assert_eq!(config.validate(), Err(FilterError::InvalidConfig));
}

#[test]
fn validate_rejects_a_duration_that_is_not_positive() {
    let mut config = scenario();
    config.duration = 0;
    assert_eq!(config.validate(), Err(FilterError::InvalidConfig));
    config.duration = -10 * SCALE;
    assert_eq!(config.validate(), Err(FilterError::InvalidConfig));
}

#[test]
fn validate_rejects_each_negative_variance() {
    let mut config = scenario();
    config.process_variance = -1;
    assert_eq!(config.validate(), Err(FilterError::InvalidConfig));
    let mut config = scenario();
    config.measurement_variance = -1;
    assert_eq!(config.validate(), Err(FilterError::InvalidConfig));
    let mut config = scenario();
    config.model_variance = -1;
    assert_eq!(config.validate(), Err(FilterError::InvalidConfig));
}

#[test]
fn step_count_is_the_whole_number_of_steps() {
    assert_eq!(scenario().step_count(), 1000);
    assert_eq!(scenario().sample_count(), 1001);
    let mut config = scenario();
    config.dt = 3 * SCALE;
    assert_eq!(config.step_count(), 3);
    assert_eq!(config.sample_count(), 4);
    config.dt = 11 * SCALE;
    assert_eq!(config.step_count(), 0);
    assert_eq!(config.sample_count(), 1);
    config.dt = 10 * SCALE;
    assert_eq!(config.step_count(), 1);
}

#[test]
fn step_count_at_the_limit() {
    let mut config = scenario();
    config.dt = 1;
    config.duration = i64::MAX;
    assert_eq!(config.step_count(), i64::MAX as u64);
    assert_eq!(config.sample_count(), i64::MAX as u64 + 1);
}

#[test]
fn noise_scales_are_square_roots() {
    let config = scenario();
    assert_eq!(config.process_noise(), 3_162_277);
    assert_eq!(config.measurement_noise(), 14_142_135_623);
}
