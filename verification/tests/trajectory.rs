use scalar_kalman::trajectory::{to_samples, TrajectorySample};

#[test]
fn to_samples_pairs_each_value_with_its_step() {
    let samples = to_samples(&vec![10, -20, 30]);
    assert_eq!(
        samples,
        vec![
            TrajectorySample { step: 0, value: 10 },
            TrajectorySample { step: 1, value: -20 },
            TrajectorySample { step: 2, value: 30 },
        ]
    );
}

#[test]
fn to_samples_of_nothing_is_nothing() {
    assert_eq!(to_samples(&Vec::new()), Vec::new());
}

#[test]
fn to_samples_starts_at_step_zero() {
    let values: Vec<i64> = (0..1001).map(|n| 3 * n).collect();
    let samples = to_samples(&values);
    assert_eq!(samples.len(), 1001);
    assert_eq!(samples[0].step, 0);
    assert_eq!(samples[1000].step, 1000);
    for s in samples.iter() {
        assert_eq!(s.value, 3 * (s.step as i64));
    }
}
