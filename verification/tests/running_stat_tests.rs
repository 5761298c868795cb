use packet_pincer::RunningStat;

/// The mean of the stream, from the exact integer aggregates.
fn mean(v: &RunningStat) -> f64 {
    v.current_sum() as f64 / v.current_count() as f64
}

/// The exact numerator of the sum of squared deviations: for a stream of
/// `n` values, `n * sum_of_squares - sum * sum == n * sq_diff`.
fn scaled_sq_diff(v: &RunningStat) -> i128 {
    let n = v.current_count() as i128;
    let s = v.current_sum() as i128;
    n * v.current_sum_squares() as i128 - s * s
}

/// The sample variance of the stream.
fn variance(v: &RunningStat) -> f64 {
    let n = v.current_count();
    if n <= 1 {
        0.0
    } else {
        scaled_sq_diff(v) as f64 / (n as f64 * (n - 1) as f64)
    }
}

fn standard_deviation(v: &RunningStat) -> f64 {
    f64::sqrt(variance(v))
}

#[test]
fn test_correct_computation() {
    let mut v = RunningStat::new();

    v.accumulate(10);

    assert_eq!(v.current_count(), 1);
    assert_eq!(v.current_sum(), 10);
    assert_eq!(mean(&v), 10.0);
    assert_eq!(scaled_sq_diff(&v), 1 * 0);
    assert_eq!(variance(&v), 0.0);
    assert_eq!(standard_deviation(&v), 0.0);

    v.accumulate(20);

    assert_eq!(v.current_count(), 2);
    assert_eq!(v.current_sum(), 30);
    assert_eq!(mean(&v), 15.0);
    assert_eq!(scaled_sq_diff(&v), 2 * 50);
    assert_eq!(variance(&v), 50.0);
    assert_eq!(standard_deviation(&v), f64::sqrt(50.0));

    v.accumulate(15);

    assert_eq!(v.current_count(), 3);
    assert_eq!(v.current_sum(), 45);
    assert_eq!(mean(&v), 15.0);
    assert_eq!(scaled_sq_diff(&v), 3 * 50);
    assert_eq!(variance(&v), 25.0);
    assert_eq!(standard_deviation(&v), f64::sqrt(25.0));

    v.accumulate(15);

    assert_eq!(v.current_count(), 4);
    assert_eq!(v.current_sum(), 60);
    assert_eq!(mean(&v), 15.0);
    assert_eq!(scaled_sq_diff(&v), 4 * 50);
    assert_eq!(variance(&v), 50.0 / 3.0);
    assert_eq!(standard_deviation(&v), f64::sqrt(50.0 / 3.0));

    v.accumulate(20);

    assert_eq!(v.current_count(), 5);
    assert_eq!(v.current_sum(), 80);
    assert_eq!(mean(&v), 16.0);
    assert_eq!(scaled_sq_diff(&v), 5 * 70);
    assert_eq!(variance(&v), 70.0 / 4.0);
    assert_eq!(standard_deviation(&v), f64::sqrt(70.0 / 4.0));
}

#[test]
fn test_min_max_absent_when_empty() {
    let v = RunningStat::new();
    assert_eq!(v.current_count(), 0);
    assert_eq!(v.current_min(), None);
    assert_eq!(v.current_max(), None);

    let mut v = RunningStat::new();
    v.accumulate(7);
    v.accumulate(3);
    v.accumulate(11);
    assert_eq!(v.current_min(), Some(3));
    assert_eq!(v.current_max(), Some(11));
}
