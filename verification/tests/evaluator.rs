use mc_pricing::path_evaluator::PathEvaluator;

fn arithmetic_mean(values: Vec<f64>) -> f64 {
    let n = values.len() as f64;
    values.iter().sum::<f64>() / n
}

#[test]
fn excluded_paths_shrink_the_denominator() {
    // Three paths; the payoff rejects exactly the one ending below zero.
    let paths: Vec<Vec<f64>> = vec![vec![1.0, 10.0], vec![1.0, -1.0], vec![1.0, 20.0]];
    let evaluator = PathEvaluator::new(&paths);

    let pay_off = |path: Vec<f64>| {
        let last = *path.last().unwrap();
        if last < 0.0 { None } else { Some(last) }
    };
    let mean = |values: Vec<f64>| arithmetic_mean(values);

    // The mean of the two kept values, not the three-way average 29/3.
    assert_eq!(evaluator.evaluate_average(&pay_off, &mean), Some(15.0));
}

#[test]
fn empty_ensemble_evaluates_to_nothing() {
    let paths: Vec<Vec<f64>> = Vec::new();
    let evaluator = PathEvaluator::new(&paths);
    let pay_off = |path: Vec<f64>| path.last().copied();
    let mean = |values: Vec<f64>| arithmetic_mean(values);
    assert_eq!(evaluator.evaluate_average(&pay_off, &mean), None);
}

#[test]
fn fully_rejecting_payoff_evaluates_to_nothing() {
    let paths: Vec<Vec<f64>> = vec![vec![1.0, 2.0], vec![3.0, 4.0]];
    let evaluator = PathEvaluator::new(&paths);
    let pay_off = |_path: Vec<f64>| -> Option<f64> { None };
    let mean = |values: Vec<f64>| arithmetic_mean(values);
    assert_eq!(evaluator.evaluate_average(&pay_off, &mean), None);
}

#[test]
fn kept_values_arrive_in_path_order() {
    let paths: Vec<Vec<u64>> = vec![vec![4], vec![9], vec![1], vec![16]];
    let evaluator = PathEvaluator::new(&paths);
    // Keep everything; aggregate by picking the first kept value.
    let pay_off = |path: Vec<u64>| Some(path[0]);
    let first = |values: Vec<u64>| values[0];
    assert_eq!(evaluator.evaluate_average(&pay_off, &first), Some(4));

    // Reject the leading path: the head of the kept values moves on.
    let skip_four = |path: Vec<u64>| if path[0] == 4 { None } else { Some(path[0]) };
    assert_eq!(evaluator.evaluate_average(&skip_four, &first), Some(9));
}

#[test]
fn average_of_all_kept_values() {
    let paths: Vec<Vec<f64>> = vec![vec![2.0], vec![4.0], vec![9.0]];
    let evaluator = PathEvaluator::new(&paths);
    let pay_off = |path: Vec<f64>| Some(path[0]);
    let mean = |values: Vec<f64>| arithmetic_mean(values);
    assert_eq!(evaluator.evaluate_average(&pay_off, &mean), Some(5.0));
}
