use mc_pricing::gbm::GeometricBrownianMotion;
use mc_pricing::monte_carlo::MonteCarloPathSimulator;
use mc_pricing::path_evaluator::PathEvaluator;
use mc_pricing::multivariate_gbm::MultivariateGeometricBrownianMotion;
use mc_pricing::source::InnovationSource;
use mc_pricing::ConfigurationError;

/// The Euler-Maruyama transition of a scalar geometric Brownian motion.
fn euler_step(gbm: &GeometricBrownianMotion<f64>, st: f64, z: f64) -> f64 {
    let d_st = st * (gbm.mu * gbm.dt + gbm.sigma * gbm.dt.sqrt() * z);
    st + d_st
}

/// The exact (analytic) transition of a scalar geometric Brownian motion.
fn analytic_step(gbm: &GeometricBrownianMotion<f64>, st: f64, z: f64) -> f64 {
    let ret = gbm.dt * (gbm.mu - gbm.sigma.powi(2) / 2.0) + gbm.dt.sqrt() * gbm.sigma * z;
    st * ret.exp()
}

/// One step of the correlated multivariate transition: the elementwise
/// product of the current state with `dt * drift + sqrt(dt) * (L . z)`,
/// added to the current state.
fn multivariate_sample(
    model: &MultivariateGeometricBrownianMotion<f64>,
    st: Vec<f64>,
    z: Vec<f64>,
) -> Vec<f64> {
    let d = model.drifts.len();
    let mut next = Vec::with_capacity(d);
    for i in 0..d {
        let mut dot = 0.0;
        for j in 0..d {
            dot += model.cholesky_factor[i][j] * z[j];
        }
        let d_st = model.dt * model.drifts[i] + model.dt.sqrt() * dot;
        next.push(st[i] + d_st * st[i]);
    }
    next
}

/// A deterministic test source: draw `k` of seed `s` is `s + k`, as `f64`.
struct CountingSource {
    seed: u64,
    k: u64,
}

impl InnovationSource<f64> for CountingSource {
    // The three spec items of the trait are erased before compilation and
    // never called at run time; their bodies here only satisfy the compiler.
    fn draw(_seed: u64, _k: vstd::prelude::nat) -> f64 {
        unreachable!()
    }

    fn seed_of(&self) -> u64 {
        self.seed
    }

    fn pos(&self) -> vstd::prelude::nat {
        unreachable!()
    }

    fn from_seed(seed: u64) -> Self {
        CountingSource { seed, k: 0 }
    }

    fn from_entropy() -> Self {
        CountingSource { seed: 0, k: 0 }
    }

    fn next(&mut self) -> f64 {
        let v = (self.seed + self.k) as f64;
        self.k += 1;
        v
    }
}

#[test]
fn gbm_euler_step_worked_example() {
    let gbm = GeometricBrownianMotion::new(300.0, 0.01, 50.0 / 365.0, 0.1);
    assert_eq!(euler_step(&gbm, 300.0, 0.0), 300.3);
}

#[test]
fn gbm_analytic_step_drift_only() {
    let gbm = GeometricBrownianMotion::new(300.0, 0.01, 0.0, 0.1);
    let expected = 300.0 * (0.01f64 * 0.1).exp();
    assert_eq!(analytic_step(&gbm, 300.0, 0.0), expected);
}

#[test]
fn gbm_generate_path_prepends_initial_state() {
    let gbm = GeometricBrownianMotion::new(300.0, 0.01, 50.0 / 365.0, 0.1);
    let step = |st: f64, z: f64| euler_step(&gbm, st, z);
    let normals = vec![0.0, 1.0, -1.0, 0.5];
    let path = gbm.generate_path(300.0, &normals, &step);
    assert_eq!(path.len(), 5);
    assert_eq!(path[0], 300.0);
    assert_eq!(path[1], 300.3);
    for i in 0..4 {
        assert_eq!(path[i + 1], euler_step(&gbm, path[i], normals[i]));
    }
}

#[test]
fn gbm_generate_path_analytic_variant() {
    let gbm = GeometricBrownianMotion::new(120.0, 0.02, 0.3, 0.25);
    let step = |st: f64, z: f64| analytic_step(&gbm, st, z);
    let normals = vec![0.4, -0.7, 0.1];
    let path = gbm.generate_path(120.0, &normals, &step);
    assert_eq!(path.len(), 4);
    assert_eq!(path[0], 120.0);
    for i in 0..3 {
        assert_eq!(path[i + 1], analytic_step(&gbm, path[i], normals[i]));
    }
}

#[test]
fn gbm_generate_in_place_matches_generate_path() {
    let gbm = GeometricBrownianMotion::new(80.0, 0.05, 0.2, 0.5);
    let step = |st: f64, z: f64| euler_step(&gbm, st, z);
    let normals = vec![0.3, -0.2, 1.5, 0.0, -0.9];
    let fresh = gbm.generate_path(80.0, &normals, &step);

    let mut buffer = normals.clone();
    gbm.generate_in_place(&mut buffer, &step);
    assert_eq!(buffer.as_slice(), &fresh[1..]);
}

#[test]
fn sample() {
    let initial_values = vec![1.0, 2.0, 3.0];
    let drifts = vec![0.1, 0.2, 0.3];
    let cholesky_factor = vec![
        vec![1.0, 0.5, 0.1],
        vec![0.0, 0.6, 0.7],
        vec![0.0, 0.0, 0.8],
    ];
    let dt = 4.0;

    let mv_gbm =
        MultivariateGeometricBrownianMotion::new(initial_values, drifts, cholesky_factor, dt)
            .unwrap();

    let rand_normals = vec![0.1, -0.1, 0.05];
    let start = mv_gbm.initial_values.clone();
    let sample = multivariate_sample(&mv_gbm, start, rand_normals);
    assert_eq!(sample, vec![1.51, 3.5, 6.84]);
}

#[test]
fn multivariate_sample_path_consumes_draws_in_step_chunks() {
    let model = MultivariateGeometricBrownianMotion::new(
        vec![5.0, 6.0, 7.0],
        vec![0.0, 0.0, 0.0],
        vec![
            vec![1.0, 0.0, 0.0],
            vec![0.0, 1.0, 0.0],
            vec![0.0, 0.0, 1.0],
        ],
        1.0,
    )
    .unwrap();

    // The sample function hands back the draw vector, exposing the chunking.
    let keep_draws = |_st: Vec<f64>, z: Vec<f64>| z;
    let mut source = CountingSource::from_seed(100);
    let path = model.sample_path(2, &mut source, &keep_draws);

    assert_eq!(path.len(), 3);
    assert_eq!(path[0], vec![5.0, 6.0, 7.0]);
    assert_eq!(path[1], vec![100.0, 101.0, 102.0]);
    assert_eq!(path[2], vec![103.0, 104.0, 105.0]);
}

#[test]
fn multivariate_sample_path_applies_the_model() {
    let model = MultivariateGeometricBrownianMotion::new(
        vec![1.0, 2.0, 3.0],
        vec![0.1, 0.2, 0.3],
        vec![
            vec![1.0, 0.5, 0.1],
            vec![0.0, 0.6, 0.7],
            vec![0.0, 0.0, 0.8],
        ],
        4.0,
    )
    .unwrap();

    let step = |st: Vec<f64>, z: Vec<f64>| multivariate_sample(&model, st, z);
    let mut source = CountingSource::from_seed(0);
    let path = model.sample_path(3, &mut source, &step);

    assert_eq!(path.len(), 4);
    assert_eq!(path[0], vec![1.0, 2.0, 3.0]);
    let mut expected = vec![1.0, 2.0, 3.0];
    for s in 0..3 {
        let z: Vec<f64> = (0..3).map(|j| (s * 3 + j) as f64).collect();
        expected = multivariate_sample(&model, expected, z);
        assert_eq!(path[s + 1], expected);
    }
}

#[test]
fn mismatched_cholesky_dimension_is_rejected() {
    let r = MultivariateGeometricBrownianMotion::new(
        vec![1.0, 2.0, 3.0],
        vec![0.1, 0.2, 0.3],
        vec![vec![1.0, 0.0], vec![0.0, 1.0]],
        0.5,
    );
    assert_eq!(r.err(), Some(ConfigurationError::DimensionMismatch));
}

#[test]
fn non_square_cholesky_factor_is_rejected() {
    let r = MultivariateGeometricBrownianMotion::new(
        vec![1.0, 2.0],
        vec![0.1, 0.2],
        vec![vec![1.0, 0.0], vec![0.0]],
        0.5,
    );
    assert_eq!(r.err(), Some(ConfigurationError::DimensionMismatch));
}

#[test]
fn mismatched_drift_length_is_rejected() {
    let r = MultivariateGeometricBrownianMotion::new(
        vec![1.0, 2.0, 3.0],
        vec![0.1, 0.2],
        vec![
            vec![1.0, 0.0, 0.0],
            vec![0.0, 1.0, 0.0],
            vec![0.0, 0.0, 1.0],
        ],
        0.5,
    );
    assert_eq!(r.err(), Some(ConfigurationError::DimensionMismatch));
}

#[test]
fn matching_dimensions_are_accepted() {
    let r = MultivariateGeometricBrownianMotion::new(
        vec![1.0, 2.0],
        vec![0.1, 0.2],
        vec![vec![1.0, 0.0], vec![0.3, 0.9]],
        0.5,
    );
    let model = r.unwrap();
    assert_eq!(model.dimension(), 2);
    assert_eq!(model.dt, 0.5);
}

#[test]
fn consecutive_paths_consume_disjoint_stream_segments() {
    let model = MultivariateGeometricBrownianMotion::new(
        vec![0.0, 0.0, 0.0],
        vec![0.0, 0.0, 0.0],
        vec![
            vec![1.0, 0.0, 0.0],
            vec![0.0, 1.0, 0.0],
            vec![0.0, 0.0, 1.0],
        ],
        1.0,
    )
    .unwrap();

    let keep_draws = |_st: Vec<f64>, z: Vec<f64>| z;
    let mut source = CountingSource::from_seed(0);
    let first = model.sample_path(2, &mut source, &keep_draws);
    let second = model.sample_path(2, &mut source, &keep_draws);

    assert_eq!(first[1], vec![0.0, 1.0, 2.0]);
    assert_eq!(first[2], vec![3.0, 4.0, 5.0]);
    assert_eq!(second[1], vec![6.0, 7.0, 8.0]);
    assert_eq!(second[2], vec![9.0, 10.0, 11.0]);
}

#[test]
fn seeded_pipeline_evaluates_reproducibly() {
    let gbm = GeometricBrownianMotion::new(100.0, 0.05, 0.2, 0.01);
    let step = |st: f64, z: f64| euler_step(&gbm, st, z);
    let pay_off = |path: Vec<f64>| path.last().copied();
    let mean = |values: Vec<f64>| {
        let n = values.len() as f64;
        values.iter().sum::<f64>() / n
    };

    let simulator: MonteCarloPathSimulator<(), CountingSource> =
        MonteCarloPathSimulator::new((), Some(5));
    let paths = simulator.simulate_paths_with(4, 10, 100.0, &step);
    let evaluator = PathEvaluator::new(&paths);
    let value = evaluator.evaluate_average(&pay_off, &mean);
    assert!(value.is_some());

    let paths_again = simulator.simulate_paths_with(4, 10, 100.0, &step);
    assert_eq!(paths, paths_again);
    let evaluator_again = PathEvaluator::new(&paths_again);
    assert_eq!(evaluator_again.evaluate_average(&pay_off, &mean), value);
}
