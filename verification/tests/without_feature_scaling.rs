use multivariable_linear_regression::json_converter::{training_data_from_parsed, TrainingData};
use multivariable_linear_regression::without_feature_scaling::WithoutFeatureScaling;

fn rental_model(coefficients: Vec<f64>) -> WithoutFeatureScaling<f64> {
    WithoutFeatureScaling::new(
        vec![vec![55.0, 1.0], vec![130.0, 4.0], vec![85.0, 2.0]],
        vec![23000.0, 48500.0, 32000.0],
        coefficients,
    )
}

/// `a_j - alpha * dJ/da_j` for a feature, `b - alpha * dJ/db` for the bias.
fn gradient_step(alpha: f64) -> impl Fn(&WithoutFeatureScaling<f64>, usize) -> f64 {
    move |model: &WithoutFeatureScaling<f64>, j: usize| {
        let c = model.coefficients();
        let x = model.real_inputs();
        let y = model.real_outputs();
        let m = model.m();
        let n = model.n();
        let f = |i: usize| {
            let mut result = 0.0;
            for k in 0..n {
                result += c[k] * x[i][k];
            }
            result + c[n]
        };
        let mut sum = 0.0;
        for i in 0..m {
            let error = f(i) - y[i];
            sum += if j < n { x[i][j] * error } else { error };
        }
        c[j] - alpha * (sum * 2.0 / (m as f64))
    }
}

fn cost(model: &WithoutFeatureScaling<f64>) -> f64 {
    let c = model.coefficients();
    let mut result = 0.0;
    for i in 0..model.m() {
        let mut f = 0.0;
        for k in 0..model.n() {
            f += c[k] * model.real_inputs()[i][k];
        }
        f += c[model.n()];
        result += (f - model.real_outputs()[i]).powi(2);
    }
    result / (model.m() as f64)
}

#[test]
fn new_derives_the_sizes_from_the_data() {
    let model = rental_model(vec![0.0; 3]);

    assert_eq!(model.m(), 3);
    assert_eq!(model.n(), 2);
    assert_eq!(model.coefficients(), &vec![0.0, 0.0, 0.0]);
    assert_eq!(model.real_outputs(), &vec![23000.0, 48500.0, 32000.0]);
    assert_eq!(model.real_inputs()[1], vec![130.0, 4.0]);
}

#[test]
fn new_takes_the_feature_count_from_the_first_sample_only() {
    let model = WithoutFeatureScaling::new(vec![vec![1.0], vec![2.0, 3.0]], vec![4.0, 5.0], vec![0.0, 0.0]);

    assert_eq!(model.n(), 1);
    assert_eq!(model.m(), 2);
}

#[test]
fn every_coefficient_is_updated_from_the_old_ones() {
    let mut model = WithoutFeatureScaling::new(vec![vec![0, 0]], vec![0], vec![1, 2, 3]);
    let rotate = |model: &WithoutFeatureScaling<i32>, j: usize| {
        let c = model.coefficients();
        c[(j + 1) % c.len()]
    };

    model.descend(1, &rotate);
    assert_eq!(model.coefficients(), &vec![2, 3, 1]);

    model.descend(2, &rotate);
    assert_eq!(model.coefficients(), &vec![1, 2, 3]);
}

#[test]
fn zero_iterations_change_nothing() {
    let mut model = rental_model(vec![1.0, 2.0, 3.0]);

    model.descend(0, &gradient_step(0.000003));
    assert_eq!(model.coefficients(), &vec![1.0, 2.0, 3.0]);
}

#[test]
fn one_iteration_takes_one_gradient_step() {
    let mut model = WithoutFeatureScaling::new(vec![vec![1.0], vec![2.0]], vec![2.0, 4.0], vec![0.0, 0.0]);

    model.descend(1, &gradient_step(0.25));
    // dJ/da = (2/2) * (1 * -2 + 2 * -4) = -10, dJ/db = (2/2) * (-2 - 4) = -6
    assert_eq!(model.coefficients(), &vec![2.5, 1.5]);
}

#[test]
fn training_lowers_the_cost() {
    let mut model = rental_model(vec![0.0; 3]);
    let before = cost(&model);

    model.descend(1_000, &gradient_step(0.000003));
    assert!(cost(&model) < before);
    assert_eq!(model.coefficients().len(), 3);
    assert_eq!(model.m(), 3);
    assert_eq!(model.n(), 2);
}

#[test]
fn two_runs_equal_one_run_through_both() {
    let mut split = rental_model(vec![0.0; 3]);
    let mut whole = rental_model(vec![0.0; 3]);
    let step = gradient_step(0.000003);

    split.descend(40, &step);
    split.descend(60, &step);
    whole.descend(100, &step);
    assert_eq!(split.coefficients(), whole.coefficients());
}

#[test]
fn validated_data_builds_a_model() {
    let set = TrainingData { inputs: vec![vec![55.0, 1.0], vec![130.0, 4.0]], outputs: vec![23000.0, 48500.0] };
    let (inputs, outputs) = training_data_from_parsed(Ok(set)).unwrap();
    let n = inputs[0].len();
    let model = WithoutFeatureScaling::new(inputs, outputs, vec![0.0; n + 1]);

    assert_eq!(model.coefficients().len(), 3);
}
