use multivariable_linear_regression::json_converter::{
    training_data_from_parsed, validate, JsonConverterError, TrainingData,
};

fn data(inputs: Vec<Vec<f64>>, outputs: Vec<f64>) -> TrainingData<f64> {
    TrainingData { inputs, outputs }
}

fn valid() -> TrainingData<f64> {
    data(
        vec![vec![55.0, 1.0], vec![130.0, 4.0], vec![85.0, 2.0]],
        vec![23000.0, 48500.0, 32000.0],
    )
}

#[test]
fn parses_a_valid_training_set() {
    let (inputs, outputs) = training_data_from_parsed(Ok(valid())).unwrap();

    assert_eq!(inputs, vec![vec![55.0, 1.0], vec![130.0, 4.0], vec![85.0, 2.0]]);
    assert_eq!(outputs, vec![23000.0, 48500.0, 32000.0]);
}

#[test]
fn rejects_an_empty_data_set() {
    assert!(matches!(
        training_data_from_parsed::<f64>(Ok(data(vec![], vec![]))),
        Err(JsonConverterError::EmptyDataSet)
    ));
}

#[test]
fn rejects_a_sample_count_mismatch() {
    let set = data(vec![vec![55.0, 1.0], vec![130.0, 4.0]], vec![23000.0]);

    assert!(matches!(
        training_data_from_parsed(Ok(set)),
        Err(JsonConverterError::SampleCountMismatch { inputs: 2, outputs: 1 })
    ));
}

#[test]
fn rejects_a_ragged_sample() {
    let set = data(vec![vec![55.0, 1.0], vec![130.0]], vec![23000.0, 48500.0]);

    assert!(matches!(
        training_data_from_parsed(Ok(set)),
        Err(JsonConverterError::RaggedSample { index: 1, expected: 2, found: 1 })
    ));
}

#[test]
fn rejects_malformed_json() {
    let parsed = serde_json::from_str::<serde_json::Value>("{\"inputs\": [");
    let error = parsed.unwrap_err();

    assert!(matches!(
        training_data_from_parsed::<f64>(Err(error)),
        Err(JsonConverterError::Json(_))
    ));
}

#[test]
fn empty_set_is_reported_before_a_count_mismatch() {
    let set = data(vec![], vec![23000.0]);

    assert!(matches!(validate(&set), Err(JsonConverterError::EmptyDataSet)));
}

#[test]
fn count_mismatch_is_reported_before_a_ragged_sample() {
    let set = data(vec![vec![55.0, 1.0], vec![130.0]], vec![23000.0]);

    assert!(matches!(
        validate(&set),
        Err(JsonConverterError::SampleCountMismatch { inputs: 2, outputs: 1 })
    ));
}

#[test]
fn the_first_ragged_sample_is_reported() {
    let set = data(
        vec![vec![1.0, 2.0], vec![3.0, 4.0], vec![5.0, 6.0, 7.0], vec![8.0]],
        vec![1.0, 2.0, 3.0, 4.0],
    );

    assert!(matches!(
        validate(&set),
        Err(JsonConverterError::RaggedSample { index: 2, expected: 2, found: 3 })
    ));
}

#[test]
fn a_sample_without_features_is_ragged_against_a_wider_first_one() {
    let set = data(vec![vec![1.0], vec![]], vec![1.0, 2.0]);

    assert!(matches!(
        validate(&set),
        Err(JsonConverterError::RaggedSample { index: 1, expected: 1, found: 0 })
    ));
}

#[test]
fn samples_without_features_all_pass() {
    let set = data(vec![vec![], vec![]], vec![1.0, 2.0]);

    assert!(validate(&set).is_ok());
}

#[test]
fn a_single_sample_passes() {
    let set = data(vec![vec![55.0, 1.0]], vec![23000.0]);

    assert!(validate(&set).is_ok());
    let (inputs, outputs) = training_data_from_parsed(Ok(set)).unwrap();
    assert_eq!(inputs, vec![vec![55.0, 1.0]]);
    assert_eq!(outputs, vec![23000.0]);
}

#[test]
fn a_json_error_converts_into_the_json_variant() {
    let error = serde_json::from_str::<serde_json::Value>("[1, 2").unwrap_err();
    let line = error.line();

    match JsonConverterError::from(error) {
        JsonConverterError::Json(inner) => assert_eq!(inner.line(), line),
        other => panic!("unexpected variant {other:?}"),
    }
}
