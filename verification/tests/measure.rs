use openml::error::{DecodeError, Field};
use openml::json::Json;
use openml::measure::{Accuracy, Measure};

fn agreement(known: &[f64], predicted: &[f64]) -> Vec<bool> {
    known.iter().zip(predicted.iter()).map(|(k, p)| k == p).collect()
}

#[test]
fn accuracy_of_two_right_out_of_three() {
    let mut acc = Accuracy::new();
    acc.update(&agreement(&[1.0, 2.0, 3.0], &[1.0, 2.0, 4.0]));
    assert_eq!(acc.result(), (2, 3));
    let (right, all) = acc.result();
    assert_eq!(right as f64 / all as f64, 2.0 / 3.0);
}

#[test]
fn accuracy_adds_up_over_batches() {
    let mut acc = Accuracy::new();
    acc.update(&[true, false]);
    acc.update(&[]);
    acc.update(&[true, true, false]);
    assert_eq!(acc.n_correct, 3);
    assert_eq!(acc.n_wrong, 2);
    assert_eq!(acc.result(), (3, 5));
}

#[test]
fn accuracy_before_any_prediction() {
    let acc = Accuracy::new();
    assert_eq!(acc.result(), (0, 0));
    let (right, all) = acc.result();
    assert!((right as f64 / all as f64).is_nan());
}

#[test]
fn accuracy_pairs_up_to_the_shorter() {
    let mut acc = Accuracy::new();
    acc.update(&agreement(&[1.0, 2.0, 3.0], &[1.0]));
    assert_eq!(acc.result(), (1, 1));
}

fn block(measure: &str) -> Json {
    let text = format!(
        r#"{{"name": "evaluation_measures", "evaluation_measures": {{"evaluation_measure": {}}}}}"#,
        measure
    );
    Json::parse(&text).unwrap()
}

#[test]
fn measure_by_name() {
    assert_eq!(Measure::new(&block(r#""predictive_accuracy""#)), Ok(Some(Measure::PredictiveAccuracy)));
    assert_eq!(
        Measure::new(&block(r#""root_mean_squared_error""#)),
        Ok(Some(Measure::RootMeanSquaredError))
    );
}

#[test]
fn measure_left_open_by_an_empty_array() {
    assert_eq!(Measure::new(&block("[]")), Ok(None));
}

#[test]
fn measure_of_another_name_is_unsupported() {
    assert_eq!(Measure::new(&block(r#""area_under_roc_curve""#)), Err(DecodeError::UnsupportedMeasure));
    assert_eq!(Measure::new(&block(r#"["predictive_accuracy"]"#)), Err(DecodeError::UnsupportedMeasure));
    assert_eq!(Measure::new(&block("3")), Err(DecodeError::UnsupportedMeasure));
}

#[test]
fn measure_that_is_not_there() {
    let item = Json::parse(r#"{"name": "evaluation_measures"}"#).unwrap();
    assert_eq!(Measure::new(&item), Err(DecodeError::Missing(Field::EvaluationMeasures)));
    let item = Json::parse(r#"{"evaluation_measures": {}}"#).unwrap();
    assert_eq!(Measure::new(&item), Err(DecodeError::Missing(Field::EvaluationMeasures)));
}
