use openml::dataset::{resolve_target, DataSet, DataSetInfo};
use openml::error::{DecodeError, Field};
use openml::json::Json;
use openml::measure::Measure;
use openml::request::{CostMatrix, TaskRequest, TaskType};

fn task_doc(task_type_id: &str, blocks: &[&str]) -> Json {
    let text = format!(
        r#"{{"task": {{"task_id": "31", "task_name": "Task 31", "task_type_id": {}, "input": [{}]}}}}"#,
        task_type_id,
        blocks.join(", ")
    );
    Json::parse(&text).unwrap()
}

const SOURCE: &str =
    r#"{"name": "source_data", "data_set": {"data_set_id": "61", "target_feature": "class"}}"#;
const SOURCE_WITHOUT_TARGET: &str = r#"{"name": "source_data", "data_set": {"data_set_id": "61"}}"#;
const PROCEDURE: &str = r#"{"name": "estimation_procedure", "estimation_procedure": {"type": "crossvalidation", "data_splits_url": "https://www.openml.org/api_splits/get/31/Task_31_splits.arff"}}"#;
const COST_MATRIX: &str = r#"{"name": "cost_matrix", "cost_matrix": []}"#;
const ACCURACY: &str = r#"{"name": "evaluation_measures", "evaluation_measures": {"evaluation_measure": "predictive_accuracy"}}"#;
const RMSE: &str = r#"{"name": "evaluation_measures", "evaluation_measures": {"evaluation_measure": "root_mean_squared_error"}}"#;
const NO_MEASURE: &str =
    r#"{"name": "evaluation_measures", "evaluation_measures": {"evaluation_measure": []}}"#;

fn decode(task_type_id: &str, blocks: &[&str]) -> Result<TaskRequest, DecodeError> {
    TaskRequest::from_json(&task_doc(task_type_id, blocks))
}

#[test]
fn classification_without_measure_is_judged_by_accuracy() {
    let request = decode(r#""1""#, &[SOURCE, PROCEDURE, COST_MATRIX]).unwrap();
    assert_eq!(request.task_type, TaskType::SupervisedClassification);
    assert_eq!(request.evaluation_measures, Measure::PredictiveAccuracy);
    assert_eq!(request.cost_matrix, Some(CostMatrix::Empty));
    assert_eq!(request.task_id, "31");
    assert_eq!(request.task_name, "Task 31");
    assert_eq!(request.data_set_id, "61");
    assert_eq!(request.target_feature.as_deref(), Some("class"));
    assert_eq!(
        request.data_splits_url,
        "https://www.openml.org/api_splits/get/31/Task_31_splits.arff"
    );
}

#[test]
fn classification_with_an_empty_measure_keeps_accuracy() {
    let request = decode(r#""1""#, &[SOURCE, PROCEDURE, COST_MATRIX, NO_MEASURE]).unwrap();
    assert_eq!(request.evaluation_measures, Measure::PredictiveAccuracy);
    let request = decode(r#""1""#, &[RMSE, SOURCE, PROCEDURE, COST_MATRIX, NO_MEASURE]).unwrap();
    assert_eq!(request.evaluation_measures, Measure::RootMeanSquaredError);
}

#[test]
fn regression_takes_its_measure_from_the_block() {
    let request = decode(r#""2""#, &[SOURCE_WITHOUT_TARGET, PROCEDURE, RMSE]).unwrap();
    assert_eq!(request.task_type, TaskType::SupervisedRegression);
    assert_eq!(request.evaluation_measures, Measure::RootMeanSquaredError);
    assert_eq!(request.cost_matrix, None);
    assert_eq!(request.target_feature, None);
}

#[test]
fn regression_needs_a_measure() {
    assert_eq!(
        decode(r#""2""#, &[SOURCE, PROCEDURE]).unwrap_err(),
        DecodeError::Missing(Field::EvaluationMeasures)
    );
    assert_eq!(
        decode(r#""2""#, &[SOURCE, PROCEDURE, RMSE, NO_MEASURE]).unwrap_err(),
        DecodeError::Missing(Field::EvaluationMeasures)
    );
}

#[test]
fn regression_passes_over_a_cost_matrix() {
    let block = r#"{"name": "cost_matrix", "cost_matrix": [[0, 1], [1, 0]]}"#;
    let request = decode(r#""2""#, &[SOURCE, PROCEDURE, ACCURACY, block]).unwrap();
    assert_eq!(request.cost_matrix, None);
    assert_eq!(request.evaluation_measures, Measure::PredictiveAccuracy);
}

#[test]
fn unsupported_task_type_is_an_error() {
    assert_eq!(
        decode(r#""99""#, &[SOURCE, PROCEDURE, COST_MATRIX, ACCURACY]).unwrap_err(),
        DecodeError::UnsupportedTaskType
    );
    assert_eq!(decode("1", &[SOURCE, PROCEDURE, COST_MATRIX]).unwrap_err(), DecodeError::UnsupportedTaskType);
    assert_eq!(decode(r#""""#, &[]).unwrap_err(), DecodeError::UnsupportedTaskType);
    let doc = Json::parse(r#"{"task": {"task_id": "1", "task_name": "n", "input": []}}"#).unwrap();
    assert_eq!(TaskRequest::from_json(&doc).unwrap_err(), DecodeError::UnsupportedTaskType);
}

#[test]
fn blocks_of_other_names_say_nothing() {
    let other = r#"{"name": "custom_testset", "custom_testset": 5}"#;
    let request = decode(r#""1""#, &[other, SOURCE, other, PROCEDURE, COST_MATRIX]).unwrap();
    assert_eq!(request.data_set_id, "61");
}

#[test]
fn the_last_block_of_a_name_counts() {
    let second = r#"{"name": "source_data", "data_set": {"data_set_id": "62"}}"#;
    let request = decode(r#""1""#, &[SOURCE, PROCEDURE, COST_MATRIX, second]).unwrap();
    assert_eq!(request.data_set_id, "62");
    assert_eq!(request.target_feature, None);
}

#[test]
fn a_task_needs_its_parts() {
    let missing = |blocks: &[&str]| decode(r#""1""#, blocks).unwrap_err();
    assert_eq!(missing(&[PROCEDURE, COST_MATRIX]), DecodeError::Missing(Field::SourceData));
    assert_eq!(missing(&[SOURCE, COST_MATRIX]), DecodeError::Missing(Field::EstimationProcedure));
    assert_eq!(missing(&[SOURCE, PROCEDURE]), DecodeError::Missing(Field::CostMatrix));
    assert_eq!(missing(&[]), DecodeError::Missing(Field::SourceData));
}

#[test]
fn a_block_needs_its_fields() {
    let first_error = |block: &str| decode(r#""1""#, &[block]).unwrap_err();
    assert_eq!(first_error(r#"{"data_set": {}}"#), DecodeError::Missing(Field::BlockName));
    assert_eq!(first_error(r#"{"name": 3}"#), DecodeError::Missing(Field::BlockName));
    assert_eq!(first_error(r#"{"name": "source_data"}"#), DecodeError::Missing(Field::DataSetId));
    assert_eq!(
        first_error(r#"{"name": "source_data", "data_set": {"data_set_id": 61}}"#),
        DecodeError::Missing(Field::DataSetId)
    );
    assert_eq!(
        first_error(r#"{"name": "estimation_procedure", "estimation_procedure": {"type": "holdout"}}"#),
        DecodeError::Missing(Field::DataSplitsUrl)
    );
    assert_eq!(first_error(r#"{"name": "cost_matrix"}"#), DecodeError::Missing(Field::CostMatrix));
    assert_eq!(
        first_error(r#"{"name": "cost_matrix", "cost_matrix": "none"}"#),
        DecodeError::Missing(Field::CostMatrix)
    );
    assert_eq!(
        first_error(r#"{"name": "evaluation_measures"}"#),
        DecodeError::Missing(Field::EvaluationMeasures)
    );
}

#[test]
fn a_cost_matrix_with_entries_is_unsupported() {
    let block = r#"{"name": "cost_matrix", "cost_matrix": [[0, 1], [1, 0]]}"#;
    assert_eq!(
        decode(r#""1""#, &[SOURCE, PROCEDURE, block]).unwrap_err(),
        DecodeError::UnsupportedCostMatrix
    );
    let item = Json::parse(block).unwrap();
    assert_eq!(CostMatrix::from(&item), Err(DecodeError::UnsupportedCostMatrix));
    assert_eq!(CostMatrix::from(&Json::parse(COST_MATRIX).unwrap()), Ok(CostMatrix::Empty));
}

#[test]
fn an_unknown_measure_is_unsupported() {
    let block = r#"{"name": "evaluation_measures", "evaluation_measures": {"evaluation_measure": "f_measure"}}"#;
    assert_eq!(
        decode(r#""1""#, &[SOURCE, PROCEDURE, COST_MATRIX, block]).unwrap_err(),
        DecodeError::UnsupportedMeasure
    );
}

#[test]
fn the_first_block_that_cannot_be_read_decides() {
    let bad_matrix = r#"{"name": "cost_matrix", "cost_matrix": [1]}"#;
    let bad_source = r#"{"name": "source_data"}"#;
    assert_eq!(decode(r#""1""#, &[bad_matrix, bad_source]).unwrap_err(), DecodeError::UnsupportedCostMatrix);
    assert_eq!(
        decode(r#""1""#, &[bad_source, bad_matrix]).unwrap_err(),
        DecodeError::Missing(Field::DataSetId)
    );
}

#[test]
fn a_document_needs_the_task_and_its_fields() {
    let decode_text = |text: &str| TaskRequest::from_json(&Json::parse(text).unwrap()).unwrap_err();
    assert_eq!(decode_text("{}"), DecodeError::Missing(Field::Task));
    assert_eq!(decode_text("[]"), DecodeError::Missing(Field::Task));
    assert_eq!(decode_text(r#"{"task": {}}"#), DecodeError::Missing(Field::TaskId));
    assert_eq!(decode_text(r#"{"task": {"task_id": 31}}"#), DecodeError::Missing(Field::TaskId));
    assert_eq!(decode_text(r#"{"task": {"task_id": "31"}}"#), DecodeError::Missing(Field::TaskName));
    assert_eq!(
        decode_text(r#"{"task": {"task_id": "31", "task_name": "n", "task_type_id": "1"}}"#),
        DecodeError::Missing(Field::Input)
    );
    assert_eq!(
        decode_text(r#"{"task": {"task_id": "31", "task_name": "n", "task_type_id": "1", "input": {}}}"#),
        DecodeError::Missing(Field::Input)
    );
}

#[test]
fn data_set_description_gives_target_and_address() {
    let doc = Json::parse(
        r#"{"data_set_description": {"id": "61", "default_target_attribute": "class", "url": "https://www.openml.org/data/v1/download/61/iris.arff"}}"#,
    )
    .unwrap();
    let info = DataSetInfo::from_json(&doc).unwrap();
    assert_eq!(info.default_target.as_deref(), Some("class"));
    assert_eq!(info.url, "https://www.openml.org/data/v1/download/61/iris.arff");
}

#[test]
fn data_set_description_without_target() {
    let doc = Json::parse(r#"{"data_set_description": {"url": "u"}}"#).unwrap();
    let info = DataSetInfo::from_json(&doc).unwrap();
    assert_eq!(info.default_target, None);
    assert_eq!(info.url, "u");
}

#[test]
fn data_set_description_needs_the_address() {
    let doc = Json::parse(r#"{"data_set_description": {"default_target_attribute": "class"}}"#).unwrap();
    assert_eq!(DataSetInfo::from_json(&doc).unwrap_err(), DecodeError::Missing(Field::DataSetUrl));
    let doc = Json::parse(r#"{"url": "u"}"#).unwrap();
    assert_eq!(DataSetInfo::from_json(&doc).unwrap_err(), DecodeError::Missing(Field::DataSetUrl));
}

#[test]
fn requested_target_goes_before_the_default() {
    let label = || Some("label".to_string());
    let class = || Some("class".to_string());
    assert_eq!(resolve_target(class(), label()), label());
    assert_eq!(resolve_target(class(), None), class());
    assert_eq!(resolve_target(None, label()), label());
    assert_eq!(resolve_target(None, None), None);
}

fn names(columns: &[&str]) -> Vec<String> {
    columns.iter().map(|c| c.to_string()).collect()
}

#[test]
fn data_set_with_the_requested_target() {
    let target = resolve_target(Some("class".to_string()), Some("label".to_string()));
    let data = DataSet::new(names(&["a", "label", "class"]), 10, target).unwrap();
    assert_eq!(data.target().map(|t| t.as_str()), Some("label"));
    assert_eq!(data.n_rows(), 10);
    assert_eq!(data.columns(), &names(&["a", "label", "class"]));
    assert_eq!(data.feature_columns(), vec![0, 2]);
    assert_eq!(data.target_column(), Some(1));
}

#[test]
fn data_set_without_target_is_all_features() {
    let data = DataSet::new(names(&["a", "b"]), 3, None).unwrap();
    assert_eq!(data.target(), None);
    assert_eq!(data.feature_columns(), vec![0, 1]);
    assert_eq!(data.target_column(), None);
}

#[test]
fn data_set_refuses_a_target_that_is_no_column() {
    let r = DataSet::new(names(&["a", "b"]), 3, Some("class".to_string()));
    assert_eq!(r.unwrap_err(), DecodeError::UnknownTarget);
    let r = DataSet::new(vec![], 0, Some("class".to_string()));
    assert_eq!(r.unwrap_err(), DecodeError::UnknownTarget);
}

#[test]
fn columns_of_the_target_name_are_no_features() {
    let data = DataSet::new(names(&["y", "x", "y"]), 1, Some("y".to_string())).unwrap();
    assert_eq!(data.feature_columns(), vec![1]);
    assert_eq!(data.target_column(), Some(0));
}
