//! The description of a task, decoded: what is to be fetched and how the
//! task is to be judged.

use crate::error::{DecodeError, Field};
use crate::json::{lemma_items_view, Json, JsonView};
use crate::measure::{measure_of, Measure};
use crate::text::{chars, copied, same};
use vstd::prelude::*;

verus! {

/// The supported types of task.
#[derive(Debug, Clone, Copy, PartialEq, Eq, Structural)]
pub enum TaskType {
    /// `task_type_id` "1".
    SupervisedClassification,
    /// `task_type_id` "2".
    SupervisedRegression,
}

/// The cost matrix of a classification task. Only the empty one is supported.
#[derive(Debug, Clone, Copy, PartialEq, Eq, Structural)]
pub enum CostMatrix {
    /// The matrix without entries.
    Empty,
}

/// What a block `source_data` says.
pub struct SourceView {
    pub data_set_id: Seq<char>,
    /// The target that the task asks for.
    pub target_feature: Option<Seq<char>>,
}

/// What the blocks of a task's `input` have said so far.
pub struct Blocks {
    /// The data set's id and the requested target, of the last block `source_data`.
    pub source: Option<SourceView>,
    /// The address of the split plan, of the last block `estimation_procedure`.
    pub splits: Option<Seq<char>>,
    pub cost_matrix: Option<CostMatrix>,
    pub measure: Option<Measure>,
}

/// A task's description, as characters.
pub struct TaskRequestView {
    pub task_id: Seq<char>,
    pub task_name: Seq<char>,
    pub task_type: TaskType,
    pub data_set_id: Seq<char>,
    pub target_feature: Option<Seq<char>>,
    pub data_splits_url: Seq<char>,
    pub cost_matrix: Option<CostMatrix>,
    pub evaluation_measures: Measure,
}

/// The type of task that `task_type_id` names.
pub open spec fn task_type_of(task: JsonView) -> Result<TaskType, DecodeError> {
    match task.text_at("task_type_id"@) {
        Some(code) => if code == "1"@ {
            Ok(TaskType::SupervisedClassification)
        } else if code == "2"@ {
            Ok(TaskType::SupervisedRegression)
        } else {
            Err(DecodeError::UnsupportedTaskType)
        },
        None => Err(DecodeError::UnsupportedTaskType),
    }
}

/// The data set's id and the requested target of a block `source_data`.
pub open spec fn source_of(item: JsonView) -> Result<SourceView, DecodeError> {
    match item.get("data_set"@) {
        Some(data_set) => match data_set.text_at("data_set_id"@) {
            Some(id) => Ok(
                SourceView {
                    data_set_id: id,
                    target_feature: data_set.text_at("target_feature"@),
                },
            ),
            None => Err(DecodeError::Missing(Field::DataSetId)),
        },
        None => Err(DecodeError::Missing(Field::DataSetId)),
    }
}

/// The address of the split plan of a block `estimation_procedure`.
pub open spec fn splits_of(item: JsonView) -> Result<Seq<char>, DecodeError> {
    match item.text_at2("estimation_procedure"@, "data_splits_url"@) {
        Some(url) => Ok(url),
        None => Err(DecodeError::Missing(Field::DataSplitsUrl)),
    }
}

/// The cost matrix of a block `cost_matrix`.
pub open spec fn cost_matrix_of(item: JsonView) -> Result<CostMatrix, DecodeError> {
    match item.get("cost_matrix"@) {
        Some(JsonView::Array(entries)) => if entries.len() == 0 {
            Ok(CostMatrix::Empty)
        } else {
            Err(DecodeError::UnsupportedCostMatrix)
        },
        _ => Err(DecodeError::Missing(Field::CostMatrix)),
    }
}

/// What is known before the first block: a classification is judged by the
/// predictive accuracy unless a block says otherwise.
pub open spec fn no_blocks(task_type: TaskType) -> Blocks {
    Blocks {
        source: None,
        splits: None,
        cost_matrix: None,
        measure: match task_type {
            TaskType::SupervisedClassification => Some(Measure::PredictiveAccuracy),
            TaskType::SupervisedRegression => None,
        },
    }
}

/// What is known after one more block. The block's name decides what it
/// says; a block of another name says nothing. A regression has no cost
/// matrix, and a block of that name says nothing there. An empty
/// `evaluation_measures` leaves a classification's measure as it is, and
/// takes a regression's away.
pub open spec fn with_block(task_type: TaskType, known: Blocks, item: JsonView) -> Result<
    Blocks,
    DecodeError,
> {
    match item.text_at("name"@) {
        None => Err(DecodeError::Missing(Field::BlockName)),
        Some(name) => if name == "source_data"@ {
            match source_of(item) {
                Ok(source) => Ok(Blocks { source: Some(source), ..known }),
                Err(e) => Err(e),
            }
        } else if name == "estimation_procedure"@ {
            match splits_of(item) {
                Ok(url) => Ok(Blocks { splits: Some(url), ..known }),
                Err(e) => Err(e),
            }
        } else if name == "cost_matrix"@ && task_type == TaskType::SupervisedClassification {
            match cost_matrix_of(item) {
                Ok(m) => Ok(Blocks { cost_matrix: Some(m), ..known }),
                Err(e) => Err(e),
            }
        } else if name == "evaluation_measures"@ {
            match measure_of(item) {
                Ok(Some(m)) => Ok(Blocks { measure: Some(m), ..known }),
                Ok(None) => match task_type {
                    TaskType::SupervisedClassification => Ok(known),
                    TaskType::SupervisedRegression => Ok(Blocks { measure: None, ..known }),
                },
                Err(e) => Err(e),
            }
        } else {
            Ok(known)
        },
    }
}

/// What is known after the blocks `items`, taken in their order. The first
/// block that cannot be read decides the error.
pub open spec fn with_blocks(task_type: TaskType, known: Blocks, items: Seq<JsonView>) -> Result<
    Blocks,
    DecodeError,
>
    decreases items.len(),
{
    if items.len() == 0 {
        Ok(known)
    } else {
        match with_block(task_type, known, items[0]) {
            Ok(next) => with_blocks(task_type, next, items.skip(1)),
            Err(e) => Err(e),
        }
    }
}

/// The description that the blocks amount to. A task needs its source data
/// and its estimation procedure, a classification its cost matrix, and a
/// regression its measure.
pub open spec fn complete(
    task_id: Seq<char>,
    task_name: Seq<char>,
    task_type: TaskType,
    known: Blocks,
) -> Result<TaskRequestView, DecodeError> {
    if known.source is None {
        Err(DecodeError::Missing(Field::SourceData))
    } else if known.splits is None {
        Err(DecodeError::Missing(Field::EstimationProcedure))
    } else if task_type == TaskType::SupervisedClassification && known.cost_matrix is None {
        Err(DecodeError::Missing(Field::CostMatrix))
    } else if known.measure is None {
        Err(DecodeError::Missing(Field::EvaluationMeasures))
    } else {
        Ok(
            TaskRequestView {
                task_id,
                task_name,
                task_type,
                data_set_id: known.source->0.data_set_id,
                target_feature: known.source->0.target_feature,
                data_splits_url: known.splits->0,
                cost_matrix: known.cost_matrix,
                evaluation_measures: known.measure->0,
            },
        )
    }
}

/// The description of the task in a task document.
pub open spec fn described(doc: JsonView) -> Result<TaskRequestView, DecodeError> {
    match doc.get("task"@) {
        None => Err(DecodeError::Missing(Field::Task)),
        Some(task) => match task.text_at("task_id"@) {
            None => Err(DecodeError::Missing(Field::TaskId)),
            Some(task_id) => match task.text_at("task_name"@) {
                None => Err(DecodeError::Missing(Field::TaskName)),
                Some(task_name) => match task.get("input"@) {
                    Some(JsonView::Array(items)) => match task_type_of(task) {
                        Err(e) => Err(e),
                        Ok(task_type) => match with_blocks(task_type, no_blocks(task_type), items) {
                            Err(e) => Err(e),
                            Ok(known) => complete(task_id, task_name, task_type, known),
                        },
                    },
                    _ => Err(DecodeError::Missing(Field::Input)),
                },
            },
        },
    }
}

/// A task's description: what is to be fetched, and how the task is judged.
#[derive(Debug)]
pub struct TaskRequest {
    pub task_id: String,
    pub task_name: String,
    pub task_type: TaskType,
    pub data_set_id: String,
    /// The target that the task asks for.
    pub target_feature: Option<String>,
    pub data_splits_url: String,
    /// The cost matrix, of a classification.
    pub cost_matrix: Option<CostMatrix>,
    pub evaluation_measures: Measure,
}

impl View for TaskRequest {
    type V = TaskRequestView;

    open spec fn view(&self) -> TaskRequestView {
        TaskRequestView {
            task_id: self.task_id@,
            task_name: self.task_name@,
            task_type: self.task_type,
            data_set_id: self.data_set_id@,
            target_feature: chars(self.target_feature),
            data_splits_url: self.data_splits_url@,
            cost_matrix: self.cost_matrix,
            evaluation_measures: self.evaluation_measures,
        }
    }
}

/// The blocks read so far, as the decoder holds them.
struct Known {
    source: Option<(String, Option<String>)>,
    splits: Option<String>,
    cost_matrix: Option<CostMatrix>,
    measure: Option<Measure>,
}

impl View for Known {
    type V = Blocks;

    closed spec fn view(&self) -> Blocks {
        Blocks {
            source: match self.source {
                Some((id, target)) => Some(
                    SourceView { data_set_id: id@, target_feature: chars(target) },
                ),
                None => None,
            },
            splits: chars(self.splits),
            cost_matrix: self.cost_matrix,
            measure: self.measure,
        }
    }
}

/// Reads `task_type_id`.
fn task_type(task: &Json) -> (r: Result<TaskType, DecodeError>)
    ensures
        r == task_type_of(task@),
{
    match task.text_at("task_type_id") {
        Some(code) => {
            if same(code.as_str(), "1") {
                Ok(TaskType::SupervisedClassification)
            } else if same(code.as_str(), "2") {
                Ok(TaskType::SupervisedRegression)
            } else {
                Err(DecodeError::UnsupportedTaskType)
            }
        },
        None => Err(DecodeError::UnsupportedTaskType),
    }
}

/// Reads a block `source_data`.
fn source(item: &Json) -> (r: Result<(String, Option<String>), DecodeError>)
    ensures
        match r {
            Ok((id, target)) => source_of(item@) == Ok::<_, DecodeError>(
                SourceView { data_set_id: id@, target_feature: chars(target) },
            ),
            Err(e) => source_of(item@) == Err::<SourceView, _>(e),
        },
{
    match item.get("data_set") {
        Some(data_set) => match data_set.text_at("data_set_id") {
            Some(id) => Ok((id.clone(), copied(data_set.text_at("target_feature")))),
            None => Err(DecodeError::Missing(Field::DataSetId)),
        },
        None => Err(DecodeError::Missing(Field::DataSetId)),
    }
}

/// Reads a block `estimation_procedure`.
fn splits(item: &Json) -> (r: Result<String, DecodeError>)
    ensures
        match r {
            Ok(url) => splits_of(item@) == Ok::<_, DecodeError>(url@),
            Err(e) => splits_of(item@) == Err::<Seq<char>, _>(e),
        },
{
    match item.text_at2("estimation_procedure", "data_splits_url") {
        Some(url) => Ok(url.clone()),
        None => Err(DecodeError::Missing(Field::DataSplitsUrl)),
    }
}

impl CostMatrix {
    /// Reads a block `cost_matrix`.
    pub fn from(item: &Json) -> (r: Result<CostMatrix, DecodeError>)
        ensures
            r == cost_matrix_of(item@),
    {
        match item.get("cost_matrix") {
            Some(Json::Array(entries)) => {
                proof {
                    lemma_items_view(*entries, entries@.len());
                }
                if entries.len() == 0 {
                    Ok(CostMatrix::Empty)
                } else {
                    Err(DecodeError::UnsupportedCostMatrix)
                }
            },
            _ => Err(DecodeError::Missing(Field::CostMatrix)),
        }
    }
}

/// Reads one block.
fn block(task_type: TaskType, known: Known, item: &Json) -> (r: Result<Known, DecodeError>)
    ensures
        match r {
            Ok(next) => with_block(task_type, known@, item@) == Ok::<_, DecodeError>(next@),
            Err(e) => with_block(task_type, known@, item@) == Err::<Blocks, _>(e),
        },
{
    let name = match item.text_at("name") {
        Some(name) => name,
        None => { return Err(DecodeError::Missing(Field::BlockName)); },
    };
    let mut next = known;
    if same(name.as_str(), "source_data") {
        match source(item) {
            Ok(found) => { next.source = Some(found); },
            Err(e) => { return Err(e); },
        }
    } else if same(name.as_str(), "estimation_procedure") {
        match splits(item) {
            Ok(url) => { next.splits = Some(url); },
            Err(e) => { return Err(e); },
        }
    } else if same(name.as_str(), "cost_matrix") && task_type
        == TaskType::SupervisedClassification {
        match CostMatrix::from(item) {
            Ok(m) => { next.cost_matrix = Some(m); },
            Err(e) => { return Err(e); },
        }
    } else if same(name.as_str(), "evaluation_measures") {
        match Measure::new(item) {
            Ok(Some(m)) => { next.measure = Some(m); },
            Ok(None) => {
                if task_type == TaskType::SupervisedRegression {
                    next.measure = None;
                }
            },
            Err(e) => { return Err(e); },
        }
    }
    Ok(next)
}

impl TaskRequest {
    /// Reads the description of a task from a task document.
    pub fn from_json(doc: &Json) -> (r: Result<TaskRequest, DecodeError>)
        ensures
            match r {
                Ok(request) => described(doc@) == Ok::<_, DecodeError>(request@),
                Err(e) => described(doc@) == Err::<TaskRequestView, _>(e),
            },
    {
        let task = match doc.get("task") {
            Some(task) => task,
            None => { return Err(DecodeError::Missing(Field::Task)); },
        };
        let task_id = match task.text_at("task_id") {
            Some(s) => s.clone(),
            None => { return Err(DecodeError::Missing(Field::TaskId)); },
        };
        let task_name = match task.text_at("task_name") {
            Some(s) => s.clone(),
            None => { return Err(DecodeError::Missing(Field::TaskName)); },
        };
        let items = match task.get("input") {
            Some(Json::Array(items)) => items,
            _ => { return Err(DecodeError::Missing(Field::Input)); },
        };
        let task_type = match task_type(task) {
            Ok(t) => t,
            Err(e) => { return Err(e); },
        };
        let mut known = Known {
            source: None,
            splits: None,
            cost_matrix: None,
            measure: match task_type {
                TaskType::SupervisedClassification => Some(Measure::PredictiveAccuracy),
                TaskType::SupervisedRegression => None,
            },
        };
        let ghost all = task@.get("input"@)->0->Array_0;
        proof {
            lemma_items_view(*items, items@.len());
            assert(all.skip(0) =~= all);
        }
        let mut i: usize = 0;
        while i < items.len()
            invariant
                i <= items.len(),
                all.len() == items@.len(),
                forall|k: int| 0 <= k < items@.len() ==> all[k] == (#[trigger] items@[k])@,
                described(doc@) == match with_blocks(task_type, no_blocks(task_type), all) {
                    Err(e) => Err(e),
                    Ok(known) => complete(task_id@, task_name@, task_type, known),
                },
                with_blocks(task_type, no_blocks(task_type), all) == with_blocks(
                    task_type,
                    known@,
                    all.skip(i as int),
                ),
            decreases items.len() - i,
        {
            proof {
                assert(all.skip(i as int)[0] == items@[i as int]@);
                assert(all.skip(i as int).skip(1) =~= all.skip(i as int + 1));
            }
            match block(task_type, known, &items[i]) {
                Ok(next) => { known = next; },
                Err(e) => { return Err(e); },
            }
            i += 1;
        }
        let (data_set_id, target_feature) = match known.source {
            Some(source) => source,
            None => { return Err(DecodeError::Missing(Field::SourceData)); },
        };
        let data_splits_url = match known.splits {
            Some(url) => url,
            None => { return Err(DecodeError::Missing(Field::EstimationProcedure)); },
        };
        if task_type == TaskType::SupervisedClassification && known.cost_matrix.is_none() {
            return Err(DecodeError::Missing(Field::CostMatrix));
        }
        let evaluation_measures = match known.measure {
            Some(m) => m,
            None => { return Err(DecodeError::Missing(Field::EvaluationMeasures)); },
        };
        Ok(
            TaskRequest {
                task_id,
                task_name,
                task_type,
                data_set_id,
                target_feature,
                data_splits_url,
                cost_matrix: known.cost_matrix,
                evaluation_measures,
            },
        )
    }
}

} // verus!
