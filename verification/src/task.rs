//! Tasks, and the resolution of a task: which documents are to be fetched,
//! in which order, and what they amount to.

use crate::dataset::{
    are_features, default_target_of, is_target, names, resolve_target, table_url_of, target_of,
    DataSet, DataSetInfo,
};
use crate::error::{DecodeError, Error, Field};
use crate::folds::{
    fold_index, row_major, CrossValSplits, CrossValidation, CrossValidationFold, Procedure,
};
use crate::id::Id;
use crate::json::{json_parsed, Json};
use crate::measure::Measure;
use crate::request::{described, CostMatrix, TaskRequest, TaskRequestView, TaskType};
use crate::text::{chars, joined};
use vstd::prelude::*;

verus! {

/// A classification: the data, the folds, the cost matrix and the measure.
#[derive(Debug)]
pub struct SupervisedClassification {
    pub source_data: DataSet,
    pub estimation_procedure: Procedure,
    pub cost_matrix: CostMatrix,
    pub evaluation_measures: Measure,
}

/// A regression: the data, the folds and the measure.
#[derive(Debug)]
pub struct SupervisedRegression {
    pub source_data: DataSet,
    pub estimation_procedure: Procedure,
    pub evaluation_measures: Measure,
}

/// What kind of task it is, with what belongs to the kind.
#[derive(Debug)]
pub enum TaskKind {
    SupervisedClassification(SupervisedClassification),
    SupervisedRegression(SupervisedRegression),
}

/// A task: a data set, a split plan for it and a measure.
#[derive(Debug)]
pub struct Task {
    pub task_id: String,
    pub task_name: String,
    pub task_type: TaskKind,
}

impl SupervisedClassification {
    /// A classification of the given parts. It needs a cost matrix.
    pub fn new(
        source_data: DataSet,
        estimation_procedure: Procedure,
        cost_matrix: Option<CostMatrix>,
        evaluation_measures: Measure,
    ) -> (r: Result<Self, DecodeError>)
        ensures
            match r {
                Ok(c) => cost_matrix == Some(c.cost_matrix) && c.source_data == source_data
                    && c.estimation_procedure == estimation_procedure && c.evaluation_measures
                    == evaluation_measures,
                Err(e) => cost_matrix is None && e == DecodeError::Missing(Field::CostMatrix),
            },
    {
        match cost_matrix {
            Some(cost_matrix) => Ok(
                SupervisedClassification {
                    source_data,
                    estimation_procedure,
                    cost_matrix,
                    evaluation_measures,
                },
            ),
            None => Err(DecodeError::Missing(Field::CostMatrix)),
        }
    }
}

impl SupervisedRegression {
    /// A regression of the given parts.
    pub fn new(
        source_data: DataSet,
        estimation_procedure: Procedure,
        evaluation_measures: Measure,
    ) -> (r: Self)
        ensures
            r.source_data == source_data,
            r.estimation_procedure == estimation_procedure,
            r.evaluation_measures == evaluation_measures,
    {
        SupervisedRegression { source_data, estimation_procedure, evaluation_measures }
    }
}

impl Task {
    /// The type of the task.
    pub open spec fn kind(&self) -> TaskType {
        match self.task_type {
            TaskKind::SupervisedClassification(_) => TaskType::SupervisedClassification,
            TaskKind::SupervisedRegression(_) => TaskType::SupervisedRegression,
        }
    }

    /// The table of the task.
    pub open spec fn data(&self) -> DataSet {
        match self.task_type {
            TaskKind::SupervisedClassification(c) => c.source_data,
            TaskKind::SupervisedRegression(r) => r.source_data,
        }
    }

    /// The split plan of the task.
    pub open spec fn procedure(&self) -> Procedure {
        match self.task_type {
            TaskKind::SupervisedClassification(c) => c.estimation_procedure,
            TaskKind::SupervisedRegression(r) => r.estimation_procedure,
        }
    }

    /// The measure of the task.
    pub open spec fn measure(&self) -> Measure {
        match self.task_type {
            TaskKind::SupervisedClassification(c) => c.evaluation_measures,
            TaskKind::SupervisedRegression(r) => r.evaluation_measures,
        }
    }

    /// Whether the task is what `request` describes, with the given table
    /// and split plan.
    pub open spec fn matches_request(
        &self,
        request: TaskRequestView,
        source_data: DataSet,
        estimation_procedure: Procedure,
    ) -> bool {
        &&& self.task_id@ == request.task_id
        &&& self.task_name@ == request.task_name
        &&& self.kind() == request.task_type
        &&& self.data() == source_data
        &&& self.procedure() == estimation_procedure
        &&& self.measure() == request.evaluation_measures
        &&& self.task_type matches TaskKind::SupervisedClassification(c) ==> request.cost_matrix
            == Some(c.cost_matrix)
    }

    /// The task that `request` describes, with its table and its split plan.
    /// A classification needs the cost matrix of the description.
    pub fn new(request: TaskRequest, source_data: DataSet, estimation_procedure: Procedure) -> (r:
        Result<Task, DecodeError>)
        ensures
            match r {
                Ok(task) => task.matches_request(request@, source_data, estimation_procedure),
                Err(e) => {
                    &&& request.task_type == TaskType::SupervisedClassification
                    &&& request.cost_matrix is None
                    &&& e == DecodeError::Missing(Field::CostMatrix)
                },
            },
    {
        let task_type = match request.task_type {
            TaskType::SupervisedClassification => {
                match SupervisedClassification::new(
                    source_data,
                    estimation_procedure,
                    request.cost_matrix,
                    request.evaluation_measures,
                ) {
                    Ok(c) => TaskKind::SupervisedClassification(c),
                    Err(e) => { return Err(e); },
                }
            },
            TaskType::SupervisedRegression => TaskKind::SupervisedRegression(
                SupervisedRegression::new(
                    source_data,
                    estimation_procedure,
                    request.evaluation_measures,
                ),
            ),
        };
        Ok(Task { task_id: request.task_id, task_name: request.task_name, task_type })
    }

    /// Evaluates the task. Beginning with `start`, `visit` takes each fold in
    /// the order of evaluation, with the columns of the features and the
    /// column of the target, and hands on what it has made of the fold; what
    /// it hands on after the last fold is the result.
    pub fn perform<A, F>(&self, start: A, visit: F) -> (end: A) where
        F: Fn(A, &Vec<usize>, Option<usize>, &CrossValidationFold) -> A,

        requires
            forall|acc: A, features: &Vec<usize>, target: Option<usize>, fold: &CrossValidationFold|
                call_requires(visit, (acc, features, target, fold)),
        ensures
            exists|features: Vec<usize>, target: Option<usize>, folds: Seq<CrossValidationFold>, accs: Seq<A>|
                self.performed(start, visit, end, features, target, folds, accs),
    {
        let features = self.source_data().feature_columns();
        let target = self.source_data().target_column();
        let folds = self.estimation_procedure().iter();
        let ghost seen: Seq<CrossValidationFold> = Seq::new(folds@.len(), |i: int| *folds@[i]);
        let ghost mut accs: Seq<A> = seq![start];
        let mut acc = start;
        let mut i: usize = 0;
        while i < folds.len()
            invariant
                i <= folds.len(),
                seen == Seq::new(folds@.len(), |i: int| *folds@[i]),
                accs.len() == i + 1,
                accs[0] == start,
                accs.last() == acc,
                forall|acc: A, features: &Vec<usize>, target: Option<usize>, fold: &CrossValidationFold|
                    call_requires(visit, (acc, features, target, fold)),
                forall|k: int|
                    0 <= k < i ==> call_ensures(
                        visit,
                        (accs[k], &features, target, &seen[k]),
                        #[trigger] accs[k + 1],
                    ),
            decreases folds.len() - i,
        {
            let ghost before = accs;
            acc = visit(acc, &features, target, folds[i]);
            proof {
                accs = accs.push(acc);
                assert forall|k: int| 0 <= k < i + 1 implies call_ensures(
                    visit,
                    (accs[k], &features, target, &seen[k]),
                    #[trigger] accs[k + 1],
                ) by {
                    if k < i {
                        assert(accs[k] == before[k]);
                        assert(accs[k + 1] == before[k + 1]);
                    }
                }
            }
            i += 1;
        }
        proof {
            assert(self.performed(start, visit, acc, features, target, seen, accs));
        }
        acc
    }

    /// Whether `end` is what the evaluation comes to: `visit` has taken the
    /// folds `folds`, which are those of the task in the order of evaluation,
    /// one after the other, each time with the columns `features` and
    /// `target` of the task's table, and `accs` holds what it was handed
    /// before each fold and what it handed on after the last.
    pub open spec fn performed<A, F>(
        &self,
        start: A,
        visit: F,
        end: A,
        features: Vec<usize>,
        target: Option<usize>,
        folds: Seq<CrossValidationFold>,
        accs: Seq<A>,
    ) -> bool where F: Fn(A, &Vec<usize>, Option<usize>, &CrossValidationFold) -> A {
        &&& are_features(self.data(), features@)
        &&& is_target(self.data(), target)
        &&& folds.len() == row_major(self.procedure().index()).len()
        &&& forall|k: int|
            0 <= k < folds.len() ==> (#[trigger] folds[k])@ == row_major(self.procedure().index())[k]
        &&& accs.len() == folds.len() + 1
        &&& accs[0] == start
        &&& accs.last() == end
        &&& forall|k: int|
            0 <= k < folds.len() ==> call_ensures(
                visit,
                (accs[k], &features, target, &folds[k]),
                #[trigger] accs[k + 1],
            )
    }

    /// The table of the task.
    pub fn source_data(&self) -> (d: &DataSet)
        ensures
            *d == self.data(),
    {
        match &self.task_type {
            TaskKind::SupervisedClassification(c) => &c.source_data,
            TaskKind::SupervisedRegression(r) => &r.source_data,
        }
    }

    /// The split plan of the task.
    pub fn estimation_procedure(&self) -> (p: &Procedure)
        ensures
            *p == self.procedure(),
    {
        match &self.task_type {
            TaskKind::SupervisedClassification(c) => &c.estimation_procedure,
            TaskKind::SupervisedRegression(r) => &r.estimation_procedure,
        }
    }

    /// The measure of the task.
    pub fn evaluation_measures(&self) -> (m: Measure)
        ensures
            m == self.measure(),
    {
        match &self.task_type {
            TaskKind::SupervisedClassification(c) => c.evaluation_measures,
            TaskKind::SupervisedRegression(r) => r.evaluation_measures,
        }
    }
}

/// The address of the description of task `id`.
pub open spec fn task_url(id: Seq<char>) -> Seq<char> {
    "https://www.openml.org/api/v1/json/task/"@ + id
}

/// The address of the description of data set `id`.
pub open spec fn data_set_url(id: Seq<char>) -> Seq<char> {
    "https://www.openml.org/api/v1/json/data/"@ + id
}

/// Where the resolution of a task stands: which document it waits for, or
/// how it ended.
#[derive(Debug)]
pub enum Resolution {
    /// Waits for the text at `url`, the description of the task.
    Task { url: String },
    /// Waits for the text at `url`, the description of the data set.
    DataSetInfo { request: TaskRequest, url: String },
    /// Waits for the table at `url`.
    Table { request: TaskRequest, target: Option<String>, url: String },
    /// Waits for the records of the split plan at `url`.
    Splits { request: TaskRequest, source_data: DataSet, url: String },
    /// The task is resolved.
    Done(Task),
    /// The resolution has failed, and no task comes of it.
    Failed(Error),
}

/// What was found at the address that a resolution waits for.
#[derive(Debug)]
pub enum Reply {
    /// The text of a document.
    Text(String),
    /// A table, decoded: the names of its columns and the number of its rows.
    Table { columns: Vec<String>, n_rows: usize },
    /// The records of a split plan, decoded.
    Splits(CrossValSplits),
}

/// Whether `next` is where the resolution stands after the description of
/// the task has come.
pub open spec fn after_task(text: Seq<char>, next: Resolution) -> bool {
    match json_parsed(text) {
        None => next matches Resolution::Failed(Error::JsonError(_)),
        Some(doc) => match described(doc) {
            Err(e) => next == Resolution::Failed(Error::DecodeError(e)),
            Ok(view) => {
                &&& next matches Resolution::DataSetInfo { request, url }
                &&& request@ == view
                &&& url@ == data_set_url(view.data_set_id)
            },
        },
    }
}

/// Whether `next` is where the resolution stands after the description of
/// the data set has come.
pub open spec fn after_data_set_info(
    request: TaskRequest,
    text: Seq<char>,
    next: Resolution,
) -> bool {
    match json_parsed(text) {
        None => next matches Resolution::Failed(Error::JsonError(_)),
        Some(doc) => match table_url_of(doc) {
            Err(e) => next == Resolution::Failed(Error::DecodeError(e)),
            Ok(table_url) => {
                &&& next matches Resolution::Table { request: r, target, url }
                &&& r == request
                &&& url@ == table_url
                &&& chars(target) == target_of(default_target_of(doc), request@.target_feature)
            },
        },
    }
}

/// Whether `next` is where the resolution stands after the table has come.
pub open spec fn after_table(
    request: TaskRequest,
    target: Option<String>,
    columns: Seq<String>,
    n_rows: usize,
    next: Resolution,
) -> bool {
    if target is Some && !names(columns).contains(target->0@) {
        next == Resolution::Failed(Error::DecodeError(DecodeError::UnknownTarget))
    } else {
        &&& next matches Resolution::Splits { request: r, source_data, url }
        &&& r == request
        &&& url@ == request@.data_splits_url
        &&& source_data.wf()
        &&& source_data.column_names() == names(columns)
        &&& source_data.row_count() == n_rows
        &&& source_data.target_name() == chars(target)
    }
}

/// Whether `next` is where the resolution stands after the split plan has come.
pub open spec fn after_splits(
    request: TaskRequest,
    source_data: DataSet,
    xvs: CrossValSplits,
    next: Resolution,
) -> bool {
    if request.task_type == TaskType::SupervisedClassification && request.cost_matrix is None {
        next == Resolution::Failed(Error::DecodeError(DecodeError::Missing(Field::CostMatrix)))
    } else {
        &&& next matches Resolution::Done(task)
        &&& task.procedure().index() == fold_index(xvs.data@)
        &&& task.matches_request(request@, source_data, task.procedure())
    }
}

/// Whether `next` is where the resolution `state` stands after `reply`. A
/// resolution that has ended stays as it is, and a reply of another kind
/// than the one waited for fails it.
pub open spec fn follows(state: Resolution, reply: Reply, next: Resolution) -> bool {
    match state {
        Resolution::Done(_) => next == state,
        Resolution::Failed(_) => next == state,
        Resolution::Task { url } => match reply {
            Reply::Text(text) => after_task(text@, next),
            _ => next == Resolution::Failed(Error::UnexpectedReply),
        },
        Resolution::DataSetInfo { request, url } => match reply {
            Reply::Text(text) => after_data_set_info(request, text@, next),
            _ => next == Resolution::Failed(Error::UnexpectedReply),
        },
        Resolution::Table { request, target, url } => match reply {
            Reply::Table { columns, n_rows } => after_table(request, target, columns@, n_rows, next),
            _ => next == Resolution::Failed(Error::UnexpectedReply),
        },
        Resolution::Splits { request, source_data, url } => match reply {
            Reply::Splits(xvs) => after_splits(request, source_data, xvs, next),
            _ => next == Resolution::Failed(Error::UnexpectedReply),
        },
    }
}

impl Resolution {
    /// The address of what the resolution waits for; `None` once it has ended.
    pub fn url(&self) -> (url: Option<&String>)
        ensures
            url is None <==> (self is Done || self is Failed),
            match *self {
                Resolution::Task { url: u } => url == Some(&u),
                Resolution::DataSetInfo { url: u, .. } => url == Some(&u),
                Resolution::Table { url: u, .. } => url == Some(&u),
                Resolution::Splits { url: u, .. } => url == Some(&u),
                _ => true,
            },
    {
        match self {
            Resolution::Task { url } => Some(url),
            Resolution::DataSetInfo { url, .. } => Some(url),
            Resolution::Table { url, .. } => Some(url),
            Resolution::Splits { url, .. } => Some(url),
            _ => None,
        }
    }

    /// Takes what was found at the address waited for, and says where the
    /// resolution stands then.
    pub fn step(self, reply: Reply) -> (next: Resolution)
        ensures
            follows(self, reply, next),
    {
        match self {
            Resolution::Done(task) => Resolution::Done(task),
            Resolution::Failed(e) => Resolution::Failed(e),
            Resolution::Task { url } => match reply {
                Reply::Text(text) => Self::take_task(text),
                _ => Resolution::Failed(Error::UnexpectedReply),
            },
            Resolution::DataSetInfo { request, url } => match reply {
                Reply::Text(text) => Self::take_data_set_info(request, text),
                _ => Resolution::Failed(Error::UnexpectedReply),
            },
            Resolution::Table { request, target, url } => match reply {
                Reply::Table { columns, n_rows } => Self::take_table(
                    request,
                    target,
                    columns,
                    n_rows,
                ),
                _ => Resolution::Failed(Error::UnexpectedReply),
            },
            Resolution::Splits { request, source_data, url } => match reply {
                Reply::Splits(xvs) => Self::take_splits(request, source_data, xvs),
                _ => Resolution::Failed(Error::UnexpectedReply),
            },
        }
    }

    /// Reads the description of the task, and asks for that of its data set.
    fn take_task(text: String) -> (next: Resolution)
        ensures
            after_task(text@, next),
    {
        let doc = match Json::parse(text.as_str()) {
            Ok(doc) => doc,
            Err(e) => { return Resolution::Failed(e); },
        };
        match TaskRequest::from_json(&doc) {
            Ok(request) => {
                let url = joined(
                    "https://www.openml.org/api/v1/json/data/",
                    request.data_set_id.as_str(),
                );
                Resolution::DataSetInfo { request, url }
            },
            Err(e) => Resolution::Failed(Error::DecodeError(e)),
        }
    }

    /// Reads the description of the data set, chooses the target, and asks
    /// for the table.
    fn take_data_set_info(request: TaskRequest, text: String) -> (next: Resolution)
        ensures
            after_data_set_info(request, text@, next),
    {
        let doc = match Json::parse(text.as_str()) {
            Ok(doc) => doc,
            Err(e) => { return Resolution::Failed(e); },
        };
        match DataSetInfo::from_json(&doc) {
            Ok(info) => {
                let target = resolve_target(info.default_target, request.target_feature.clone());
                Resolution::Table { request, target, url: info.url }
            },
            Err(e) => Resolution::Failed(Error::DecodeError(e)),
        }
    }

    /// Takes the table, and asks for the split plan.
    fn take_table(
        request: TaskRequest,
        target: Option<String>,
        columns: Vec<String>,
        n_rows: usize,
    ) -> (next: Resolution)
        ensures
            after_table(request, target, columns@, n_rows, next),
    {
        match DataSet::new(columns, n_rows, target) {
            Ok(source_data) => {
                let url = request.data_splits_url.clone();
                Resolution::Splits { request, source_data, url }
            },
            Err(e) => Resolution::Failed(Error::DecodeError(e)),
        }
    }

    /// Builds the fold index of the split plan, and the task.
    fn take_splits(request: TaskRequest, source_data: DataSet, xvs: CrossValSplits) -> (next:
        Resolution)
        ensures
            after_splits(request, source_data, xvs, next),
    {
        let estimation_procedure = Procedure::Frozen(CrossValidation::from(xvs));
        match Task::new(request, source_data, estimation_procedure) {
            Ok(task) => Resolution::Done(task),
            Err(e) => Resolution::Failed(Error::DecodeError(e)),
        }
    }
}

/// The entry to the catalog of tasks.
#[derive(Debug)]
pub struct OpenML {}

impl OpenML {
    /// The entry to the catalog.
    pub fn new() -> (api: Self)
        ensures
            api == (OpenML {  }),
    {
        OpenML {  }
    }

    /// Begins the resolution of task `id`: it waits for the task's
    /// description, and [`Resolution::step`] takes it on from there.
    pub fn task<T: Id>(&mut self, id: T) -> (begun: Resolution)
        ensures
            begun matches Resolution::Task { url } && url@ == task_url(id.text()),
    {
        let id_text = id.as_string();
        let url = joined("https://www.openml.org/api/v1/json/task/", id_text.as_str());
        Resolution::Task { url }
    }
}

} // verus!
