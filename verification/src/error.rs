//! The errors of the library.

use vstd::prelude::*;

verus! {

/// A field of a task or data set description.
#[derive(Debug, Clone, Copy, PartialEq, Eq, Structural)]
pub enum Field {
    /// `task`, the description itself.
    Task,
    /// `task.task_id`, a string.
    TaskId,
    /// `task.task_name`, a string.
    TaskName,
    /// `task.input`, an array of blocks.
    Input,
    /// `name` of a block, a string.
    BlockName,
    /// The block `source_data`.
    SourceData,
    /// `data_set.data_set_id` of the block `source_data`, a string.
    DataSetId,
    /// The block `estimation_procedure`.
    EstimationProcedure,
    /// `estimation_procedure.data_splits_url`, a string.
    DataSplitsUrl,
    /// The block `cost_matrix`, or its array `cost_matrix`.
    CostMatrix,
    /// The block `evaluation_measures`, or `evaluation_measures.evaluation_measure` in it.
    EvaluationMeasures,
    /// `data_set_description.url` of a data set description, a string.
    DataSetUrl,
}

/// Why a description could not be decoded.
#[derive(Debug, Clone, Copy, PartialEq, Eq, Structural)]
pub enum DecodeError {
    /// A required field is absent, or holds a value of another type.
    Missing(Field),
    /// `task_type_id` names no supported type of task.
    UnsupportedTaskType,
    /// The cost matrix is not empty.
    UnsupportedCostMatrix,
    /// The evaluation measure is neither a known name nor an empty array.
    UnsupportedMeasure,
    /// The target names no column of the table.
    UnknownTarget,
}

/// What stops the resolution of a task.
#[derive(Debug, Clone, PartialEq, Eq)]
pub enum Error {
    /// The text is no JSON document; the field holds the parser's message.
    JsonError(String),
    /// The document does not describe what was asked for.
    DecodeError(DecodeError),
    /// The reply is not of the kind that the resolution asked for.
    UnexpectedReply,
}

impl From<DecodeError> for Error {
    fn from(e: DecodeError) -> (r: Error) {
        Error::DecodeError(e)
    }
}

impl vstd::std_specs::convert::FromSpecImpl<DecodeError> for Error {
    open spec fn obeys_from_spec() -> bool {
        true
    }

    open spec fn from_spec(e: DecodeError) -> Error {
        Error::DecodeError(e)
    }
}

} // verus!
