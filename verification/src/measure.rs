//! Evaluation measures, and the count behind the predictive accuracy.

use crate::error::{DecodeError, Field};
use crate::json::{Json, JsonView};
use crate::text::same;
use vstd::prelude::*;

verus! {

/// The measure by which predictions are judged.
#[derive(Debug, Clone, Copy, PartialEq, Eq, Structural)]
pub enum Measure {
    PredictiveAccuracy,
    RootMeanSquaredError,
}

/// The measure that a block `evaluation_measures` names: `None` where it
/// holds an empty array in place of a name.
pub open spec fn measure_of(item: JsonView) -> Result<Option<Measure>, DecodeError> {
    match item.at2("evaluation_measures"@, "evaluation_measure"@) {
        None => Err(DecodeError::Missing(Field::EvaluationMeasures)),
        Some(JsonView::Text(name)) => if name == "predictive_accuracy"@ {
            Ok(Some(Measure::PredictiveAccuracy))
        } else if name == "root_mean_squared_error"@ {
            Ok(Some(Measure::RootMeanSquaredError))
        } else {
            Err(DecodeError::UnsupportedMeasure)
        },
        Some(JsonView::Array(names)) => if names.len() == 0 {
            Ok(None)
        } else {
            Err(DecodeError::UnsupportedMeasure)
        },
        Some(_) => Err(DecodeError::UnsupportedMeasure),
    }
}

impl Measure {
    /// Reads the measure of a block `evaluation_measures`.
    pub fn new(item: &Json) -> (r: Result<Option<Measure>, DecodeError>)
        ensures
            r == measure_of(item@),
    {
        match item.at2("evaluation_measures", "evaluation_measure") {
            None => Err(DecodeError::Missing(Field::EvaluationMeasures)),
            Some(measure) => match measure {
                Json::Text(name) => {
                    if same(name.as_str(), "predictive_accuracy") {
                        Ok(Some(Measure::PredictiveAccuracy))
                    } else if same(name.as_str(), "root_mean_squared_error") {
                        Ok(Some(Measure::RootMeanSquaredError))
                    } else {
                        Err(DecodeError::UnsupportedMeasure)
                    }
                },
                Json::Array(names) => {
                    proof {
                        crate::json::lemma_items_view(*names, names@.len());
                    }
                    if names.len() == 0 {
                        Ok(None)
                    } else {
                        Err(DecodeError::UnsupportedMeasure)
                    }
                },
                _ => Err(DecodeError::UnsupportedMeasure),
            },
        }
    }
}

/// The number of `true` in `flags`.
pub open spec fn count_true(flags: Seq<bool>) -> nat
    decreases flags.len(),
{
    if flags.len() == 0 {
        0
    } else {
        count_true(flags.drop_last()) + if flags.last() {
            1nat
        } else {
            0nat
        }
    }
}

/// The count behind the predictive accuracy: how many predictions were equal
/// to the known value, and how many were not.
#[derive(Debug, Clone, Copy, PartialEq, Eq, Structural)]
pub struct Accuracy {
    pub n_correct: u64,
    pub n_wrong: u64,
}

impl Accuracy {
    /// The count before any prediction.
    pub fn new() -> (acc: Self)
        ensures
            acc.n_correct == 0,
            acc.n_wrong == 0,
    {
        Accuracy { n_correct: 0, n_wrong: 0 }
    }

    /// Counts one more batch of predictions: `agree[i]` says whether the
    /// prediction `i` was equal to the known value.
    pub fn update(&mut self, agree: &[bool])
        requires
            old(self).n_correct + old(self).n_wrong + agree@.len() <= u64::MAX,
        ensures
            final(self).n_correct == old(self).n_correct + count_true(agree@),
            final(self).n_correct + final(self).n_wrong == old(self).n_correct + old(self).n_wrong
                + agree@.len(),
    {
        let mut i: usize = 0;
        assert(agree@.take(0) =~= Seq::empty());
        while i < agree.len()
            invariant
                i <= agree@.len(),
                old(self).n_correct + old(self).n_wrong + agree@.len() <= u64::MAX,
                self.n_correct == old(self).n_correct + count_true(agree@.take(i as int)),
                self.n_correct + self.n_wrong == old(self).n_correct + old(self).n_wrong + i,
            decreases agree@.len() - i,
        {
            proof {
                assert(agree@.take(i as int + 1).drop_last() =~= agree@.take(i as int));
            }
            if agree[i] {
                self.n_correct += 1;
            } else {
                self.n_wrong += 1;
            }
            i += 1;
        }
        assert(agree@.take(i as int) =~= agree@);
    }

    /// The accuracy as a fraction: the predictions that were right, and all
    /// predictions. Before any prediction the second number is 0 and the
    /// fraction has no value.
    pub fn result(&self) -> (fraction: (u64, u64))
        requires
            self.n_correct + self.n_wrong <= u64::MAX,
        ensures
            fraction.0 == self.n_correct,
            fraction.1 == self.n_correct + self.n_wrong,
    {
        (self.n_correct, self.n_correct + self.n_wrong)
    }
}

} // verus!
