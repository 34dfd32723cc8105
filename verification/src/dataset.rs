//! A data set as the task's logic reads it: the names of its columns, the
//! number of its rows and the column that holds the target.

use crate::error::{DecodeError, Field};
use crate::json::{Json, JsonView};
use crate::text::{chars, copied};
use vstd::prelude::*;

verus! {

/// What the description of a data set says of it.
#[derive(Debug)]
pub struct DataSetInfo {
    /// The target that the data set itself proposes.
    pub default_target: Option<String>,
    /// Where the table is.
    pub url: String,
}

/// The default target of a data set description, where it names one.
pub open spec fn default_target_of(doc: JsonView) -> Option<Seq<char>> {
    doc.text_at2("data_set_description"@, "default_target_attribute"@)
}

/// The address of the table in a data set description.
pub open spec fn table_url_of(doc: JsonView) -> Result<Seq<char>, DecodeError> {
    match doc.text_at2("data_set_description"@, "url"@) {
        Some(url) => Ok(url),
        None => Err(DecodeError::Missing(Field::DataSetUrl)),
    }
}

impl DataSetInfo {
    /// Reads the description of a data set.
    pub fn from_json(doc: &Json) -> (r: Result<DataSetInfo, DecodeError>)
        ensures
            match r {
                Ok(info) => table_url_of(doc@) == Ok::<Seq<char>, DecodeError>(info.url@) && chars(
                    info.default_target,
                ) == default_target_of(doc@),
                Err(e) => table_url_of(doc@) == Err::<Seq<char>, DecodeError>(e),
            },
    {
        let default_target = copied(
            doc.text_at2("data_set_description", "default_target_attribute"),
        );
        match doc.text_at2("data_set_description", "url") {
            Some(url) => Ok(DataSetInfo { default_target, url: url.clone() }),
            None => Err(DecodeError::Missing(Field::DataSetUrl)),
        }
    }
}

/// The target of a task: the one that the task asks for, else the one that
/// the data set proposes.
pub open spec fn target_of(
    default_target: Option<Seq<char>>,
    requested: Option<Seq<char>>,
) -> Option<Seq<char>> {
    match requested {
        Some(t) => Some(t),
        None => default_target,
    }
}

/// Chooses the target: the requested one goes before the data set's own.
pub fn resolve_target(default_target: Option<String>, requested: Option<String>) -> (target: Option<
    String,
>)
    ensures
        chars(target) == target_of(chars(default_target), chars(requested)),
{
    match requested {
        Some(t) => Some(t),
        None => default_target,
    }
}

/// The names of the columns, as characters.
pub open spec fn names(columns: Seq<String>) -> Seq<Seq<char>> {
    Seq::new(columns.len(), |i: int| columns[i]@)
}

/// A table with named columns, and the name of its target column.
#[derive(Debug)]
pub struct DataSet {
    columns: Vec<String>,
    n_rows: usize,
    target: Option<String>,
}

impl DataSet {
    /// The names of the columns, in the order of the table.
    pub closed spec fn column_names(&self) -> Seq<Seq<char>> {
        names(self.columns@)
    }

    /// The number of rows.
    pub closed spec fn row_count(&self) -> nat {
        self.n_rows as nat
    }

    /// The name of the target column.
    pub closed spec fn target_name(&self) -> Option<Seq<char>> {
        chars(self.target)
    }

    /// A target, if there is one, names a column.
    pub open spec fn wf(&self) -> bool {
        self.target_name() matches Some(t) ==> self.column_names().contains(t)
    }

    #[verifier::type_invariant]
    spec fn holds_its_target(&self) -> bool {
        self.wf()
    }

    /// A data set of the given columns and target. The target has to name one
    /// of the columns.
    pub fn new(columns: Vec<String>, n_rows: usize, target: Option<String>) -> (r: Result<
        DataSet,
        DecodeError,
    >)
        ensures
            match r {
                Ok(d) => {
                    &&& d.wf()
                    &&& d.column_names() == names(columns@)
                    &&& d.row_count() == n_rows
                    &&& d.target_name() == chars(target)
                },
                Err(e) => {
                    &&& e == DecodeError::UnknownTarget
                    &&& target is Some
                    &&& !names(columns@).contains(target->0@)
                },
            },
    {
        let known = match &target {
            Some(t) => position(&columns, t) < columns.len(),
            None => true,
        };
        if known {
            Ok(DataSet { columns, n_rows, target })
        } else {
            Err(DecodeError::UnknownTarget)
        }
    }

    /// The names of the columns.
    pub fn columns(&self) -> (columns: &Vec<String>)
        ensures
            names(columns@) == self.column_names(),
    {
        &self.columns
    }

    /// The number of rows.
    pub fn n_rows(&self) -> (n: usize)
        ensures
            n == self.row_count(),
    {
        self.n_rows
    }

    /// The name of the target column.
    pub fn target(&self) -> (target: Option<&String>)
        ensures
            target is Some == self.target_name() is Some,
            target is Some ==> target->0@ == self.target_name()->0,
    {
        self.target.as_ref()
    }

    /// The columns that hold the features, ascending: every column whose
    /// name is not the target's, and every column where there is no target.
    pub fn feature_columns(&self) -> (features: Vec<usize>)
        ensures
            are_features(*self, features@),
    {
        let mut features: Vec<usize> = Vec::new();
        let mut i: usize = 0;
        while i < self.columns.len()
            invariant
                i <= self.columns.len(),
                forall|a: int, b: int| 0 <= a < b < features@.len() ==> features@[a] < features@[b],
                forall|a: int| 0 <= a < features@.len() ==> features@[a] < i,
                forall|c: usize| #[trigger]
                    features@.contains(c) <==> c < i && Some(self.column_names()[c as int])
                        != self.target_name(),
            decreases self.columns.len() - i,
        {
            let is_target = match &self.target {
                Some(t) => self.columns[i] == *t,
                None => false,
            };
            let ghost before = features@;
            if !is_target {
                features.push(i);
                assert(features@[before.len() as int] == i);
            }
            assert forall|c: usize| #[trigger]
                features@.contains(c) <==> c < i + 1 && Some(self.column_names()[c as int])
                    != self.target_name() by {
                if features@.contains(c) {
                    let a = choose|a: int| 0 <= a < features@.len() && features@[a] == c;
                    if a < before.len() {
                        assert(before[a] == c);
                        assert(before.contains(c));
                    }
                }
                if c < i && Some(self.column_names()[c as int]) != self.target_name() {
                    assert(before.contains(c));
                    let a = choose|a: int| 0 <= a < before.len() && before[a] == c;
                    assert(features@[a] == c);
                }
            }
            i += 1;
        }
        features
    }

    /// The column that holds the target: the first of that name.
    pub fn target_column(&self) -> (column: Option<usize>)
        ensures
            is_target(*self, column),
    {
        proof {
            use_type_invariant(self);
        }
        match &self.target {
            Some(t) => {
                let c = position(&self.columns, t);
                assert(c < self.columns.len()) by {
                    let k = choose|k: int|
                        0 <= k < self.column_names().len() && self.column_names()[k] == t@;
                    assert(names(self.columns@)[k] == t@);
                }
                Some(c)
            },
            None => None,
        }
    }
}

/// Whether `features` are the columns of the features, ascending: every
/// column whose name is not the target's, and every column where there is no
/// target.
pub open spec fn are_features(data: DataSet, features: Seq<usize>) -> bool {
    &&& forall|a: int, b: int| 0 <= a < b < features.len() ==> features[a] < features[b]
    &&& forall|c: usize| #[trigger]
        features.contains(c) <==> c < data.column_names().len() && Some(
            data.column_names()[c as int],
        ) != data.target_name()
}

/// Whether `column` is the column of the target: the first of the target's
/// name, and none where there is no target.
pub open spec fn is_target(data: DataSet, column: Option<usize>) -> bool {
    &&& column is Some == data.target_name() is Some
    &&& column matches Some(c) ==> {
        &&& c < data.column_names().len()
        &&& data.column_names()[c as int] == data.target_name()->0
        &&& forall|k: int| 0 <= k < c ==> data.column_names()[k] != data.target_name()->0
    }
}

/// The place of the first of `columns` with the name `name`, or the number
/// of columns where none has it.
fn position(columns: &Vec<String>, name: &String) -> (at: usize)
    ensures
        at <= columns@.len(),
        at < columns@.len() ==> names(columns@)[at as int] == name@,
        forall|k: int| 0 <= k < at ==> names(columns@)[k] != name@,
        at < columns@.len() <==> names(columns@).contains(name@),
{
    let mut i: usize = 0;
    while i < columns.len()
        invariant
            i <= columns.len(),
            forall|k: int| 0 <= k < i ==> names(columns@)[k] != name@,
        decreases columns.len() - i,
    {
        if columns[i] == *name {
            assert(names(columns@)[i as int] == name@);
            return i;
        }
        i += 1;
    }
    i
}

} // verus!
