//! The fold index: the flat records of a split plan, ordered into repeats and
//! folds of training and test rows.

use vstd::prelude::*;

verus! {

/// Whether a record puts its row into the training or into the test set.
#[derive(Debug, Clone, Copy, PartialEq, Eq, Structural)]
pub enum TrainTest {
    Train,
    Test,
}

/// One record of a split plan: row `rowid` serves as `purpose` in fold `fold`
/// of repeat `repeat`.
#[derive(Debug, Clone, Copy, PartialEq, Eq, Structural)]
pub struct CrossValItem {
    pub purpose: TrainTest,
    pub rowid: usize,
    pub repeat: usize,
    pub fold: usize,
}

/// The records of a split plan, in the order of the plan.
#[derive(Debug)]
pub struct CrossValSplits {
    pub data: Vec<CrossValItem>,
}

/// The rows of one fold, each set in the order of the plan.
#[derive(Debug, Clone)]
pub struct CrossValidationFold {
    pub trainset: Vec<usize>,
    pub testset: Vec<usize>,
}

/// The mathematical value of a fold.
pub struct FoldView {
    pub trainset: Seq<usize>,
    pub testset: Seq<usize>,
}

impl View for CrossValidationFold {
    type V = FoldView;

    open spec fn view(&self) -> FoldView {
        FoldView { trainset: self.trainset@, testset: self.testset@ }
    }
}

impl CrossValidationFold {
    /// A fold without rows.
    pub fn new() -> (fold: Self)
        ensures
            fold@ == empty_fold(),
    {
        CrossValidationFold { trainset: Vec::new(), testset: Vec::new() }
    }
}

/// The fold without rows.
pub open spec fn empty_fold() -> FoldView {
    FoldView { trainset: Seq::empty(), testset: Seq::empty() }
}

/// The number of repeats of a plan: one more than the largest repeat that a
/// record names, and 0 for no record.
pub open spec fn repeat_count(records: Seq<CrossValItem>) -> nat
    decreases records.len(),
{
    if records.len() == 0 {
        0
    } else {
        let before = repeat_count(records.drop_last());
        let here = (records.last().repeat + 1) as nat;
        if here > before {
            here
        } else {
            before
        }
    }
}

/// The number of folds of repeat `r`: one more than the largest fold that a
/// record of that repeat names, and 0 where no record names the repeat.
pub open spec fn fold_count(records: Seq<CrossValItem>, r: int) -> nat
    decreases records.len(),
{
    if records.len() == 0 {
        0
    } else {
        let before = fold_count(records.drop_last(), r);
        let here = (records.last().fold + 1) as nat;
        if records.last().repeat == r && here > before {
            here
        } else {
            before
        }
    }
}

/// The rows that serve as `purpose` in fold `f` of repeat `r`, in the order
/// of the records.
pub open spec fn rows(records: Seq<CrossValItem>, purpose: TrainTest, r: int, f: int) -> Seq<usize>
    decreases records.len(),
{
    if records.len() == 0 {
        Seq::empty()
    } else {
        let before = rows(records.drop_last(), purpose, r, f);
        let last = records.last();
        if last.purpose == purpose && last.repeat == r && last.fold == f {
            before.push(last.rowid)
        } else {
            before
        }
    }
}

/// Fold `f` of repeat `r`.
pub open spec fn fold_at(records: Seq<CrossValItem>, r: int, f: int) -> FoldView {
    FoldView {
        trainset: rows(records, TrainTest::Train, r, f),
        testset: rows(records, TrainTest::Test, r, f),
    }
}

/// The fold index of a plan: by repeat, then by fold.
pub open spec fn fold_index(records: Seq<CrossValItem>) -> Seq<Seq<FoldView>> {
    Seq::new(
        repeat_count(records),
        |r: int| Seq::new(fold_count(records, r), |f: int| fold_at(records, r, f)),
    )
}

/// A repeat beyond the last has no folds, and a fold beyond the last of its
/// repeat has no rows.
pub proof fn lemma_beyond_is_empty(records: Seq<CrossValItem>, r: int, f: int)
    ensures
        r >= repeat_count(records) ==> fold_count(records, r) == 0,
        f >= fold_count(records, r) ==> fold_at(records, r, f) == empty_fold(),
    decreases records.len(),
{
    if records.len() > 0 {
        lemma_beyond_is_empty(records.drop_last(), r, f);
    }
}

/// The folds of a split plan, by repeat, then by fold.
#[derive(Debug)]
pub struct CrossValidation {
    pub folds: Vec<Vec<CrossValidationFold>>,
}

impl View for CrossValidation {
    type V = Seq<Seq<FoldView>>;

    open spec fn view(&self) -> Seq<Seq<FoldView>> {
        grid(self.folds@)
    }
}

/// The values of the folds of `folds`, by repeat, then by fold.
pub open spec fn grid(folds: Seq<Vec<CrossValidationFold>>) -> Seq<Seq<FoldView>> {
    Seq::new(folds.len(), |r: int| Seq::new(folds[r]@.len(), |f: int| folds[r]@[f]@))
}

/// Every fold of `folds` holds the rows that `records` give it.
pub open spec fn covers(folds: Seq<Vec<CrossValidationFold>>, records: Seq<CrossValItem>) -> bool {
    forall|r: int, f: int|
        0 <= r < folds.len() && 0 <= f < folds[r]@.len() ==> (#[trigger] folds[r]@[f])@ == fold_at(
            records,
            r,
            f,
        )
}

/// `folds` has the repeats of `records`, and each of them but `open` has its folds.
pub open spec fn sized(
    folds: Seq<Vec<CrossValidationFold>>,
    records: Seq<CrossValItem>,
    open: int,
) -> bool {
    forall|r: int|
        0 <= r < folds.len() && r != open ==> (#[trigger] folds[r])@.len() == fold_count(records, r)
}

/// What one more record changes in the index.
pub proof fn lemma_record_added(records: Seq<CrossValItem>, item: CrossValItem, r: int, f: int)
    ensures
        records.push(item).drop_last() == records,
        fold_count(records.push(item), r) == if item.repeat == r && item.fold + 1 > fold_count(
            records,
            r,
        ) {
            (item.fold + 1) as nat
        } else {
            fold_count(records, r)
        },
        fold_at(records.push(item), r, f) == if item.repeat == r && item.fold == f {
            match item.purpose {
                TrainTest::Train => FoldView {
                    trainset: fold_at(records, r, f).trainset.push(item.rowid),
                    testset: fold_at(records, r, f).testset,
                },
                TrainTest::Test => FoldView {
                    trainset: fold_at(records, r, f).trainset,
                    testset: fold_at(records, r, f).testset.push(item.rowid),
                },
            }
        } else {
            fold_at(records, r, f)
        },
{
    assert(records.push(item).drop_last() =~= records);
}

impl CrossValidation {
    /// Builds the fold index of a split plan. Repeats and folds that no
    /// record names, below ones that a record does name, are there and empty.
    pub fn from(xvs: CrossValSplits) -> (xv: CrossValidation)
        ensures
            xv@ == fold_index(xvs.data@),
    {
        let mut folds: Vec<Vec<CrossValidationFold>> = Vec::new();
        let ghost records = xvs.data@;
        let mut k: usize = 0;
        while k < xvs.data.len()
            invariant
                k <= xvs.data.len(),
                records == xvs.data@,
                folds.len() == repeat_count(records.take(k as int)),
                sized(folds@, records.take(k as int), -1),
                covers(folds@, records.take(k as int)),
            decreases xvs.data.len() - k,
        {
            let item = xvs.data[k];
            let ghost seen = records.take(k as int);
            proof {
                assert(records.take(k as int + 1) =~= seen.push(item));
                lemma_record_added(seen, item, 0, 0);
            }
            while folds.len() <= item.repeat
                invariant
                    folds.len() >= repeat_count(seen),
                    folds.len() <= repeat_count(seen.push(item)),
                    seen.push(item).drop_last() == seen,
                    sized(folds@, seen, -1),
                    covers(folds@, seen),
                decreases item.repeat + 1 - folds.len(),
            {
                proof {
                    lemma_beyond_is_empty(seen, folds.len() as int, 0);
                }
                folds.push(Vec::new());
            }
            while folds[item.repeat].len() <= item.fold
                invariant
                    folds.len() == repeat_count(seen.push(item)),
                    seen.push(item).drop_last() == seen,
                    item.repeat < folds.len(),
                    sized(folds@, seen, item.repeat as int),
                    folds[item.repeat as int].len() >= fold_count(seen, item.repeat as int),
                    folds[item.repeat as int].len() <= fold_count(
                        seen.push(item),
                        item.repeat as int,
                    ),
                    covers(folds@, seen),
                decreases item.fold + 1 - folds[item.repeat as int].len(),
            {
                let ghost before = folds@;
                proof {
                    lemma_beyond_is_empty(
                        seen,
                        item.repeat as int,
                        folds[item.repeat as int].len() as int,
                    );
                    lemma_record_added(seen, item, item.repeat as int, 0);
                }
                folds[item.repeat].push(CrossValidationFold::new());
                assert(covers(folds@, seen)) by {
                    assert forall|r: int, f: int|
                        0 <= r < folds@.len() && 0 <= f < folds@[r]@.len() implies (
                    #[trigger] folds@[r]@[f])@ == fold_at(seen, r, f) by {
                        if r == item.repeat && f == before[r]@.len() {
                        } else {
                            assert(folds@[r]@[f] == before[r]@[f]);
                        }
                    }
                }
            }
            let ghost before = folds@;
            match item.purpose {
                TrainTest::Train => folds[item.repeat][item.fold].trainset.push(item.rowid),
                TrainTest::Test => folds[item.repeat][item.fold].testset.push(item.rowid),
            }
            k += 1;
            proof {
                let now = seen.push(item);
                assert(records.take(k as int) == now);
                lemma_record_added(seen, item, item.repeat as int, 0);
                assert(sized(folds@, now, -1)) by {
                    assert forall|r: int| 0 <= r < folds@.len() implies (#[trigger] folds@[r])@.len()
                        == fold_count(now, r) by {
                        lemma_record_added(seen, item, r, 0);
                        if r != item.repeat {
                            assert(folds@[r] == before[r]);
                        }
                    }
                }
                assert(covers(folds@, now)) by {
                    assert forall|r: int, f: int|
                        0 <= r < folds@.len() && 0 <= f < folds@[r]@.len() implies (
                    #[trigger] folds@[r]@[f])@ == fold_at(now, r, f) by {
                        lemma_record_added(seen, item, r, f);
                        if r == item.repeat && f == item.fold {
                        } else {
                            assert(folds@[r]@[f] == before[r]@[f]);
                        }
                    }
                }
            }
        }
        proof {
            assert(records.take(k as int) =~= records);
            assert(grid(folds@) =~= fold_index(records)) by {
                assert forall|r: int| 0 <= r < folds@.len() implies #[trigger] grid(folds@)[r]
                    =~= fold_index(records)[r] by {
                    assert(folds@[r]@.len() == fold_count(records, r));
                    assert forall|f: int| 0 <= f < folds@[r]@.len() implies grid(folds@)[r][f]
                        == fold_index(records)[r][f] by {
                        assert(folds@[r]@[f]@ == fold_at(records, r, f));
                    }
                }
            }
        }
        CrossValidation { folds }
    }
}

impl CrossValidation {
    /// Whether every row of every fold is a row of a table of `n_rows` rows.
    pub fn rows_within(&self, n_rows: usize) -> (within: bool)
        ensures
            within == rows_below(self@, n_rows as nat),
    {
        let mut r: usize = 0;
        while r < self.folds.len()
            invariant
                r <= self.folds.len(),
                forall|i: int, f: int|
                    0 <= i < r && 0 <= f < self@[i].len() ==> fold_below(
                        #[trigger] self@[i][f],
                        n_rows as nat,
                    ),
            decreases self.folds.len() - r,
        {
            let repeat = &self.folds[r];
            let mut f: usize = 0;
            while f < repeat.len()
                invariant
                    f <= repeat.len(),
                    r < self.folds.len(),
                    repeat == self.folds[r as int],
                    forall|g: int|
                        0 <= g < f ==> fold_below(#[trigger] self@[r as int][g], n_rows as nat),
                decreases repeat.len() - f,
            {
                let fold = &repeat[f];
                assert(self@[r as int][f as int] == fold@);
                let train_within = all_below(&fold.trainset, n_rows);
                let test_within = all_below(&fold.testset, n_rows);
                assert(fold@.trainset == fold.trainset@ && fold@.testset == fold.testset@);
                assert((train_within && test_within) == fold_below(fold@, n_rows as nat));
                if !train_within || !test_within {
                    return false;
                }
                f += 1;
            }
            r += 1;
        }
        true
    }
}

/// Whether every number of `rows` is below `bound`.
fn all_below(rows: &Vec<usize>, bound: usize) -> (below: bool)
    ensures
        below == (forall|a: int| 0 <= a < rows@.len() ==> rows@[a] < bound),
{
    let mut a: usize = 0;
    while a < rows.len()
        invariant
            a <= rows.len(),
            forall|b: int| 0 <= b < a ==> rows@[b] < bound,
        decreases rows.len() - a,
    {
        if rows[a] >= bound {
            return false;
        }
        a += 1;
    }
    true
}

/// Every row of the fold is below `n_rows`.
pub open spec fn fold_below(fold: FoldView, n_rows: nat) -> bool {
    &&& forall|a: int| 0 <= a < fold.trainset.len() ==> fold.trainset[a] < n_rows
    &&& forall|a: int| 0 <= a < fold.testset.len() ==> fold.testset[a] < n_rows
}

/// Every row of every fold is below `n_rows`.
pub open spec fn rows_below(index: Seq<Seq<FoldView>>, n_rows: nat) -> bool {
    forall|r: int, f: int|
        0 <= r < index.len() && 0 <= f < index[r].len() ==> fold_below(#[trigger] index[r][f], n_rows)
}

/// No row of the fold is in both of its sets.
pub open spec fn fold_disjoint(fold: FoldView) -> bool {
    forall|a: int, b: int|
        0 <= a < fold.trainset.len() && 0 <= b < fold.testset.len() ==> fold.trainset[a]
            != fold.testset[b]
}

/// No record of the plan puts into the test set of a fold a row that another
/// puts into the training set of the same fold.
pub open spec fn plan_disjoint(records: Seq<CrossValItem>) -> bool {
    forall|i: int, j: int|
        0 <= i < records.len() && 0 <= j < records.len() && (#[trigger] records[i]).purpose
            == TrainTest::Train && (#[trigger] records[j]).purpose == TrainTest::Test
            && records[i].repeat == records[j].repeat && records[i].fold == records[j].fold
            ==> records[i].rowid != records[j].rowid
}

/// Every record of the plan names a row below `n_rows`.
pub open spec fn plan_below(records: Seq<CrossValItem>, n_rows: nat) -> bool {
    forall|i: int| 0 <= i < records.len() ==> (#[trigger] records[i]).rowid < n_rows
}

/// Each row of a fold comes from a record that names the fold, the purpose
/// and the row.
pub proof fn lemma_row_has_record(
    records: Seq<CrossValItem>,
    purpose: TrainTest,
    r: int,
    f: int,
    a: int,
) -> (i: int)
    requires
        0 <= a < rows(records, purpose, r, f).len(),
    ensures
        0 <= i < records.len(),
        records[i].purpose == purpose,
        records[i].repeat == r,
        records[i].fold == f,
        records[i].rowid == rows(records, purpose, r, f)[a],
    decreases records.len(),
{
    let before = rows(records.drop_last(), purpose, r, f);
    if a < before.len() {
        lemma_row_has_record(records.drop_last(), purpose, r, f, a)
    } else {
        records.len() - 1
    }
}

/// The partition law of the fold index. Where no record of a plan puts a row
/// into both sets of one fold, and every record names a row of the table, the
/// two sets of each fold of the index have no row in common, and every row of
/// either is a row of the table.
pub proof fn lemma_fold_partition(records: Seq<CrossValItem>, n_rows: nat, r: int, f: int)
    requires
        plan_disjoint(records),
        plan_below(records, n_rows),
        0 <= r < fold_index(records).len(),
        0 <= f < fold_index(records)[r].len(),
    ensures
        fold_disjoint(fold_index(records)[r][f]),
        fold_below(fold_index(records)[r][f], n_rows),
{
    let fold = fold_index(records)[r][f];
    assert(fold == fold_at(records, r, f));
    assert forall|a: int, b: int|
        0 <= a < fold.trainset.len() && 0 <= b < fold.testset.len() implies fold.trainset[a]
        != fold.testset[b] by {
        let i = lemma_row_has_record(records, TrainTest::Train, r, f, a);
        let j = lemma_row_has_record(records, TrainTest::Test, r, f, b);
    }
    assert forall|a: int| 0 <= a < fold.trainset.len() implies fold.trainset[a] < n_rows by {
        let i = lemma_row_has_record(records, TrainTest::Train, r, f, a);
    }
    assert forall|a: int| 0 <= a < fold.testset.len() implies fold.testset[a] < n_rows by {
        let i = lemma_row_has_record(records, TrainTest::Test, r, f, a);
    }
}

/// An estimation procedure.
#[derive(Debug)]
pub enum Procedure {
    /// A split plan that was computed beforehand.
    Frozen(CrossValidation),
}

/// The folds of an index in the order of evaluation: those of the first
/// repeat in their order, then those of the next.
pub open spec fn row_major(index: Seq<Seq<FoldView>>) -> Seq<FoldView>
    decreases index.len(),
{
    if index.len() == 0 {
        Seq::empty()
    } else {
        row_major(index.drop_last()) + index.last()
    }
}

impl Procedure {
    /// The index of the procedure's folds.
    pub open spec fn index(&self) -> Seq<Seq<FoldView>> {
        match self {
            Procedure::Frozen(xv) => xv@,
        }
    }

    /// The folds in the order of evaluation.
    pub fn iter(&self) -> (folds: Vec<&CrossValidationFold>)
        ensures
            folds@.len() == row_major(self.index()).len(),
            forall|i: int| 0 <= i < folds@.len() ==> (#[trigger] folds@[i])@ == row_major(self.index())[i],
    {
        match self {
            Procedure::Frozen(xv) => {
                let mut out: Vec<&CrossValidationFold> = Vec::new();
                let mut r: usize = 0;
                assert(xv@.take(0) =~= Seq::empty());
                while r < xv.folds.len()
                    invariant
                        r <= xv.folds.len(),
                        out@.len() == row_major(xv@.take(r as int)).len(),
                        forall|i: int|
                            0 <= i < out@.len() ==> (#[trigger] out@[i])@ == row_major(
                                xv@.take(r as int),
                            )[i],
                    decreases xv.folds.len() - r,
                {
                    let repeat = &xv.folds[r];
                    let ghost done = row_major(xv@.take(r as int));
                    let mut f: usize = 0;
                    while f < repeat.len()
                        invariant
                            f <= repeat.len(),
                            r < xv.folds.len(),
                            repeat == xv.folds[r as int],
                            out@.len() == done.len() + f,
                            forall|i: int| 0 <= i < done.len() ==> (#[trigger] out@[i])@ == done[i],
                            forall|g: int|
                                0 <= g < f ==> (#[trigger] out@[done.len() + g])@ == xv@[r as int][g],
                        decreases repeat.len() - f,
                    {
                        out.push(&repeat[f]);
                        f += 1;
                    }
                    proof {
                        let next = row_major(xv@.take(r as int + 1));
                        assert(xv@.take(r as int + 1).drop_last() =~= xv@.take(r as int));
                        assert(xv@.take(r as int + 1).last() == xv@[r as int]);
                        assert(next == done + xv@[r as int]);
                        assert forall|i: int| 0 <= i < out@.len() implies (#[trigger] out@[i])@
                            == next[i] by {
                            if i >= done.len() {
                                let g = i - done.len();
                                assert(out@[done.len() + g]@ == xv@[r as int][g]);
                            }
                        }
                    }
                    r += 1;
                }
                assert(xv@.take(r as int) =~= xv@);
                out
            },
        }
    }
}

} // verus!
