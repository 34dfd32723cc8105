use openml::folds::{
    CrossValItem, CrossValSplits, CrossValidation, CrossValidationFold, Procedure, TrainTest,
};

fn item(purpose: TrainTest, rowid: usize, repeat: usize, fold: usize) -> CrossValItem {
    CrossValItem { purpose, rowid, repeat, fold }
}

fn index(data: Vec<CrossValItem>) -> CrossValidation {
    CrossValidation::from(CrossValSplits { data })
}

#[test]
fn new_fold_is_empty() {
    let fold = CrossValidationFold::new();
    assert!(fold.trainset.is_empty());
    assert!(fold.testset.is_empty());
}

#[test]
fn no_records_no_repeats() {
    let xv = index(vec![]);
    assert!(xv.folds.is_empty());
}

#[test]
fn records_go_to_their_fold_in_order() {
    let xv = index(vec![
        item(TrainTest::Train, 0, 0, 0),
        item(TrainTest::Test, 1, 0, 0),
        item(TrainTest::Train, 1, 0, 1),
        item(TrainTest::Test, 0, 0, 1),
        item(TrainTest::Train, 2, 0, 0),
    ]);
    assert_eq!(xv.folds.len(), 1);
    assert_eq!(xv.folds[0].len(), 2);
    assert_eq!(xv.folds[0][0].trainset, vec![0, 2]);
    assert_eq!(xv.folds[0][0].testset, vec![1]);
    assert_eq!(xv.folds[0][1].trainset, vec![1]);
    assert_eq!(xv.folds[0][1].testset, vec![0]);
}

#[test]
fn sparse_indices_leave_empty_folds() {
    let xv = index(vec![item(TrainTest::Test, 7, 2, 1)]);
    assert_eq!(xv.folds.len(), 3);
    assert_eq!(xv.folds[0].len(), 0);
    assert_eq!(xv.folds[1].len(), 0);
    assert_eq!(xv.folds[2].len(), 2);
    assert!(xv.folds[2][0].trainset.is_empty());
    assert!(xv.folds[2][0].testset.is_empty());
    assert!(xv.folds[2][1].trainset.is_empty());
    assert_eq!(xv.folds[2][1].testset, vec![7]);
}

#[test]
fn a_row_may_come_twice() {
    let xv = index(vec![item(TrainTest::Train, 3, 0, 0), item(TrainTest::Train, 3, 0, 0)]);
    assert_eq!(xv.folds[0][0].trainset, vec![3, 3]);
}

#[test]
fn folds_of_a_consistent_plan_are_disjoint_and_within_the_table() {
    let n_rows = 4;
    let mut data = vec![];
    for fold in 0..2 {
        for row in 0..n_rows {
            let purpose = if row % 2 == fold { TrainTest::Test } else { TrainTest::Train };
            data.push(item(purpose, row, 0, fold));
        }
    }
    let xv = index(data);
    assert!(xv.rows_within(n_rows));
    for repeat in &xv.folds {
        for fold in repeat {
            assert!(fold.trainset.iter().all(|r| !fold.testset.contains(r)));
            assert!(fold.trainset.iter().chain(fold.testset.iter()).all(|r| *r < n_rows));
        }
    }
}

#[test]
fn rows_within_tells_a_row_beyond_the_table() {
    let xv = index(vec![item(TrainTest::Train, 0, 0, 0), item(TrainTest::Test, 5, 1, 0)]);
    assert!(xv.rows_within(6));
    assert!(!xv.rows_within(5));
    assert!(!xv.rows_within(0));
    assert!(index(vec![]).rows_within(0));
}

#[test]
fn iter_goes_by_repeat_then_by_fold() {
    let xv = index(vec![
        item(TrainTest::Train, 11, 1, 0),
        item(TrainTest::Train, 1, 0, 1),
        item(TrainTest::Train, 0, 0, 0),
        item(TrainTest::Train, 12, 1, 1),
    ]);
    let procedure = Procedure::Frozen(xv);
    let order: Vec<Vec<usize>> = procedure.iter().iter().map(|f| f.trainset.clone()).collect();
    assert_eq!(order, vec![vec![0], vec![1], vec![11], vec![12]]);
}

#[test]
fn iter_of_no_folds_is_empty() {
    let procedure = Procedure::Frozen(index(vec![]));
    assert!(procedure.iter().is_empty());
    let procedure = Procedure::Frozen(index(vec![item(TrainTest::Train, 0, 1, 0)]));
    assert_eq!(procedure.iter().len(), 1);
}
