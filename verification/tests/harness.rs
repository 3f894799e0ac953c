use mnist_harness::encoding::LabelEncoding;
use mnist_harness::error::HarnessError;
use mnist_harness::error::PredictError;
use mnist_harness::error::TrainError;
use mnist_harness::harness::Action;
use mnist_harness::harness::EvaluationHarness;
use mnist_harness::harness::Event;
use mnist_harness::harness::Phase;
use mnist_harness::harness::RowRange;
use mnist_harness::scoring::Accuracy;
use mnist_harness::store::MnistData;
use mnist_harness::store::Partition;
use mnist_harness::store::RawPartition;
use rusty_machine::linalg::BaseMatrix;
use rusty_machine::linalg::Matrix;

fn shade(tag: usize, k: usize) -> u8 {
    ((k * 3 + tag * 17) % 253) as u8
}

fn class_of(tag: usize, r: usize) -> u8 {
    ((r * 3 + tag) % 10) as u8
}

fn shades(tag: usize, rows: usize) -> Vec<u8> {
    (0..784 * rows).map(|k| shade(tag, k)).collect()
}

fn indicator_partition(tag: usize, rows: usize) -> RawPartition {
    let mut labels: Vec<u8> = vec![0; 10 * rows];
    for r in 0..rows {
        labels[10 * r + class_of(tag, r) as usize] = 1;
    }
    RawPartition { images: shades(tag, rows), labels, rows }
}

fn scalar_partition(tag: usize, rows: usize) -> RawPartition {
    let labels: Vec<u8> = (0..rows).map(|r| class_of(tag, r)).collect();
    RawPartition { images: shades(tag, rows), labels, rows }
}

fn indicator_store() -> MnistData {
    MnistData::new(
        LabelEncoding::OneHot,
        indicator_partition(0, 10),
        indicator_partition(1, 10),
        indicator_partition(2, 4),
    )
    .unwrap()
}

fn scalar_store() -> MnistData {
    MnistData::new(
        LabelEncoding::Digit,
        scalar_partition(0, 10),
        scalar_partition(1, 10),
        scalar_partition(2, 4),
    )
    .unwrap()
}

fn rows_of(partition: Partition, start: usize, end: usize) -> RowRange {
    RowRange { partition, start, end }
}

/// What a backend that repeats a label matrix would predict.
fn repeat(labels: &Matrix<u8>) -> Vec<Vec<Option<u8>>> {
    if labels.cols() == 0 {
        return vec![Vec::new(); labels.rows()];
    }
    labels.data().chunks(labels.cols()).map(|row| row.iter().map(|b| Some(*b)).collect()).collect()
}

fn trained(store: &MnistData, training: RowRange, evaluation: RowRange) -> EvaluationHarness<'_> {
    let mut harness = EvaluationHarness::new(store, training, evaluation).unwrap();
    assert!(matches!(harness.step(Event::Start), Action::Train { .. }));
    assert!(matches!(harness.step(Event::Trained), Action::Predict { .. }));
    harness
}

#[test]
fn new_harness_is_loaded() {
    let training = rows_of(Partition::Training, 0, 10);
    let evaluation = rows_of(Partition::Validation, 2, 7);
    let store = indicator_store();
    let harness = EvaluationHarness::new(&store, training, evaluation).unwrap();
    assert_eq!(harness.phase(), Phase::Loaded);
    assert!(!harness.is_aborted());
    assert_eq!(harness.training(), training);
    assert_eq!(harness.evaluation(), evaluation);
    assert_eq!(harness.store().row_count(Partition::Test), 4);
}

#[test]
fn harness_rejects_rows_outside_their_partition() {
    let good = rows_of(Partition::Training, 0, 10);
    let long = rows_of(Partition::Training, 5, 15);
    let backwards = rows_of(Partition::Validation, 6, 5);
    let past_test = rows_of(Partition::Test, 0, 5);
    let store = indicator_store();
    assert_eq!(
        EvaluationHarness::new(&store, long, good).err(),
        Some(HarnessError::OutOfRange)
    );
    assert_eq!(
        EvaluationHarness::new(&store, good, long).err(),
        Some(HarnessError::OutOfRange)
    );
    assert_eq!(
        EvaluationHarness::new(&store, backwards, good).err(),
        Some(HarnessError::OutOfRange)
    );
    assert_eq!(
        EvaluationHarness::new(&store, good, past_test).err(),
        Some(HarnessError::OutOfRange)
    );
    assert!(EvaluationHarness::new(&store, good, rows_of(Partition::Test, 0, 4)).is_ok());
    assert!(EvaluationHarness::new(&store, rows_of(Partition::Test, 4, 4), good).is_ok());
}

#[test]
fn start_asks_to_train_on_the_training_rows() {
    let store = indicator_store();
    let expected_features = store.image_matrix(Partition::Training, 2..9).unwrap();
    let expected_labels = store.label_matrix(Partition::Training, 2..9).unwrap();
    let mut harness = EvaluationHarness::new(
        &store,
        rows_of(Partition::Training, 2, 9),
        rows_of(Partition::Validation, 0, 10),
    )
    .unwrap();
    match harness.step(Event::Start) {
        Action::Train { features, labels } => {
            assert_eq!((features.rows(), features.cols()), (7, 784));
            assert_eq!((labels.rows(), labels.cols()), (7, 10));
            assert_eq!(features, expected_features);
            assert_eq!(labels, expected_labels);
            assert_eq!(features.data()[0], shade(0, 784 * 2));
        }
        other => panic!("expected a request to train, got {:?}", other),
    }
    assert_eq!(harness.phase(), Phase::Loaded);
}

#[test]
fn trained_asks_to_predict_the_evaluation_rows() {
    let store = indicator_store();
    let expected = store.image_matrix(Partition::Validation, 3..8).unwrap();
    let mut harness = EvaluationHarness::new(
        &store,
        rows_of(Partition::Training, 0, 10),
        rows_of(Partition::Validation, 3, 8),
    )
    .unwrap();
    harness.step(Event::Start);
    match harness.step(Event::Trained) {
        Action::Predict { features } => {
            assert_eq!((features.rows(), features.cols()), (5, 784));
            assert_eq!(features, expected);
            assert_eq!(features.data()[0], shade(1, 784 * 3));
        }
        other => panic!("expected a request to predict, got {:?}", other),
    }
    assert_eq!(harness.phase(), Phase::Trained);
}

#[test]
fn identity_stub_scores_every_row() {
    let store = indicator_store();
    let mut harness = EvaluationHarness::new(
        &store,
        rows_of(Partition::Training, 0, 10),
        rows_of(Partition::Training, 0, 10),
    )
    .unwrap();
    let remembered = match harness.step(Event::Start) {
        Action::Train { features, labels } => {
            assert_eq!((features.rows(), features.cols()), (10, 784));
            assert_eq!((labels.rows(), labels.cols()), (10, 10));
            labels
        }
        other => panic!("expected a request to train, got {:?}", other),
    };
    assert!(matches!(harness.step(Event::Trained), Action::Predict { .. }));
    match harness.step(Event::Predicted(repeat(&remembered))) {
        Action::Report(accuracy) => {
            assert_eq!(accuracy, Accuracy { hits: 10, total: 10 });
            assert!(accuracy.is_perfect());
            assert_eq!(accuracy.hits as f64 / accuracy.total as f64, 1.0);
            assert_eq!(harness.phase(), Phase::Evaluated(accuracy));
        }
        other => panic!("expected a report, got {:?}", other),
    }
}

#[test]
fn perfect_predictor_on_validation_rows_scores_every_row() {
    let store = indicator_store();
    let truth = store.label_matrix(Partition::Validation, 0..10).unwrap();
    let mut harness = trained(
        &store,
        rows_of(Partition::Training, 0, 10),
        rows_of(Partition::Validation, 0, 10),
    );
    match harness.step(Event::Predicted(repeat(&truth))) {
        Action::Report(accuracy) => assert_eq!(accuracy, Accuracy { hits: 10, total: 10 }),
        other => panic!("expected a report, got {:?}", other),
    }
}

#[test]
fn training_labels_are_not_the_validation_truth() {
    let store = indicator_store();
    let training_labels = store.label_matrix(Partition::Training, 0..10).unwrap();
    let mut harness = trained(
        &store,
        rows_of(Partition::Training, 0, 10),
        rows_of(Partition::Validation, 0, 10),
    );
    match harness.step(Event::Predicted(repeat(&training_labels))) {
        Action::Report(accuracy) => assert_eq!(accuracy, Accuracy { hits: 0, total: 10 }),
        other => panic!("expected a report, got {:?}", other),
    }
}

#[test]
fn partial_hits_are_counted_row_by_row() {
    let store = scalar_store();
    let truth = store.label_matrix(Partition::Validation, 2..9).unwrap();
    assert_eq!(truth.data(), &vec![7, 0, 3, 6, 9, 2, 5]);
    let mut harness = trained(
        &store,
        rows_of(Partition::Training, 0, 10),
        rows_of(Partition::Validation, 2, 9),
    );
    let predicted = vec![
        vec![Some(7)],
        vec![Some(1)],
        vec![Some(3)],
        vec![None],
        vec![Some(9)],
        vec![Some(2), Some(2)],
        vec![Some(5)],
    ];
    match harness.step(Event::Predicted(predicted)) {
        Action::Report(accuracy) => {
            assert_eq!(accuracy, Accuracy { hits: 4, total: 7 });
            assert!(!accuracy.is_perfect());
            assert_eq!(harness.phase(), Phase::Evaluated(Accuracy { hits: 4, total: 7 }));
        }
        other => panic!("expected a report, got {:?}", other),
    }
}

#[test]
fn score_counts_against_the_evaluation_rows_in_any_phase() {
    let store = scalar_store();
    let harness = EvaluationHarness::new(
        &store,
        rows_of(Partition::Training, 0, 10),
        rows_of(Partition::Test, 1, 4),
    )
    .unwrap();
    let predicted = vec![vec![Some(5)], vec![Some(8)], vec![Some(0)]];
    assert_eq!(harness.score(&predicted), Accuracy { hits: 2, total: 3 });
    assert_eq!(harness.score(&Vec::new()), Accuracy { hits: 0, total: 3 });
    assert_eq!(harness.phase(), Phase::Loaded);
}

#[test]
fn evaluating_twice_gives_the_same_hits() {
    // The true digits of validation rows 0..4 are 1, 4, 7, 0.
    let predicted = vec![vec![Some(1)], vec![Some(4)], vec![Some(0)], vec![Some(0)]];
    let mut reports = Vec::new();
    for _ in 0..2 {
        let store = scalar_store();
        let mut harness = trained(
            &store,
            rows_of(Partition::Training, 0, 10),
            rows_of(Partition::Validation, 0, 4),
        );
        match harness.step(Event::Predicted(predicted.clone())) {
            Action::Report(accuracy) => reports.push(accuracy),
            other => panic!("expected a report, got {:?}", other),
        }
    }
    assert_eq!(reports[0], Accuracy { hits: 3, total: 4 });
    assert_eq!(reports[0], reports[1]);
}

#[test]
fn empty_evaluation_range_reports_no_rows() {
    let store = indicator_store();
    let mut harness = trained(
        &store,
        rows_of(Partition::Training, 0, 10),
        rows_of(Partition::Validation, 4, 4),
    );
    match harness.step(Event::Predicted(Vec::new())) {
        Action::Report(accuracy) => assert_eq!(accuracy, Accuracy { hits: 0, total: 0 }),
        other => panic!("expected a report, got {:?}", other),
    }
}

#[test]
fn train_failure_aborts_the_run_with_its_cause() {
    let store = indicator_store();
    let mut harness = EvaluationHarness::new(
        &store,
        rows_of(Partition::Training, 0, 10),
        rows_of(Partition::Validation, 0, 10),
    )
    .unwrap();
    harness.step(Event::Start);
    assert!(!harness.is_aborted());
    match harness.step(Event::TrainFailed(TrainError::Convergence)) {
        Action::Abort(error) => assert_eq!(error, HarnessError::Train(TrainError::Convergence)),
        other => panic!("expected the run to end, got {:?}", other),
    }
    assert!(harness.is_aborted());
    assert_eq!(harness.phase(), Phase::Loaded);
}

#[test]
fn train_failure_carries_the_backend_cause() {
    let store = scalar_store();
    let mut harness = EvaluationHarness::new(
        &store,
        rows_of(Partition::Training, 0, 10),
        rows_of(Partition::Validation, 0, 10),
    )
    .unwrap();
    let cause = TrainError::Backend(String::from("singular covariance"));
    match harness.step(Event::TrainFailed(cause.clone())) {
        Action::Abort(error) => assert_eq!(error, HarnessError::Train(cause)),
        other => panic!("expected the run to end, got {:?}", other),
    }
    assert!(harness.is_aborted());
}

#[test]
fn predict_failure_aborts_the_run_with_its_cause() {
    let store = indicator_store();
    let mut harness = trained(
        &store,
        rows_of(Partition::Training, 0, 10),
        rows_of(Partition::Validation, 0, 10),
    );
    let cause = PredictError::Backend(String::from("the model has not been trained"));
    match harness.step(Event::PredictFailed(cause.clone())) {
        Action::Abort(error) => assert_eq!(error, HarnessError::Predict(cause)),
        other => panic!("expected the run to end, got {:?}", other),
    }
    assert!(harness.is_aborted());
    assert_eq!(harness.phase(), Phase::Trained);
}

#[test]
fn an_aborted_run_accepts_nothing_more() {
    let store = indicator_store();
    let truth = store.label_matrix(Partition::Validation, 0..10).unwrap();
    let mut failed_to_train = EvaluationHarness::new(
        &store,
        rows_of(Partition::Training, 0, 10),
        rows_of(Partition::Validation, 0, 10),
    )
    .unwrap();
    failed_to_train.step(Event::TrainFailed(TrainError::Convergence));
    assert!(matches!(failed_to_train.step(Event::Start), Action::Reject));
    assert!(matches!(failed_to_train.step(Event::Trained), Action::Reject));
    assert!(matches!(
        failed_to_train.step(Event::TrainFailed(TrainError::Convergence)),
        Action::Reject
    ));
    assert!(matches!(failed_to_train.step(Event::Predicted(repeat(&truth))), Action::Reject));
    assert_eq!(failed_to_train.phase(), Phase::Loaded);
    assert!(failed_to_train.is_aborted());

    let mut failed_to_predict = trained(
        &store,
        rows_of(Partition::Training, 0, 10),
        rows_of(Partition::Validation, 0, 10),
    );
    let cause = PredictError::Backend(String::from("out of memory"));
    failed_to_predict.step(Event::PredictFailed(cause.clone()));
    assert!(matches!(failed_to_predict.step(Event::Predicted(repeat(&truth))), Action::Reject));
    assert!(matches!(failed_to_predict.step(Event::PredictFailed(cause)), Action::Reject));
    assert!(matches!(failed_to_predict.step(Event::Start), Action::Reject));
    assert_eq!(failed_to_predict.phase(), Phase::Trained);
    assert!(failed_to_predict.is_aborted());
}

#[test]
fn events_out_of_place_are_rejected_and_change_nothing() {
    let store = indicator_store();
    let mut harness = EvaluationHarness::new(
        &store,
        rows_of(Partition::Training, 0, 10),
        rows_of(Partition::Validation, 0, 10),
    )
    .unwrap();
    assert!(matches!(harness.step(Event::Predicted(Vec::new())), Action::Reject));
    let early = PredictError::Backend(String::from("early"));
    assert!(matches!(harness.step(Event::PredictFailed(early)), Action::Reject));
    assert_eq!(harness.phase(), Phase::Loaded);

    harness.step(Event::Trained);
    assert_eq!(harness.phase(), Phase::Trained);
    assert!(matches!(harness.step(Event::Start), Action::Reject));
    assert!(matches!(harness.step(Event::Trained), Action::Reject));
    assert!(matches!(harness.step(Event::TrainFailed(TrainError::Convergence)), Action::Reject));
    assert_eq!(harness.phase(), Phase::Trained);
    assert!(!harness.is_aborted());
}

#[test]
fn an_evaluated_run_accepts_nothing_more() {
    let store = scalar_store();
    let mut harness = trained(
        &store,
        rows_of(Partition::Training, 0, 10),
        rows_of(Partition::Validation, 0, 2),
    );
    let predicted = vec![vec![Some(1)], vec![Some(0)]];
    assert!(matches!(harness.step(Event::Predicted(predicted.clone())), Action::Report(_)));
    let done = Phase::Evaluated(Accuracy { hits: 1, total: 2 });
    assert_eq!(harness.phase(), done);
    assert!(matches!(harness.step(Event::Start), Action::Reject));
    assert!(matches!(harness.step(Event::Trained), Action::Reject));
    assert!(matches!(harness.step(Event::Predicted(predicted)), Action::Reject));
    let late = PredictError::Backend(String::from("late"));
    assert!(matches!(harness.step(Event::PredictFailed(late)), Action::Reject));
    assert!(matches!(harness.step(Event::TrainFailed(TrainError::Convergence)), Action::Reject));
    assert_eq!(harness.phase(), done);
    assert!(!harness.is_aborted());
}
