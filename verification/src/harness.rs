//! The evaluation harness: one train, predict, score run over a store.
//!
//! The harness decides and the caller acts. Each call of `step` takes what
//! happened outside, moves the run on and says what to do next; fitting a
//! model and scoring features are the caller's to perform.
//!
//! A run goes from `Loaded` to `Trained` to `Evaluated` and never back. A
//! failure of the backend is final: the run is aborted where it stands and
//! answers nothing after that.

use crate::encoding::IMAGE_STRIDE;
use crate::error::HarnessError;
use crate::error::PredictError;
use crate::error::TrainError;
use crate::matrix::matrix_is;
use crate::matrix::matrix_row_seq;
use crate::matrix::matrix_wf;
use crate::matrix::split_rows;
use crate::scoring::count_hits;
use crate::scoring::hits;
use crate::scoring::is_hit;
use crate::scoring::lemma_perfect_predictor;
use crate::scoring::predicted_rows;
use crate::scoring::Accuracy;
use crate::store::MnistData;
use crate::store::Partition;
use crate::store::DataView;
use rusty_machine::linalg::Matrix;
use vstd::prelude::*;

verus! {

/// A half-open range of rows in one partition.
#[derive(Clone, Copy, Debug, PartialEq, Eq, Structural)]
pub struct RowRange {
    pub partition: Partition,
    pub start: usize,
    pub end: usize,
}

impl RowRange {
    /// Number of rows in the range, none if it runs backwards.
    pub open spec fn count(self) -> nat {
        if self.start <= self.end {
            (self.end - self.start) as nat
        } else {
            0
        }
    }
}

/// How far a run has come.
#[derive(Clone, Copy, Debug, PartialEq, Eq, Structural)]
pub enum Phase {
    /// The store is there; no model has been fitted.
    Loaded,
    /// A model has been fitted on the training rows.
    Trained,
    /// The model's predictions on the evaluation rows have been scored.
    Evaluated(Accuracy),
}

/// What happened outside the harness.
#[derive(Debug)]
pub enum Event {
    /// The caller wants the run to begin.
    Start,
    /// The backend fitted a model on the rows it was given.
    Trained,
    /// The backend could not fit a model.
    TrainFailed(TrainError),
    /// The backend scored the evaluation rows: one row of cells per
    /// feature row, each cell the byte the predicted value equals, or
    /// `None` where it equals no byte.
    Predicted(Vec<Vec<Option<u8>>>),
    /// The backend could not score the evaluation rows.
    PredictFailed(PredictError),
}

/// What the caller is to do next.
#[derive(Debug)]
pub enum Action {
    /// Fit a model on these features and labels, then report `Trained` or
    /// `TrainFailed`.
    Train { features: Matrix<u8>, labels: Matrix<u8> },
    /// Score these features with the fitted model, then report `Predicted`
    /// or `PredictFailed`.
    Predict { features: Matrix<u8> },
    /// The run is over; this is its accuracy.
    Report(Accuracy),
    /// The run has failed for good; this is why.
    Abort(HarnessError),
    /// The event has no place in the run as it stands; nothing changed.
    Reject,
}

/// What a harness holds.
pub struct HarnessView {
    pub store: DataView,
    pub training: RowRange,
    pub evaluation: RowRange,
    pub phase: Phase,
    /// The backend has failed and the run is over.
    pub aborted: bool,
}

impl HarnessView {
    /// The row range lies within its partition.
    pub open spec fn covers(self, rows: RowRange) -> bool {
        self.store.in_range(rows.partition, rows.start as int, rows.end as int)
    }

    /// The store keeps its geometry and covers both row ranges.
    pub open spec fn wf(self) -> bool {
        &&& self.store.wf()
        &&& self.covers(self.training)
        &&& self.covers(self.evaluation)
    }

    /// The same run in another phase.
    pub open spec fn in_phase(self, phase: Phase) -> HarnessView {
        HarnessView {
            store: self.store,
            training: self.training,
            evaluation: self.evaluation,
            phase,
            aborted: self.aborted,
        }
    }

    /// The same run, aborted in the phase it is in.
    pub open spec fn abort(self) -> HarnessView {
        HarnessView {
            store: self.store,
            training: self.training,
            evaluation: self.evaluation,
            phase: self.phase,
            aborted: true,
        }
    }

    /// `m` is the image matrix of the row range: one row of 784 raw bytes
    /// per row of the range.
    pub open spec fn is_features(self, m: Matrix<u8>, rows: RowRange) -> bool {
        &&& matrix_wf(m)
        &&& matrix_is(
            m,
            rows.end - rows.start,
            IMAGE_STRIDE as int,
            self.store.image_rows(rows.partition, rows.start as int, rows.end as int),
        )
    }

    /// `m` is the label matrix of the row range: one label row of the
    /// encoding's width per row of the range.
    pub open spec fn is_labels(self, m: Matrix<u8>, rows: RowRange) -> bool {
        &&& matrix_wf(m)
        &&& matrix_is(
            m,
            rows.end - rows.start,
            self.store.stride() as int,
            self.store.label_rows(rows.partition, rows.start as int, rows.end as int),
        )
    }

    /// The true label rows of the evaluation range.
    pub open spec fn truth(self) -> Seq<Seq<u8>> {
        split_rows(
            self.store.label_rows(
                self.evaluation.partition,
                self.evaluation.start as int,
                self.evaluation.end as int,
            ),
            self.evaluation.count(),
            self.store.stride(),
        )
    }

    /// The accuracy of a prediction over the evaluation range: the hits
    /// against the true label rows, out of as many rows as the range has.
    pub open spec fn score(self, predicted: Seq<Vec<Option<u8>>>) -> Accuracy {
        Accuracy {
            hits: hits(self.truth(), predicted_rows(predicted)) as usize,
            total: self.evaluation.count() as usize,
        }
    }

    /// The run after an event. It moves from `Loaded` to `Trained` when a
    /// model was fitted and from `Trained` to `Evaluated` when predictions
    /// came in, and it is aborted when the step it was waiting for failed.
    /// Every other event, and every event once it is aborted, leaves it as
    /// it is.
    pub open spec fn after(self, event: Event) -> HarnessView {
        if self.aborted {
            self
        } else {
            match (self.phase, event) {
                (Phase::Loaded, Event::Trained) => self.in_phase(Phase::Trained),
                (Phase::Loaded, Event::TrainFailed(_)) => self.abort(),
                (Phase::Trained, Event::Predicted(predicted)) => self.in_phase(
                    Phase::Evaluated(self.score(predicted@)),
                ),
                (Phase::Trained, Event::PredictFailed(_)) => self.abort(),
                _ => self,
            }
        }
    }

    /// `action` is what the harness answers to `event` as the run stands.
    pub open spec fn answers(self, event: Event, action: Action) -> bool {
        if self.aborted {
            action == Action::Reject
        } else {
            match (self.phase, event) {
                (Phase::Loaded, Event::Start) => {
                    &&& action matches Action::Train { features, labels }
                    &&& self.is_features(features, self.training)
                    &&& self.is_labels(labels, self.training)
                },
                (Phase::Loaded, Event::Trained) => {
                    &&& action matches Action::Predict { features }
                    &&& self.is_features(features, self.evaluation)
                },
                (Phase::Loaded, Event::TrainFailed(cause)) => action == Action::Abort(
                    HarnessError::Train(cause),
                ),
                (Phase::Trained, Event::Predicted(predicted)) => action == Action::Report(
                    self.score(predicted@),
                ),
                (Phase::Trained, Event::PredictFailed(cause)) => action == Action::Abort(
                    HarnessError::Predict(cause),
                ),
                _ => action == Action::Reject,
            }
        }
    }
}

/// The place of a phase in the order of a run.
pub open spec fn phase_rank(phase: Phase) -> nat {
    match phase {
        Phase::Loaded => 0,
        Phase::Trained => 1,
        Phase::Evaluated(_) => 2,
    }
}

/// A run is one-way: no event takes it back to an earlier phase, none
/// takes it more than one phase ahead, and none changes anything but the
/// phase and whether the run is aborted.
pub proof fn lemma_phase_only_advances(run: HarnessView, event: Event)
    ensures
        phase_rank(run.phase) <= phase_rank(run.after(event).phase) <= phase_rank(run.phase) + 1,
        run.after(event).store == run.store,
        run.after(event).training == run.training,
        run.after(event).evaluation == run.evaluation,
        run.aborted ==> run.after(event).aborted,
{
}

/// A failure is final: an aborted run stays as it is whatever comes, and
/// rejects it. A run that is not aborted is aborted by exactly the failure
/// of the step it waits for.
pub proof fn lemma_failure_is_final(run: HarnessView, event: Event, action: Action)
    requires
        run.answers(event, action),
    ensures
        run.aborted ==> run.after(event) == run && action == Action::Reject,
        !run.aborted ==> (run.after(event).aborted <==> action is Abort),
        action is Abort ==> run.after(event).phase == run.phase,
{
}

/// Scoring is repeatable: over stores of the same contents and the same
/// evaluation rows, the same prediction gives the same accuracy, whether
/// asked of the score or of the report a trained run answers with.
pub proof fn lemma_score_repeatable(
    first: HarnessView,
    second: HarnessView,
    predicted: Vec<Vec<Option<u8>>>,
    first_action: Action,
    second_action: Action,
)
    requires
        first.store == second.store,
        first.evaluation == second.evaluation,
        first.phase == Phase::Trained && !first.aborted,
        second.phase == Phase::Trained && !second.aborted,
        first.answers(Event::Predicted(predicted), first_action),
        second.answers(Event::Predicted(predicted), second_action),
    ensures
        first.score(predicted@) == second.score(predicted@),
        first_action == Action::Report(first.score(predicted@)),
        first_action == second_action,
        first.after(Event::Predicted(predicted)).phase == second.after(
            Event::Predicted(predicted),
        ).phase,
{
}

/// A perfect predictor has accuracy one: when every true label row of the
/// evaluation range has a predicted row equal to it, the hits are as many
/// as the rows.
pub proof fn lemma_perfect_predictor_scores_all(run: HarnessView, predicted: Seq<Vec<Option<u8>>>)
    requires
        forall|i: int|
            0 <= i < run.truth().len() ==> is_hit(run.truth(), predicted_rows(predicted), i),
    ensures
        run.score(predicted).spec_is_perfect(),
        run.score(predicted).total == run.evaluation.count(),
{
    lemma_perfect_predictor(run.truth(), predicted_rows(predicted));
}

/// One run of train, predict and score over a store. The store is only
/// read, so any number of runs may share it.
pub struct EvaluationHarness<'a> {
    store: &'a MnistData,
    training: RowRange,
    evaluation: RowRange,
    phase: Phase,
    aborted: bool,
}

impl<'a> View for EvaluationHarness<'a> {
    type V = HarnessView;

    closed spec fn view(&self) -> HarnessView {
        HarnessView {
            store: self.store@,
            training: self.training,
            evaluation: self.evaluation,
            phase: self.phase,
            aborted: self.aborted,
        }
    }
}

impl<'a> EvaluationHarness<'a> {
    #[verifier::type_invariant]
    spec fn ranges_covered(self) -> bool {
        self@.wf()
    }

    /// A run in phase `Loaded` that will fit on the rows `training` and
    /// score on the rows `evaluation`.
    ///
    /// Fails with `OutOfRange` exactly when one of the two ranges runs
    /// backwards or ends past its partition's last row.
    pub fn new(store: &'a MnistData, training: RowRange, evaluation: RowRange) -> (result: Result<
        EvaluationHarness<'a>,
        HarnessError,
    >)
        ensures
            result is Ok <==> store@.in_range(
                training.partition,
                training.start as int,
                training.end as int,
            ) && store@.in_range(
                evaluation.partition,
                evaluation.start as int,
                evaluation.end as int,
            ),
            result matches Ok(harness) ==> {
                &&& harness@.wf()
                &&& harness@.store == store@
                &&& harness@.training == training
                &&& harness@.evaluation == evaluation
                &&& harness@.phase == Phase::Loaded
                &&& !harness@.aborted
            },
            result matches Err(e) ==> e == HarnessError::OutOfRange,
    {
        let training_rows: usize = store.row_count(training.partition);
        let evaluation_rows: usize = store.row_count(evaluation.partition);
        if training.start > training.end || training.end > training_rows {
            return Err(HarnessError::OutOfRange);
        }
        if evaluation.start > evaluation.end || evaluation.end > evaluation_rows {
            return Err(HarnessError::OutOfRange);
        }
        Ok(EvaluationHarness { store, training, evaluation, phase: Phase::Loaded, aborted: false })
    }

    /// The phase the run is in.
    pub fn phase(&self) -> (phase: Phase)
        ensures
            phase == self@.phase,
    {
        self.phase
    }

    /// Whether the backend has failed and the run is over.
    pub fn is_aborted(&self) -> (aborted: bool)
        ensures
            aborted == self@.aborted,
    {
        self.aborted
    }

    /// The store the run reads.
    pub fn store(&self) -> (store: &'a MnistData)
        ensures
            store@ == self@.store,
    {
        self.store
    }

    /// The rows the model is fitted on.
    pub fn training(&self) -> (rows: RowRange)
        ensures
            rows == self@.training,
            self@.covers(rows),
    {
        proof {
            use_type_invariant(self);
        }
        self.training
    }

    /// The rows the model is scored on.
    pub fn evaluation(&self) -> (rows: RowRange)
        ensures
            rows == self@.evaluation,
            self@.covers(rows),
    {
        proof {
            use_type_invariant(self);
        }
        self.evaluation
    }

    /// Scores a prediction against the true labels of the evaluation rows.
    ///
    /// `total` is the number of evaluation rows and `hits` the number of
    /// them whose predicted row equals the true label row; rows of another
    /// width, missing rows and cells that are no byte are misses.
    pub fn score(&self, predicted: &Vec<Vec<Option<u8>>>) -> (accuracy: Accuracy)
        ensures
            accuracy == self@.score(predicted@),
            accuracy.hits == hits(self@.truth(), predicted_rows(predicted@)),
            accuracy.total == self@.evaluation.count(),
            accuracy.hits <= accuracy.total,
    {
        proof {
            use_type_invariant(self);
        }
        let rows = self.evaluation;
        let truth = self.store.labels_within(rows.partition, rows.start, rows.end);
        assert(matrix_row_seq(truth) == self@.truth());
        Accuracy { hits: count_hits(&truth, predicted), total: rows.end - rows.start }
    }

    /// Takes an event, moves the run on and says what to do next.
    ///
    /// In `Loaded`, `Start` asks for a model to be fitted on the training
    /// rows, `Trained` moves to `Trained` and asks for the evaluation rows
    /// to be scored, and `TrainFailed` aborts the run with that failure. In
    /// `Trained`, `Predicted` scores the prediction, moves to `Evaluated`
    /// and reports the accuracy, and `PredictFailed` aborts the run with
    /// that failure. Any other event is rejected and changes nothing, and
    /// so is every event once the run is aborted: nothing is ever retried.
    pub fn step(&mut self, event: Event) -> (action: Action)
        ensures
            final(self)@ == old(self)@.after(event),
            old(self)@.answers(event, action),
    {
        proof {
            use_type_invariant(&*self);
        }
        if self.aborted {
            return Action::Reject;
        }
        match self.phase {
            Phase::Loaded => match event {
                Event::Start => {
                    let rows = self.training;
                    Action::Train {
                        features: self.store.images_within(rows.partition, rows.start, rows.end),
                        labels: self.store.labels_within(rows.partition, rows.start, rows.end),
                    }
                },
                Event::Trained => {
                    let rows = self.evaluation;
                    self.phase = Phase::Trained;
                    Action::Predict {
                        features: self.store.images_within(rows.partition, rows.start, rows.end),
                    }
                },
                Event::TrainFailed(cause) => {
                    self.aborted = true;
                    Action::Abort(HarnessError::Train(cause))
                },
                _ => Action::Reject,
            },
            Phase::Trained => match event {
                Event::Predicted(predicted) => {
                    let accuracy = self.score(&predicted);
                    self.phase = Phase::Evaluated(accuracy);
                    Action::Report(accuracy)
                },
                Event::PredictFailed(cause) => {
                    self.aborted = true;
                    Action::Abort(HarnessError::Predict(cause))
                },
                _ => Action::Reject,
            },
            Phase::Evaluated(_) => Action::Reject,
        }
    }
}

} // verus!
