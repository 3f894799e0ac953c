//! The failures a run can end in.

use vstd::prelude::*;

verus! {

/// Why a backend could not fit a model.
#[derive(Clone, Debug, PartialEq, Eq)]
pub enum TrainError {
    /// The optimisation did not converge.
    Convergence,
    /// Any other cause, in the backend's own words.
    Backend(String),
}

/// Why a backend could not score a feature matrix.
#[derive(Clone, Debug, PartialEq, Eq)]
pub enum PredictError {
    /// The cause, in the backend's own words.
    Backend(String),
}

/// Every failure the store and the harness report.
#[derive(Clone, Debug, PartialEq, Eq)]
pub enum HarnessError {
    /// A row range reaches past its partition or runs backwards, or an
    /// image buffer is not the rows its partition declares.
    OutOfRange,
    /// A label buffer does not have the width the encoding fixes.
    EncodingMismatch,
    /// The backend failed to fit a model.
    Train(TrainError),
    /// The backend failed to score the evaluation rows.
    Predict(PredictError),
}

} // verus!
