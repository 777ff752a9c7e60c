//! Error taxonomy of the forecasting pipeline.
//!
//! Configuration and fetch errors are fatal at startup; a model error is
//! recoverable: the session keeps its previous forecast and stays usable.

use vstd::prelude::*;

verus! {

/// Required startup configuration is absent; fatal, never retried.
#[derive(Clone, Copy, Debug, PartialEq, Eq, Structural)]
pub enum ConfigError {
    /// The base URL of the data provider was not supplied.
    MissingBaseUrl,
    /// The provider credential token was not supplied.
    MissingToken,
}

/// A raw record's value field is not a number the normalizer accepts; the
/// whole normalization fails together. `index` is the position, in provider
/// order, of the first offending record.
#[derive(Clone, Copy, Debug, PartialEq, Eq, Structural)]
pub struct DecodeError {
    pub index: usize,
}

/// A fit or forecast request cannot be served; recoverable: the session keeps
/// its previous forecast.
#[derive(Clone, Copy, Debug, PartialEq, Eq, Structural)]
pub enum ModelError {
    /// The historical series is empty; nothing can be fitted.
    EmptySeries,
    /// An order parameter lies outside the bounded control range.
    OrderOutOfRange,
    /// The all-zero order configures no model at all.
    DegenerateOrder,
    /// The series is too short for the requested order to be well-determined.
    TooFewObservations,
    /// The estimation backend reported a failure (for example a
    /// non-convergent fit).
    FitFailed,
    /// The estimation backend returned a number of steps other than the
    /// requested horizon.
    WrongForecastLength,
}

} // verus!
