//! Model-order validation and the verified half of the forecasting engine.
//!
//! The numeric estimation itself runs in a separate statistical runtime that
//! the unverified outer layer drives; this module decides, exactly, when a fit
//! may be attempted and when an engine outcome counts as a forecast.

use vstd::prelude::*;
use crate::errors::ModelError;
use crate::normalize::DecimalValue;

verus! {

/// Largest value each of the three order parameters may take; the control
/// surface exposes them as bounded sliders.
pub const MAX_ORDER_PARAM: u32 = 10;

/// The (p, d, q) triple configuring an ARIMA fit: autoregressive order,
/// differencing order, and moving-average order.
#[derive(Clone, Copy, Debug, PartialEq, Eq, Structural)]
pub struct ModelOrder {
    pub p: u32,
    pub d: u32,
    pub q: u32,
}

impl ModelOrder {
    /// Every parameter lies in the bounded range the control surface allows.
    pub open spec fn wf(self) -> bool {
        self.p <= MAX_ORDER_PARAM && self.d <= MAX_ORDER_PARAM && self.q <= MAX_ORDER_PARAM
    }

    /// The all-zero order, which configures no model at all.
    pub open spec fn is_all_zero(self) -> bool {
        self.p == 0 && self.d == 0 && self.q == 0
    }

    /// Fewest observations against which a fit with this order is attempted:
    /// one more than the autoregressive lags plus the differences they are
    /// taken over.
    pub open spec fn min_observations(self) -> int {
        self.p + self.d + 1
    }

    /// Builds an order triple, rejecting any parameter outside the bounded range.
    pub fn new(p: u32, d: u32, q: u32) -> (r: Option<ModelOrder>)
        ensures
            r is Some <==> p <= MAX_ORDER_PARAM && d <= MAX_ORDER_PARAM && q <= MAX_ORDER_PARAM,
            r is Some ==> r->0 == (ModelOrder { p, d, q }) && r->0.wf(),
    {
        if p <= MAX_ORDER_PARAM && d <= MAX_ORDER_PARAM && q <= MAX_ORDER_PARAM {
            Some(ModelOrder { p, d, q })
        } else {
            None
        }
    }
}

/// Whether a fit of `order` against a series of `series_len` observations may
/// be attempted, and the exact error when it may not.
pub open spec fn fit_check(series_len: int, order: ModelOrder) -> Result<(), ModelError> {
    if series_len == 0 {
        Err(ModelError::EmptySeries)
    } else if !order.wf() {
        Err(ModelError::OrderOutOfRange)
    } else if order.is_all_zero() {
        Err(ModelError::DegenerateOrder)
    } else if series_len < order.min_observations() {
        Err(ModelError::TooFewObservations)
    } else {
        Ok(())
    }
}

/// Everything a single fit runs against: a snapshot of the series, the order,
/// and the number of steps to project.
#[derive(Debug)]
pub struct FitRequest {
    pub series: Vec<DecimalValue>,
    pub order: ModelOrder,
    pub horizon: usize,
}

/// A completed forecast: point forecasts in step order (step one first), each
/// held as the bit pattern of an IEEE 754 double produced by the estimation
/// backend.
#[derive(Debug)]
pub struct ForecastResult {
    pub values: Vec<u64>,
}

/// Validates a fit of `order` against `series` and snapshots what the
/// estimation backend needs; fails exactly when the series is empty, an order
/// parameter is out of range, the order is all zero, or the series is too
/// short for the order.
pub fn prepare_fit(series: &Vec<DecimalValue>, order: ModelOrder, horizon: usize) -> (r: Result<
    FitRequest,
    ModelError,
>)
    ensures
        r is Ok <==> fit_check(series@.len() as int, order) is Ok,
        r matches Err(e) ==> Err::<(), ModelError>(e) == fit_check(series@.len() as int, order),
        r matches Ok(req) ==> req.series@ == series@ && req.order == order && req.horizon
            == horizon,
{
    if series.len() == 0 {
        return Err(ModelError::EmptySeries);
    }
    if !(order.p <= MAX_ORDER_PARAM && order.d <= MAX_ORDER_PARAM && order.q <= MAX_ORDER_PARAM) {
        return Err(ModelError::OrderOutOfRange);
    }
    if order.p == 0 && order.d == 0 && order.q == 0 {
        return Err(ModelError::DegenerateOrder);
    }
    let needed = (order.p + order.d + 1) as usize;
    if series.len() < needed {
        return Err(ModelError::TooFewObservations);
    }
    Ok(FitRequest { series: series.clone(), order, horizon })
}

/// Turns a raw engine outcome into a forecast: `None` means the backend
/// failed (for example a non-convergent fit); a returned sequence counts only
/// when it holds exactly `horizon` steps.
pub fn finish_fit(outcome: Option<Vec<u64>>, horizon: usize) -> (r: Result<
    ForecastResult,
    ModelError,
>)
    ensures
        r is Ok <==> (outcome matches Some(v) && v@.len() == horizon),
        r matches Ok(f) ==> f.values@ == outcome->0@ && f.values@.len() == horizon,
        outcome is None ==> r == Err::<ForecastResult, ModelError>(ModelError::FitFailed),
        outcome matches Some(v) && v@.len() != horizon ==> r == Err::<ForecastResult, ModelError>(
            ModelError::WrongForecastLength,
        ),
{
    match outcome {
        None => Err(ModelError::FitFailed),
        Some(v) => {
            if v.len() == horizon {
                Ok(ForecastResult { values: v })
            } else {
                Err(ModelError::WrongForecastLength)
            }
        },
    }
}

} // verus!
