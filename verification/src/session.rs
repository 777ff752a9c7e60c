//! The forecast session: the shared state that connects the interactive
//! control surface to recomputation.
//!
//! The session holds the historical series (written once, at startup), the
//! current order parameters, and the most recent forecast. A recompute is
//! split in two: `begin_recompute` validates and snapshots what one fit needs,
//! the caller runs the estimation backend against that snapshot, and
//! `apply_outcome` commits the outcome — replacing the stored forecast as a
//! whole on success and leaving it untouched on any failure.

use vstd::prelude::*;
use crate::engine::FitRequest;
use crate::engine::ModelOrder;
use crate::engine::finish_fit;
use crate::engine::fit_check;
use crate::engine::prepare_fit;
use crate::errors::ModelError;
use crate::normalize::DecimalValue;

verus! {

/// The two observable session states: `Idle` until a first recompute
/// succeeds, `Computed` from then on.
#[derive(Clone, Copy, Debug, PartialEq, Eq, Structural)]
pub enum SessionState {
    Idle,
    Computed,
}

/// Shared state between the acquisition/compute side and the display side.
pub struct ForecastSession {
    historical: Vec<DecimalValue>,
    order: ModelOrder,
    forecast: Vec<u64>,
    state: SessionState,
}

/// The forecast stored after committing one engine outcome against `cur`:
/// a sequence of exactly `horizon` steps replaces `cur` entirely; anything
/// else leaves `cur` as it is.
pub open spec fn applied_forecast(cur: Seq<u64>, outcome: Option<Seq<u64>>, horizon: int) -> Seq<
    u64,
> {
    match outcome {
        Some(v) => if v.len() == horizon {
            v
        } else {
            cur
        },
        None => cur,
    }
}

/// The forecast stored after committing a whole run of engine outcomes, in
/// order, starting from `init`.
pub open spec fn run_recomputes(init: Seq<u64>, outcomes: Seq<Option<Seq<u64>>>, horizon: int) -> Seq<
    u64,
>
    decreases outcomes.len(),
{
    if outcomes.len() == 0 {
        init
    } else {
        applied_forecast(run_recomputes(init, outcomes.drop_last(), horizon), outcomes.last(), horizon)
    }
}

impl ForecastSession {
    /// The session is well formed: a non-empty historical series, order
    /// parameters in range, and no stored forecast before a first success.
    pub closed spec fn wf(self) -> bool {
        &&& self.historical@.len() > 0
        &&& self.order.wf()
        &&& (self.state is Idle ==> self.forecast@.len() == 0)
    }

    /// The historical series, oldest observation first.
    pub closed spec fn historical_view(self) -> Seq<DecimalValue> {
        self.historical@
    }

    /// The current order parameters.
    pub closed spec fn order_view(self) -> ModelOrder {
        self.order
    }

    /// The most recent successful forecast; empty while none has succeeded.
    pub closed spec fn forecast_view(self) -> Seq<u64> {
        self.forecast@
    }

    /// Whether some recompute has succeeded.
    pub closed spec fn computed(self) -> bool {
        self.state is Computed
    }

    /// Opens a session over a freshly acquired historical series; no forecast
    /// exists yet.
    pub fn new(historical: Vec<DecimalValue>, order: ModelOrder) -> (s: ForecastSession)
        requires
            historical@.len() > 0,
            order.wf(),
        ensures
            s.wf(),
            s.historical_view() == historical@,
            s.order_view() == order,
            s.forecast_view() == Seq::<u64>::empty(),
            !s.computed(),
    {
        let s = ForecastSession { historical, order, forecast: Vec::new(), state: SessionState::Idle };
        proof {
            assert(s.forecast@ =~= Seq::<u64>::empty());
        }
        s
    }

    /// Replaces the order parameters; the control surface moves them freely
    /// between recomputes.
    pub fn set_order(&mut self, order: ModelOrder)
        requires
            old(self).wf(),
            order.wf(),
        ensures
            final(self).wf(),
            final(self).order_view() == order,
            final(self).historical_view() == old(self).historical_view(),
            final(self).forecast_view() == old(self).forecast_view(),
            final(self).computed() == old(self).computed(),
    {
        self.order = order;
    }

    /// The current order parameters.
    pub fn order(&self) -> (r: ModelOrder)
        ensures
            r == self.order_view(),
    {
        self.order
    }

    /// The historical series, oldest observation first.
    pub fn historical(&self) -> (r: &Vec<DecimalValue>)
        ensures
            r@ == self.historical_view(),
    {
        &self.historical
    }

    /// The most recent successful forecast, read by the display on every
    /// render tick; empty while none has succeeded.
    pub fn forecast(&self) -> (r: &Vec<u64>)
        ensures
            r@ == self.forecast_view(),
    {
        &self.forecast
    }

    /// Whether some recompute has succeeded.
    pub fn is_computed(&self) -> (r: bool)
        ensures
            r == self.computed(),
    {
        match self.state {
            SessionState::Computed => true,
            SessionState::Idle => false,
        }
    }

    /// Validates a recompute under the session's current series and order and
    /// snapshots them for one fit; the session itself is not touched. Fails
    /// exactly as `fit_check` says.
    pub fn begin_recompute(&self, horizon: usize) -> (r: Result<FitRequest, ModelError>)
        requires
            self.wf(),
        ensures
            r is Ok <==> fit_check(self.historical_view().len() as int, self.order_view()) is Ok,
            r matches Ok(req) ==> req.series@ == self.historical_view() && req.order
                == self.order_view() && req.horizon == horizon,
            r matches Err(e) ==> Err::<(), ModelError>(e) == fit_check(
                self.historical_view().len() as int,
                self.order_view(),
            ),
    {
        prepare_fit(&self.historical, self.order, horizon)
    }

    /// Commits one engine outcome: on a successful fit of exactly `horizon`
    /// steps the stored forecast is replaced as a whole; on any failure it is
    /// left byte-for-byte untouched and the session stays in its state.
    pub fn apply_outcome(&mut self, outcome: Option<Vec<u64>>, horizon: usize) -> (r: Result<
        (),
        ModelError,
    >)
        requires
            old(self).wf(),
        ensures
            final(self).wf(),
            final(self).historical_view() == old(self).historical_view(),
            final(self).order_view() == old(self).order_view(),
            r is Ok <==> (outcome matches Some(v) && v@.len() == horizon),
            r is Ok ==> final(self).forecast_view() == outcome->0@ && final(self).computed(),
            r is Err ==> final(self).forecast_view() == old(self).forecast_view()
                && final(self).computed() == old(self).computed(),
            outcome is None ==> r == Err::<(), ModelError>(ModelError::FitFailed),
            (outcome matches Some(v) && v@.len() != horizon) ==> r == Err::<(), ModelError>(
                ModelError::WrongForecastLength,
            ),
            final(self).forecast_view() == applied_forecast(
                old(self).forecast_view(),
                match outcome {
                    Some(v) => Some(v@),
                    None => None,
                },
                horizon as int,
            ),
    {
        match finish_fit(outcome, horizon) {
            Ok(f) => {
                self.forecast = f.values;
                self.state = SessionState::Computed;
                Ok(())
            },
            Err(e) => Err(e),
        }
    }
}

/// Law: recomputes never mix forecasts. However many recompute outcomes are
/// committed in sequence — each fit replacing the stored forecast as a whole
/// or leaving it untouched — the stored forecast afterwards is the initial
/// one or exactly one engine output, entire; never elements of two mixed.
pub proof fn lemma_forecast_never_mixed(
    init: Seq<u64>,
    outcomes: Seq<Option<Seq<u64>>>,
    horizon: int,
)
    ensures
        run_recomputes(init, outcomes, horizon) == init || exists|i: int|
            0 <= i < outcomes.len() && #[trigger] outcomes[i] == Some(
                run_recomputes(init, outcomes, horizon),
            ),
    decreases outcomes.len(),
{
    if outcomes.len() == 0 {
    } else {
        let head = outcomes.drop_last();
        lemma_forecast_never_mixed(init, head, horizon);
        let prev = run_recomputes(init, head, horizon);
        let fin = run_recomputes(init, outcomes, horizon);
        match outcomes.last() {
            Some(v) => {
                if v.len() == horizon {
                    assert(outcomes[outcomes.len() - 1] == Some(fin));
                } else {
                    if prev != init {
                        let i = choose|i: int|
                            0 <= i < head.len() && #[trigger] head[i] == Some(prev);
                        assert(outcomes[i] == Some(fin));
                    }
                }
            },
            None => {
                if prev != init {
                    let i = choose|i: int| 0 <= i < head.len() && #[trigger] head[i] == Some(prev);
                    assert(outcomes[i] == Some(fin));
                }
            },
        }
    }
}

} // verus!
