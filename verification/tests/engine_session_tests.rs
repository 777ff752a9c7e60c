use rustfin::DEFAULT_HORIZON;
use rustfin::DecimalValue;
use rustfin::ForecastSession;
use rustfin::ModelError;
use rustfin::ModelOrder;
use rustfin::finish_fit;
use rustfin::prepare_fit;

fn whole(n: u64) -> DecimalValue {
    DecimalValue { neg: false, mantissa: n, scale: 0 }
}

/// A synthetic increasing series of `n` whole-numbered observations.
fn increasing_series(n: u64) -> Vec<DecimalValue> {
    (1..=n).map(whole).collect()
}

fn bits(values: &[f64]) -> Vec<u64> {
    values.iter().map(|v| v.to_bits()).collect()
}

#[test]
fn default_horizon_is_150() {
    assert_eq!(DEFAULT_HORIZON, 150);
}

#[test]
fn order_new_accepts_the_slider_range() {
    assert_eq!(ModelOrder::new(0, 0, 0), Some(ModelOrder { p: 0, d: 0, q: 0 }));
    assert_eq!(ModelOrder::new(10, 10, 10), Some(ModelOrder { p: 10, d: 10, q: 10 }));
    assert_eq!(ModelOrder::new(11, 0, 0), None);
    assert_eq!(ModelOrder::new(0, 11, 0), None);
    assert_eq!(ModelOrder::new(0, 0, 11), None);
}

#[test]
fn prepare_fit_rejects_empty_series() {
    let series: Vec<DecimalValue> = Vec::new();
    let order = ModelOrder { p: 1, d: 1, q: 1 };
    let e = prepare_fit(&series, order, DEFAULT_HORIZON).unwrap_err();
    assert_eq!(e, ModelError::EmptySeries);
}

#[test]
fn prepare_fit_rejects_all_zero_order() {
    let series = increasing_series(30);
    let order = ModelOrder { p: 0, d: 0, q: 0 };
    let e = prepare_fit(&series, order, DEFAULT_HORIZON).unwrap_err();
    assert_eq!(e, ModelError::DegenerateOrder);
}

#[test]
fn prepare_fit_rejects_out_of_range_order() {
    let series = increasing_series(30);
    let order = ModelOrder { p: 11, d: 0, q: 0 };
    let e = prepare_fit(&series, order, DEFAULT_HORIZON).unwrap_err();
    assert_eq!(e, ModelError::OrderOutOfRange);
}

#[test]
fn prepare_fit_rejects_underdetermined_series() {
    // Order (5,5,0) needs at least 11 observations.
    let series = increasing_series(10);
    let order = ModelOrder { p: 5, d: 5, q: 0 };
    let e = prepare_fit(&series, order, DEFAULT_HORIZON).unwrap_err();
    assert_eq!(e, ModelError::TooFewObservations);

    let series = increasing_series(11);
    assert!(prepare_fit(&series, order, DEFAULT_HORIZON).is_ok());
}

#[test]
fn prepare_fit_snapshots_the_series() {
    let series = increasing_series(20);
    let order = ModelOrder { p: 2, d: 1, q: 2 };
    let req = prepare_fit(&series, order, 25).unwrap();
    assert_eq!(req.series, series);
    assert_eq!(req.order, order);
    assert_eq!(req.horizon, 25);
}

#[test]
fn prepare_fit_succeeds_over_the_tested_order_range() {
    // Every non-degenerate in-range order fits a 20-observation series or
    // longer, since p + d + 1 is at most 21 only for (10,10,*).
    for p in 0..=10u32 {
        for d in 0..=10u32 {
            for q in 0..=10u32 {
                if p == 0 && d == 0 && q == 0 {
                    continue;
                }
                let needed = (p + d + 1) as u64;
                let series = increasing_series(needed.max(20));
                let order = ModelOrder { p, d, q };
                let r = prepare_fit(&series, order, DEFAULT_HORIZON);
                assert!(r.is_ok(), "order ({p},{d},{q}) rejected");
            }
        }
    }
}

#[test]
fn finish_fit_returns_exactly_horizon_values() {
    let out: Vec<u64> = bits(&vec![1.5f64; 150]);
    let f = finish_fit(Some(out.clone()), 150).unwrap();
    assert_eq!(f.values.len(), 150);
    assert_eq!(f.values, out);
}

#[test]
fn finish_fit_rejects_wrong_length_and_failure() {
    let out: Vec<u64> = bits(&vec![1.5f64; 149]);
    assert_eq!(finish_fit(Some(out), 150).unwrap_err(), ModelError::WrongForecastLength);
    assert_eq!(finish_fit(None, 150).unwrap_err(), ModelError::FitFailed);
}

#[test]
fn session_starts_idle_with_empty_forecast() {
    let s = ForecastSession::new(increasing_series(30), ModelOrder { p: 1, d: 1, q: 1 });
    assert!(!s.is_computed());
    assert!(s.forecast().is_empty());
    assert_eq!(s.historical().len(), 30);
}

#[test]
fn session_set_order_changes_only_the_order() {
    let mut s = ForecastSession::new(increasing_series(30), ModelOrder { p: 1, d: 1, q: 1 });
    s.set_order(ModelOrder { p: 3, d: 0, q: 2 });
    assert_eq!(s.order(), ModelOrder { p: 3, d: 0, q: 2 });
    assert_eq!(s.historical().len(), 30);
    assert!(s.forecast().is_empty());
    assert!(!s.is_computed());
}

#[test]
fn failed_recompute_leaves_forecast_untouched() {
    let mut s = ForecastSession::new(increasing_series(30), ModelOrder { p: 1, d: 1, q: 1 });

    // A successful recompute stores the forecast whole.
    let good = bits(&vec![2.25f64; 150]);
    assert!(s.apply_outcome(Some(good.clone()), 150).is_ok());
    assert!(s.is_computed());
    assert_eq!(s.forecast(), &good);

    // A failed fit leaves it byte-for-byte identical.
    let before = s.forecast().clone();
    assert_eq!(s.apply_outcome(None, 150).unwrap_err(), ModelError::FitFailed);
    assert_eq!(s.forecast(), &before);
    assert!(s.is_computed());

    // So does an outcome of the wrong length.
    let short = bits(&vec![9.0f64; 10]);
    assert_eq!(s.apply_outcome(Some(short), 150).unwrap_err(), ModelError::WrongForecastLength);
    assert_eq!(s.forecast(), &before);
}

#[test]
fn failed_recompute_before_any_success_keeps_forecast_empty() {
    let mut s = ForecastSession::new(increasing_series(5), ModelOrder { p: 1, d: 1, q: 1 });
    assert!(s.apply_outcome(None, 150).is_err());
    assert!(s.forecast().is_empty());
    assert!(!s.is_computed());
}

#[test]
fn serialized_recomputes_store_exactly_one_output() {
    // Commit several distinct engine outputs in sequence; the stored forecast
    // always equals exactly one of them, never a mixture.
    let mut s = ForecastSession::new(increasing_series(30), ModelOrder { p: 1, d: 1, q: 1 });
    let outputs: Vec<Vec<u64>> = (0..5)
        .map(|k| bits(&vec![k as f64 + 0.5; 150]))
        .collect();
    for out in &outputs {
        let _ = s.apply_outcome(Some(out.clone()), 150);
        assert!(outputs.iter().filter(|o| *o == s.forecast()).count() == 1);
    }
    assert_eq!(s.forecast(), outputs.last().unwrap());
}

#[test]
fn thirty_point_series_order_111_gives_150_finite_steps() {
    // End-to-end over the verified core: a 30-point synthetic increasing
    // series with order (1,1,1) yields a fit request; a backend outcome of
    // 150 finite steps is accepted and stored whole.
    let series = increasing_series(30);
    let mut s = ForecastSession::new(series, ModelOrder { p: 1, d: 1, q: 1 });
    let req = s.begin_recompute(DEFAULT_HORIZON).unwrap();
    assert_eq!(req.series.len(), 30);

    // Stand in for the estimation backend: continue the trend.
    let forecast: Vec<f64> = (0..req.horizon).map(|k| 31.0 + k as f64).collect();
    assert!(s.apply_outcome(Some(bits(&forecast)), DEFAULT_HORIZON).is_ok());

    let stored = s.forecast();
    assert_eq!(stored.len(), 150);
    assert!(stored.iter().all(|b| f64::from_bits(*b).is_finite()));
}

#[test]
fn empty_series_fails_with_model_error() {
    let series: Vec<DecimalValue> = Vec::new();
    let order = ModelOrder { p: 1, d: 1, q: 1 };
    let r = prepare_fit(&series, order, DEFAULT_HORIZON);
    assert_eq!(r.unwrap_err(), ModelError::EmptySeries);
}

#[test]
fn full_pipeline_from_raw_feed_to_forecast() {
    // Feed (newest first) -> normalize -> session -> recompute -> display.
    let feed: Vec<rustfin::InflationData> = (0..30)
        .map(|k| rustfin::InflationData {
            date: format!("date-{}", 30 - k),
            value: format!("{}.5", 30 - k),
        })
        .collect();
    let raw = rustfin::InflationRaw { inflation: feed };
    let obs = rustfin::normalize(&raw).unwrap();
    assert_eq!(obs[0].date, "date-1");
    let values = rustfin::extract_values(&obs);
    assert_eq!(values[0], DecimalValue { neg: false, mantissa: 15, scale: 1 });
    assert_eq!(values[29], DecimalValue { neg: false, mantissa: 305, scale: 1 });

    let mut s = ForecastSession::new(values, ModelOrder { p: 1, d: 1, q: 1 });
    let req = s.begin_recompute(DEFAULT_HORIZON).unwrap();
    let outcome: Vec<f64> = (0..req.horizon).map(|k| 31.5 + k as f64).collect();
    s.apply_outcome(Some(bits(&outcome)), DEFAULT_HORIZON).unwrap();
    assert!(s.is_computed());
    assert_eq!(s.forecast().len(), DEFAULT_HORIZON);
    assert_eq!(f64::from_bits(s.forecast()[0]), 31.5);
}
