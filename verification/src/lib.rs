//! A verified core for an inflation-forecasting pipeline: normalization of a
//! raw dated value series into chronological order, validation of ARIMA model
//! orders and fit requests, and a session that publishes each forecast as a
//! single atomic replacement.

use vstd::prelude::*;

mod engine;
mod errors;
mod fetch;
mod normalize;
mod session;

pub use engine::FitRequest;
pub use engine::ForecastResult;
pub use engine::MAX_ORDER_PARAM;
pub use engine::ModelOrder;
pub use engine::finish_fit;
pub use engine::fit_check;
pub use engine::prepare_fit;
pub use errors::ConfigError;
pub use errors::DecodeError;
pub use errors::ModelError;
pub use fetch::FetchConfig;
pub use fetch::build_url;
pub use fetch::load_config;
pub use normalize::DatedObservation;
pub use normalize::DecimalValue;
pub use normalize::InflationData;
pub use normalize::InflationRaw;
pub use normalize::MAX_VALUE_DIGITS;
pub use normalize::all_digits;
pub use normalize::digit_run_len;
pub use normalize::digit_val;
pub use normalize::digits_val;
pub use normalize::extract_values;
pub use normalize::frac_digits;
pub use normalize::int_digits;
pub use normalize::is_digit;
pub use normalize::is_number_chars;
pub use normalize::mantissa_digits;
pub use normalize::normalize;
pub use normalize::parse_value;
pub use normalize::pow10;
pub use normalize::unsigned_part;
pub use normalize::value_accepted;
pub use session::ForecastSession;
pub use session::SessionState;
pub use session::applied_forecast;
pub use session::lemma_forecast_never_mixed;
pub use session::run_recomputes;

verus! {

/// Number of forecast steps requested by the interactive surface by default.
pub const DEFAULT_HORIZON: usize = 150;

} // verus!
