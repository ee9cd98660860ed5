//! State shared by the request handlers: the request counter, the event
//! sender, the delay policy and the reply format.

use std::sync::atomic::{AtomicU64, Ordering};
use std::sync::Arc;

use tokio::sync::mpsc::Sender;

use crate::delay::{delay_spec, DelayConfig, DelayError};
use crate::format::OutputFormat;
use crate::metrics::AppEvent;
use vstd::prelude::*;
use vstd::string::StringSliceAdditionalSpecFns;

verus! {

#[verifier::external_type_specification]
#[verifier::external_body]
#[verifier::reject_recursive_types(T)]
pub struct ExSender<T>(Sender<T>);

/// Relies on `Clone for tokio::sync::mpsc::Sender`: another handle on the
/// same channel (nothing is stated of it).
pub assume_specification<T>[ <Sender<T> as Clone>::clone ](s: &Sender<T>) -> Sender<T>;

/// Relies on `chrono::Utc::now` and `DateTime::timestamp`: the wall clock,
/// in whole seconds since the Unix epoch (nothing is stated of the value).
#[verifier::external_body]
fn utc_now_seconds() -> i64 {
    chrono::Utc::now().timestamp()
}

/// What every request handler shares.
#[derive(Clone)]
pub struct AppState {
    /// Requests received so far, counted by all handlers concurrently.
    pub total_requests: Arc<AtomicU64>,
    /// Where handlers send their observations.
    pub tx: Sender<AppEvent>,
    delay_config: Arc<DelayConfig>,
    pub output_format: OutputFormat,
}

impl AppState {
    /// The bounds `(min, max)` of the configured delay, in milliseconds.
    pub closed spec fn delay_bounds(&self) -> (u64, u64) {
        (*self.delay_config)@
    }

    /// The format of the replies.
    pub closed spec fn reply_format(&self) -> OutputFormat {
        self.output_format
    }

    /// The sender the handlers report on.
    pub closed spec fn sender(&self) -> Sender<AppEvent> {
        self.tx
    }

    /// Builds the shared state from a delay specification; fails exactly
    /// when the specification is refused.
    pub fn new(tx: Sender<AppEvent>, delay_str: &str, output_format: OutputFormat) -> (r: Result<
        AppState,
        DelayError,
    >)
        ensures
            match r {
                Ok(st) => {
                    &&& delay_spec(delay_str.spec_bytes()) == Ok::<(u64, u64), DelayError>(
                        st.delay_bounds(),
                    )
                    &&& st.reply_format() == output_format
                    &&& st.sender() == tx
                },
                Err(e) => delay_spec(delay_str.spec_bytes()) == Err::<(u64, u64), DelayError>(e),
            },
    {
        match DelayConfig::parse(delay_str) {
            Ok(delay_config) => Ok(
                AppState {
                    total_requests: Arc::new(AtomicU64::new(0)),
                    tx,
                    delay_config: Arc::new(delay_config),
                    output_format,
                },
            ),
            Err(e) => Err(e),
        }
    }

    /// Counts one request; safe to call from many handlers at once.
    pub fn increment_requests(&self) {
        self.total_requests.fetch_add(1, Ordering::Relaxed);
    }

    /// The current time, in seconds since the Unix epoch.
    pub fn now_timestamp(&self) -> i64 {
        utc_now_seconds()
    }

    /// Draws the delay for one request, in milliseconds.
    pub fn get_delay(&self) -> (r: u64)
        ensures
            self.delay_bounds().0 <= r <= self.delay_bounds().1,
            self.delay_bounds().0 == self.delay_bounds().1 ==> r == self.delay_bounds().0,
    {
        self.delay_config.get_delay()
    }
}

} // verus!
