//! The metrics aggregator: a bounded log of recent requests, a rolling
//! 60-second window of per-second request counts, and latency extremes and
//! sums. It is owned by a single consumer and fed one event at a time.

use std::collections::VecDeque;
use std::time::Instant;

use crate::stats::{describes, rps_stats, RpsStats};
use vstd::prelude::*;

verus! {

/// Capacity of the request log.
pub const MAX_LOGS: usize = 1000;

/// Number of one-second slots in the rolling window.
pub const WINDOW_LEN: usize = 60;

#[verifier::external_type_specification]
#[verifier::external_body]
pub struct ExInstant(Instant);

/// Relies on `Instant::elapsed` and `Duration::as_secs`: whole seconds since
/// `start`, read from the monotonic clock (nothing is stated of the value).
#[verifier::external_body]
fn seconds_since(start: &Instant) -> u64 {
    start.elapsed().as_secs()
}

/// One observed request.
#[derive(Debug, Clone)]
pub struct RequestLog {
    pub path: String,
    pub method: String,
    pub status: u16,
    /// Seconds since the Unix epoch at which the request arrived.
    pub timestamp: i64,
    /// Time the request took, in nanoseconds.
    pub duration_ns: u64,
}

/// Events carried from the request handlers to the aggregator.
#[derive(Debug, Clone)]
pub enum AppEvent {
    /// A request was handled.
    RequestReceived(RequestLog),
}

/// The log after one more entry: the oldest entry leaves once the log is full.
pub open spec fn log_append(log: Seq<RequestLog>, e: RequestLog) -> Seq<RequestLog> {
    if log.len() >= MAX_LOGS {
        log.drop_first().push(e)
    } else {
        log.push(e)
    }
}

/// The log after appending each entry of `es` in turn.
pub open spec fn log_append_all(log: Seq<RequestLog>, es: Seq<RequestLog>) -> Seq<RequestLog>
    decreases es.len(),
{
    if es.len() == 0 {
        log
    } else {
        log_append(log_append_all(log, es.drop_last()), es.last())
    }
}

/// The last `MAX_LOGS` entries of `s` (all of them when there are fewer).
pub open spec fn latest(s: Seq<RequestLog>) -> Seq<RequestLog> {
    if s.len() > MAX_LOGS {
        s.subrange(s.len() - MAX_LOGS, s.len() as int)
    } else {
        s
    }
}

/// Appending entries one at a time to a log within its capacity keeps
/// exactly the most recent `MAX_LOGS` entries, in arrival order.
pub proof fn lemma_log_keeps_latest(log: Seq<RequestLog>, es: Seq<RequestLog>)
    requires
        log.len() <= MAX_LOGS,
    ensures
        log_append_all(log, es) == latest(log + es),
    decreases es.len(),
{
    if es.len() == 0 {
        assert(log + es =~= log);
    } else {
        lemma_log_keeps_latest(log, es.drop_last());
        let prev = log + es.drop_last();
        let all = log + es;
        assert(all =~= prev.push(es.last()));
        if prev.len() >= MAX_LOGS {
            assert(latest(all) =~= latest(prev).drop_first().push(es.last()));
        } else {
            assert(latest(all) =~= latest(prev).push(es.last()));
        }
    }
}

/// The window `s` after `k` seconds have passed: each count moves `k` slots
/// further into the past, the vacated recent slots hold 0, and what passes
/// the last slot is dropped.
pub open spec fn shifted(s: Seq<u64>, k: int) -> Seq<u64> {
    Seq::new(s.len(), |i: int| if i < k { 0u64 } else { s[i - k] })
}

/// A gap of `k` seconds moves the count of the current second to slot `k`
/// and clears the slots before it; a gap of a full window or more clears
/// every slot.
pub proof fn lemma_window_shift(s: Seq<u64>, k: int)
    requires
        s.len() == WINDOW_LEN,
        k >= 1,
    ensures
        k < WINDOW_LEN ==> shifted(s, k)[k] == s[0],
        forall|i: int| 0 <= i < k && i < WINDOW_LEN ==> shifted(s, k)[i] == 0,
        k >= WINDOW_LEN ==> shifted(s, k) == Seq::new(WINDOW_LEN as nat, |i: int| 0u64),
{
    if k >= WINDOW_LEN {
        assert(shifted(s, k) =~= Seq::new(WINDOW_LEN as nat, |i: int| 0u64));
    }
}

/// Does a key press end the dashboard? `q`, or `c` with Control held.
pub fn is_quit_key(key: char, control: bool) -> (r: bool)
    ensures
        r == (key == 'q' || (key == 'c' && control)),
{
    key == 'q' || (key == 'c' && control)
}

/// The state of the aggregator, as plain values.
pub struct MetricsView {
    pub logs: Seq<RequestLog>,
    /// Requests per second, index 0 being the current second.
    pub counts: Seq<u64>,
    /// The same window, as drawn on screen.
    pub display: Seq<u64>,
    /// Epoch second of the last window update; 0 before the first one.
    pub last_update: i64,
    pub total_requests: u64,
    pub port: u16,
    /// The instant uptime is measured from.
    pub start: Instant,
    /// Duration of the last request, in nanoseconds.
    pub current: u64,
    /// Smallest duration seen; `u64::MAX` until the first sample.
    pub min: u64,
    /// Largest duration seen; 0 until the first sample.
    pub max: u64,
    /// Sum of all durations seen.
    pub sum: int,
    pub samples: u64,
}

impl MetricsView {
    pub open spec fn well_formed(self) -> bool {
        &&& self.counts.len() == WINDOW_LEN
        &&& self.display == self.counts
        &&& self.logs.len() <= MAX_LOGS
        &&& self.samples == self.total_requests
        &&& 0 <= self.sum <= self.samples * u64::MAX
        &&& forall|i: int| 0 <= i < WINDOW_LEN ==> self.counts[i] <= self.total_requests
    }
}

/// Aggregated metrics of the observed requests.
pub struct TuiData {
    logs: VecDeque<RequestLog>,
    rps_history: Vec<u64>,
    rps_display_history: Vec<u64>,
    last_rps_update: i64,
    total_requests: u64,
    start_time: Instant,
    port: u16,
    current_delay: u64,
    min_delay: u64,
    max_delay: u64,
    total_delay: u128,
    delay_samples: u64,
}

impl View for TuiData {
    type V = MetricsView;

    closed spec fn view(&self) -> MetricsView {
        MetricsView {
            logs: self.logs@,
            counts: self.rps_history@,
            display: self.rps_display_history@,
            last_update: self.last_rps_update,
            total_requests: self.total_requests,
            port: self.port,
            start: self.start_time,
            current: self.current_delay,
            min: self.min_delay,
            max: self.max_delay,
            sum: self.total_delay as int,
            samples: self.delay_samples,
        }
    }
}

/// A window of `WINDOW_LEN` zero counts.
fn zero_window() -> (v: Vec<u64>)
    ensures
        v@ == Seq::new(WINDOW_LEN as nat, |i: int| 0u64),
{
    let mut v: Vec<u64> = Vec::new();
    let mut i: usize = 0;
    while i < WINDOW_LEN
        invariant
            i <= WINDOW_LEN,
            v@ == Seq::new(i as nat, |j: int| 0u64),
        decreases WINDOW_LEN - i,
    {
        v.push(0);
        i = i + 1;
        assert(v@ =~= Seq::new(i as nat, |j: int| 0u64));
    }
    v
}

/// `w` shifted by `k` slots.
fn shift_window(w: &Vec<u64>, k: usize) -> (v: Vec<u64>)
    ensures
        v@ == shifted(w@, k as int),
{
    let mut v: Vec<u64> = Vec::new();
    let mut i: usize = 0;
    while i < w.len()
        invariant
            i <= w@.len(),
            v@ == shifted(w@, k as int).subrange(0, i as int),
        decreases w@.len() - i,
    {
        if i < k {
            v.push(0);
        } else {
            v.push(w[i - k]);
        }
        i = i + 1;
        assert(v@ =~= shifted(w@, k as int).subrange(0, i as int));
    }
    assert(shifted(w@, k as int).subrange(0, i as int) =~= shifted(w@, k as int));
    v
}

impl TuiData {
    pub open spec fn wf(&self) -> bool {
        self@.well_formed()
    }

    /// An aggregator with nothing observed yet.
    pub fn new(start_time: Instant, port: u16) -> (r: TuiData)
        ensures
            r.wf(),
            r@.logs.len() == 0,
            r@.counts == Seq::new(WINDOW_LEN as nat, |i: int| 0u64),
            r@.last_update == 0,
            r@.total_requests == 0,
            r@.port == port,
            r@.start == start_time,
            r@.current == 0,
            r@.min == u64::MAX,
            r@.max == 0,
            r@.sum == 0,
            r@.samples == 0,
    {
        let rps_history = zero_window();
        let rps_display_history = zero_window();
        TuiData {
            logs: VecDeque::with_capacity(MAX_LOGS),
            rps_history,
            rps_display_history,
            last_rps_update: 0,
            total_requests: 0,
            start_time,
            port,
            current_delay: 0,
            min_delay: u64::MAX,
            max_delay: 0,
            total_delay: 0,
            delay_samples: 0,
        }
    }

    /// Logs one request and folds its duration into the latency figures.
    pub fn push_log(&mut self, log: RequestLog)
        requires
            old(self).wf(),
            old(self)@.total_requests < u64::MAX,
        ensures
            final(self).wf(),
            final(self)@.logs.len() as int == if old(self)@.logs.len() < MAX_LOGS {
                old(self)@.logs.len() as int + 1
            } else {
                MAX_LOGS as int
            },
            final(self)@ == (MetricsView {
                logs: log_append(old(self)@.logs, log),
                total_requests: (old(self)@.total_requests + 1) as u64,
                current: log.duration_ns,
                min: if log.duration_ns < old(self)@.min {
                    log.duration_ns
                } else {
                    old(self)@.min
                },
                max: if log.duration_ns > old(self)@.max {
                    log.duration_ns
                } else {
                    old(self)@.max
                },
                sum: old(self)@.sum + log.duration_ns,
                samples: (old(self)@.samples + 1) as u64,
                ..old(self)@
            }),
    {
        self.total_requests = self.total_requests + 1;
        if self.logs.len() >= MAX_LOGS {
            self.logs.pop_front();
        }
        let delay = log.duration_ns;
        self.current_delay = delay;
        if delay < self.min_delay {
            self.min_delay = delay;
        }
        if delay > self.max_delay {
            self.max_delay = delay;
        }
        proof {
            let s = self.delay_samples as int;
            assert((s + 1) * u64::MAX == s * u64::MAX + u64::MAX) by (nonlinear_arith);
        }
        self.total_delay = self.total_delay + delay as u128;
        self.delay_samples = self.delay_samples + 1;
        self.logs.push_back(log);
        proof {
            if old(self)@.logs.len() >= MAX_LOGS {
                assert(self.logs@ =~= old(self)@.logs.drop_first().push(log));
            }
        }
    }

    /// Counts one more request in the current second, in both windows.
    fn increment_rps(&mut self)
        requires
            old(self).wf(),
            old(self)@.counts[0] < old(self)@.total_requests,
        ensures
            final(self).wf(),
            final(self)@ == (MetricsView {
                counts: old(self)@.counts.update(0, (old(self)@.counts[0] + 1) as u64),
                display: old(self)@.counts.update(0, (old(self)@.counts[0] + 1) as u64),
                ..old(self)@
            }),
    {
        let c = self.rps_history[0] + 1;
        self.rps_history.set(0, c);
        self.rps_display_history.set(0, c);
    }

    /// Takes in one observed request: it is logged, its latency recorded,
    /// and it is counted in the current second.
    pub fn observe(&mut self, log: RequestLog)
        requires
            old(self).wf(),
            old(self)@.total_requests < u64::MAX,
        ensures
            final(self).wf(),
            final(self)@ == (MetricsView {
                logs: log_append(old(self)@.logs, log),
                total_requests: (old(self)@.total_requests + 1) as u64,
                current: log.duration_ns,
                min: if log.duration_ns < old(self)@.min {
                    log.duration_ns
                } else {
                    old(self)@.min
                },
                max: if log.duration_ns > old(self)@.max {
                    log.duration_ns
                } else {
                    old(self)@.max
                },
                sum: old(self)@.sum + log.duration_ns,
                samples: (old(self)@.samples + 1) as u64,
                counts: old(self)@.counts.update(0, (old(self)@.counts[0] + 1) as u64),
                display: old(self)@.counts.update(0, (old(self)@.counts[0] + 1) as u64),
                ..old(self)@
            }),
    {
        self.push_log(log);
        self.increment_rps();
    }

    /// Takes in one event from the request handlers.
    pub fn handle_event(&mut self, event: AppEvent)
        requires
            old(self).wf(),
            old(self)@.total_requests < u64::MAX,
        ensures
            final(self).wf(),
            match event {
                AppEvent::RequestReceived(log) => final(self)@ == (MetricsView {
                    logs: log_append(old(self)@.logs, log),
                    total_requests: (old(self)@.total_requests + 1) as u64,
                    current: log.duration_ns,
                    min: if log.duration_ns < old(self)@.min {
                        log.duration_ns
                    } else {
                        old(self)@.min
                    },
                    max: if log.duration_ns > old(self)@.max {
                        log.duration_ns
                    } else {
                        old(self)@.max
                    },
                    sum: old(self)@.sum + log.duration_ns,
                    samples: (old(self)@.samples + 1) as u64,
                    counts: old(self)@.counts.update(0, (old(self)@.counts[0] + 1) as u64),
                    display: old(self)@.counts.update(0, (old(self)@.counts[0] + 1) as u64),
                    ..old(self)@
                }),
            },
    {
        match event {
            AppEvent::RequestReceived(log) => self.observe(log),
        }
    }

    /// Moves the window forward to epoch second `now`. The first call only
    /// records `now`; a clock that did not advance changes nothing.
    pub fn update_rps(&mut self, now: i64)
        requires
            old(self).wf(),
        ensures
            final(self).wf(),
            old(self)@.last_update == 0 ==> final(self)@ == (MetricsView {
                last_update: now,
                ..old(self)@
            }),
            old(self)@.last_update != 0 && now <= old(self)@.last_update ==> final(self)@ == old(
                self,
            )@,
            old(self)@.last_update != 0 && now > old(self)@.last_update ==> final(self)@ == (
            MetricsView {
                counts: shifted(old(self)@.counts, now - old(self)@.last_update),
                display: shifted(old(self)@.display, now - old(self)@.last_update),
                last_update: now,
                ..old(self)@
            }),
    {
        if self.last_rps_update == 0 {
            self.last_rps_update = now;
            return;
        }
        let diff: i128 = now as i128 - self.last_rps_update as i128;
        if diff <= 0 {
            return;
        }
        let k: usize = if diff >= WINDOW_LEN as i128 {
            WINDOW_LEN
        } else {
            diff as usize
        };
        let counts = shift_window(&self.rps_history, k);
        let display = shift_window(&self.rps_display_history, k);
        proof {
            let d = now - old(self)@.last_update;
            assert(counts@ =~= shifted(old(self)@.counts, d));
            assert(display@ =~= shifted(old(self)@.display, d));
        }
        self.rps_history = counts;
        self.rps_display_history = display;
        self.last_rps_update = now;
    }

    /// Smallest duration seen, in nanoseconds; 0 before the first request.
    pub fn get_min_delay(&self) -> (r: u64)
        requires
            self.wf(),
        ensures
            r == if self@.samples == 0 {
                0
            } else {
                self@.min
            },
    {
        if self.delay_samples == 0 {
            0
        } else {
            self.min_delay
        }
    }

    /// Largest duration seen, in nanoseconds; 0 before the first request.
    pub fn get_max_delay(&self) -> (r: u64)
        ensures
            r == self@.max,
    {
        self.max_delay
    }

    /// Mean duration, in nanoseconds rounded down; 0 before the first request.
    pub fn get_avg_delay(&self) -> (r: u64)
        requires
            self.wf(),
        ensures
            r == if self@.samples == 0 {
                0
            } else {
                self@.sum / (self@.samples as int)
            },
    {
        if self.delay_samples == 0 {
            0
        } else {
            let n = self.delay_samples as u128;
            proof {
                let s = self.total_delay as int;
                let m = n as int;
                assert(s / m <= u64::MAX) by (nonlinear_arith)
                    requires
                        0 <= s <= m * u64::MAX,
                        m > 0,
                ;
            }
            (self.total_delay / n) as u64
        }
    }

    /// Statistics of the completed seconds of the window, slots 1 to 59:
    /// the still-running current second is left out.
    pub fn compute_rps_stats(&self) -> (r: RpsStats)
        requires
            self.wf(),
        ensures
            describes(r, self@.counts.subrange(1, WINDOW_LEN as int)),
            r.median <= r.p90 <= r.max,
    {
        let mut data: Vec<u64> = Vec::new();
        let mut i: usize = 1;
        while i < WINDOW_LEN
            invariant
                1 <= i <= WINDOW_LEN,
                self.wf(),
                data@ == self@.counts.subrange(1, i as int),
            decreases WINDOW_LEN - i,
        {
            data.push(self.rps_history[i]);
            i = i + 1;
            assert(data@ =~= self@.counts.subrange(1, i as int));
        }
        rps_stats(&data)
    }

    /// Whole seconds since the aggregator's start instant.
    pub fn uptime_seconds(&self) -> u64 {
        seconds_since(&self.start_time)
    }

    pub fn total_requests(&self) -> (r: u64)
        ensures
            r == self@.total_requests,
    {
        self.total_requests
    }

    pub fn port(&self) -> (r: u16)
        ensures
            r == self@.port,
    {
        self.port
    }

    /// Duration of the last request, in nanoseconds.
    pub fn current_delay(&self) -> (r: u64)
        ensures
            r == self@.current,
    {
        self.current_delay
    }

    /// Sum of all durations, in nanoseconds.
    pub fn total_delay(&self) -> (r: u128)
        ensures
            r == self@.sum,
    {
        self.total_delay
    }

    pub fn delay_samples(&self) -> (r: u64)
        ensures
            r == self@.samples,
    {
        self.delay_samples
    }

    pub fn last_rps_update(&self) -> (r: i64)
        ensures
            r == self@.last_update,
    {
        self.last_rps_update
    }

    /// Number of entries in the log.
    pub fn logs_len(&self) -> (r: usize)
        ensures
            r == self@.logs.len(),
    {
        self.logs.len()
    }

    /// Log entry `i`, 0 being the oldest.
    pub fn log_at(&self, i: usize) -> (r: &RequestLog)
        requires
            i < self@.logs.len(),
        ensures
            *r == self@.logs[i as int],
    {
        &self.logs[i]
    }

    /// Count of window slot `i`, 0 being the current second.
    pub fn rps_count(&self, i: usize) -> (r: u64)
        requires
            self.wf(),
            i < WINDOW_LEN,
        ensures
            r == self@.counts[i as int],
    {
        self.rps_history[i]
    }

    /// Displayed count of window slot `i`.
    pub fn rps_display(&self, i: usize) -> (r: u64)
        requires
            self.wf(),
            i < WINDOW_LEN,
        ensures
            r == self@.display[i as int],
    {
        self.rps_display_history[i]
    }
}

} // verus!
