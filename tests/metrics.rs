use std::time::Instant;

use rustrate::metrics::{AppEvent, RequestLog, TuiData, MAX_LOGS, WINDOW_LEN};
use rustrate::stats::rps_stats;

fn request(path: &str, timestamp: i64, duration_ns: u64) -> RequestLog {
    RequestLog {
        path: path.to_string(),
        method: "GET".to_string(),
        status: 200,
        timestamp,
        duration_ns,
    }
}

/// An aggregator whose window holds `history`, built by observing
/// `history[j]` requests in each second and letting the seconds pass.
fn with_history(history: &[u64; 60]) -> TuiData {
    let mut data = TuiData::new(Instant::now(), 8080);
    let mut t: i64 = 1_000_000;
    data.update_rps(t);
    for j in (1..WINDOW_LEN).rev() {
        for _ in 0..history[j] {
            data.observe(request("/", t, 1));
        }
        t += 1;
        data.update_rps(t);
    }
    for _ in 0..history[0] {
        data.observe(request("/", t, 1));
    }
    data
}

#[test]
fn test_push_log_updates_stats() {
    let start = Instant::now();
    let mut data = TuiData::new(start, 8080);
    let now = chrono::Utc::now().timestamp();
    let log = RequestLog {
        path: "/test".to_string(),
        method: "GET".to_string(),
        status: 200,
        timestamp: now,
        duration_ns: 120_000_000,
    };
    data.push_log(log);
    assert_eq!(data.total_requests(), 1);
    assert_eq!(data.get_min_delay(), 120_000_000);
    assert_eq!(data.get_max_delay(), 120_000_000);
    assert_eq!(data.get_avg_delay(), 120_000_000);
    assert_eq!(data.logs_len(), 1);
}

#[test]
fn test_update_rps_shifts_history() {
    let start = Instant::now();
    let mut data = TuiData::new(start, 8080);
    let now = chrono::Utc::now().timestamp();
    // The window's clock starts 10 seconds ago, with 5 requests in that second.
    data.update_rps(now - 10);
    for _ in 0..5 {
        data.observe(request("/", now - 10, 1));
    }
    assert_eq!(data.rps_count(0), 5);
    data.update_rps(now);
    // After shifting, the previous count is at index 10.
    assert_eq!(data.rps_count(10), 5);
    // And the first 10 indices are reset to 0.
    for i in 0..10 {
        assert_eq!(data.rps_count(i), 0);
    }
}

#[test]
fn test_compute_rps_stats() {
    let history: [u64; 60] = [
        0, 5, 3, 8, 2, 7, 1, 4, 4, 6, 8, 7, 2, 2, 3, 5, 4, 4, 7, 1, 7, 5, 9, 9, 8, 9, 5, 9, 2, 7,
        6, 8, 1, 1, 2, 8, 7, 4, 2, 7, 11, 6, 6, 5, 6, 2, 3, 2, 8, 7, 1, 5, 7, 3, 4, 5, 6, 5, 5, 3,
    ];
    let data = with_history(&history);
    for (i, &h) in history.iter().enumerate() {
        assert_eq!(data.rps_count(i), h);
    }
    let s = data.compute_rps_stats();
    let avg = s.sum as f64 / s.count as f64;
    assert_eq!(s.min, 1);
    assert_eq!(s.max, 11);
    assert_eq!(s.median, 5);
    assert_eq!(avg.round() as u64, 5);
    assert_eq!(s.p90, 9);
    // The 90th percentile lies between the median and the maximum.
    assert!(s.p90 >= s.median && s.p90 <= s.max);
}

#[test]
fn one_observation_sets_every_latency_figure() {
    let mut data = TuiData::new(Instant::now(), 8080);
    data.observe(request("/a", 7, 120_000_000));
    assert_eq!(data.get_min_delay(), 120_000_000);
    assert_eq!(data.get_max_delay(), 120_000_000);
    assert_eq!(data.get_avg_delay(), 120_000_000);
    assert_eq!(data.current_delay(), 120_000_000);
    assert_eq!(data.logs_len(), 1);
    assert_eq!(data.total_requests(), 1);
    assert_eq!(data.rps_count(0), 1);
}

#[test]
fn latency_figures_over_several_requests() {
    let mut data = TuiData::new(Instant::now(), 8080);
    data.observe(request("/a", 1, 30));
    data.observe(request("/b", 1, 10));
    data.observe(request("/c", 1, 21));
    assert_eq!(data.get_min_delay(), 10);
    assert_eq!(data.get_max_delay(), 30);
    assert_eq!(data.current_delay(), 21);
    assert_eq!(data.total_delay(), 61);
    assert_eq!(data.delay_samples(), 3);
    // 61 / 3, rounded down.
    assert_eq!(data.get_avg_delay(), 20);
}

#[test]
fn log_keeps_the_latest_thousand_in_order() {
    let mut data = TuiData::new(Instant::now(), 8080);
    for i in 0..1001i64 {
        data.push_log(request("/", i, 1));
    }
    assert_eq!(data.logs_len(), MAX_LOGS);
    assert_eq!(data.total_requests(), 1001);
    for k in 0..MAX_LOGS {
        assert_eq!(data.log_at(k).timestamp, k as i64 + 1);
    }
}

#[test]
fn first_window_update_only_records_the_time() {
    let mut data = TuiData::new(Instant::now(), 8080);
    data.observe(request("/", 1, 1));
    data.update_rps(500);
    assert_eq!(data.last_rps_update(), 500);
    assert_eq!(data.rps_count(0), 1);
}

#[test]
fn clock_that_does_not_advance_changes_nothing() {
    let mut data = TuiData::new(Instant::now(), 8080);
    data.update_rps(500);
    data.observe(request("/", 500, 1));
    data.update_rps(500);
    data.update_rps(400);
    assert_eq!(data.last_rps_update(), 500);
    assert_eq!(data.rps_count(0), 1);
}

#[test]
fn gap_of_a_full_window_clears_both_arrays() {
    let mut data = TuiData::new(Instant::now(), 8080);
    data.update_rps(500);
    for _ in 0..3 {
        data.observe(request("/", 500, 1));
    }
    data.update_rps(501);
    data.observe(request("/", 501, 1));
    data.update_rps(561);
    for i in 0..WINDOW_LEN {
        assert_eq!(data.rps_count(i), 0);
        assert_eq!(data.rps_display(i), 0);
    }
    assert_eq!(data.last_rps_update(), 561);
}

#[test]
fn shift_drops_what_leaves_the_window() {
    let mut data = TuiData::new(Instant::now(), 8080);
    data.update_rps(100);
    data.observe(request("/", 100, 1));
    data.update_rps(159);
    assert_eq!(data.rps_count(59), 1);
    data.update_rps(160);
    for i in 0..WINDOW_LEN {
        assert_eq!(data.rps_count(i), 0);
    }
}

#[test]
fn display_follows_counts() {
    let mut data = TuiData::new(Instant::now(), 8080);
    data.update_rps(10);
    data.observe(request("/", 10, 1));
    data.observe(request("/", 10, 1));
    assert_eq!(data.rps_display(0), 2);
    data.update_rps(13);
    assert_eq!(data.rps_display(3), 2);
    assert_eq!(data.rps_display(0), 0);
    data.observe(request("/", 13, 1));
    assert_eq!(data.rps_display(0), 1);
}

#[test]
fn idle_aggregator_reports_zeros() {
    let data = TuiData::new(Instant::now(), 8080);
    let s = data.compute_rps_stats();
    assert_eq!((s.min, s.max, s.sum, s.median, s.p90), (0, 0, 0, 0, 0));
    assert_eq!(s.count, 59);
    assert_eq!(data.get_min_delay(), 0);
    assert_eq!(data.get_max_delay(), 0);
    assert_eq!(data.get_avg_delay(), 0);
    assert_eq!(data.port(), 8080);
    assert!(data.uptime_seconds() < 5);
}

#[test]
fn min_ignores_zero_seconds() {
    let s = rps_stats(&vec![0, 4, 0, 2, 9]);
    assert_eq!(s.min, 2);
    assert_eq!(s.max, 9);
    assert_eq!(s.sum, 15);
    assert_eq!(s.count, 5);
    assert_eq!(s.median, 2);
    // ceil(0.9 * 5) = 5, clamped to index 4.
    assert_eq!(s.p90, 9);
}

#[test]
fn even_window_median_averages_the_middle_pair() {
    let s = rps_stats(&vec![4, 1, 3, 2]);
    assert_eq!(s.median, 2);
    assert_eq!(s.p90, 4);
    let s = rps_stats(&vec![10, 1, 7, 20, 3, 6, 2, 8, 9, 5]);
    // sorted: 1 2 3 5 6 7 8 9 10 20; middle pair 6, 7; index 9 for p90.
    assert_eq!(s.median, 6);
    assert_eq!(s.p90, 20);
    let s = rps_stats(&vec![u64::MAX, u64::MAX]);
    assert_eq!(s.median, u64::MAX);
    assert_eq!(s.sum, 2 * (u64::MAX as u128));
}

#[test]
fn p90_uses_the_ceiling_rank() {
    let v: Vec<u64> = (1..=20).collect();
    let s = rps_stats(&v);
    // ceil(0.9 * 20) = 18, the 19th smallest value.
    assert_eq!(s.p90, 19);
    assert_eq!(s.median, 10);
}

#[test]
fn events_are_observed() {
    let mut data = TuiData::new(Instant::now(), 8080);
    for i in 0..5 {
        data.handle_event(AppEvent::RequestReceived(request("/any", i, 0)));
    }
    assert_eq!(data.total_requests(), 5);
    assert_eq!(data.logs_len(), 5);
    assert_eq!(data.log_at(4).path, "/any");
}
