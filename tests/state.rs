use rustrate::delay::DelayError;
use rustrate::format::OutputFormat;
use rustrate::state::AppState;
use tokio::sync::mpsc;

#[test]
fn test_app_state_new() {
    let (tx, _rx) = mpsc::channel(10);
    let state = AppState::new(tx, "100", OutputFormat::Json).unwrap();
    // The request counter starts at 0.
    assert_eq!(
        state
            .total_requests
            .load(std::sync::atomic::Ordering::Relaxed),
        0
    );
}

#[test]
fn test_now_timestamp() {
    let (tx, _rx) = mpsc::channel(10);
    let state = AppState::new(tx, "100", OutputFormat::Json).unwrap();
    let now = state.now_timestamp();
    // Close to the current UTC time.
    let current = chrono::Utc::now().timestamp();
    assert!((now - current).abs() < 2);
}

#[test]
fn app_state_counts_and_delays() {
    let (tx, _rx) = mpsc::channel(10);
    let state = AppState::new(tx, "5-9", OutputFormat::Text).unwrap();
    state.increment_requests();
    state.increment_requests();
    assert_eq!(
        state
            .total_requests
            .load(std::sync::atomic::Ordering::Relaxed),
        2
    );
    for _ in 0..100 {
        let d = state.get_delay();
        assert!((5..=9).contains(&d));
    }
    assert_eq!(state.output_format, OutputFormat::Text);
}

#[test]
fn app_state_refuses_bad_delay() {
    let (tx, _rx) = mpsc::channel(10);
    let r = AppState::new(tx, "9-5", OutputFormat::Json);
    assert_eq!(r.err().map(|_| ()), Some(()));
    let (tx, _rx) = mpsc::channel(10);
    match AppState::new(tx, "x", OutputFormat::Json) {
        Err(e) => assert_eq!(e, DelayError::InvalidValue),
        Ok(_) => panic!("accepted a bad delay"),
    }
}
