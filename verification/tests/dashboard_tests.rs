//! Checks of the dashboard's data side: the history rings, the success-rate
//! gauge, and the status-code ordering.

use api_check::dashboard::{sort_status_counts, success_rate_percent, DashboardHistory};

#[test]
fn test_history_rings_are_bounded() {
    let mut history = DashboardHistory::new();
    for i in 0..150usize {
        history.update(1, i as u64, i + 1);
    }
    // Each ring keeps the 100 newest samples, oldest first.
    assert_eq!(history.latency_samples().len(), 100);
    assert_eq!(history.latency_samples()[0], 50);
    assert_eq!(history.latency_samples()[99], 149);
    assert_eq!(history.arrival_samples().len(), 100);
    // Every update saw exactly one new record arrive.
    assert_eq!(history.arrival_samples()[99], 1);
}

#[test]
fn test_history_skips_latency_when_idle() {
    let mut history = DashboardHistory::new();
    // With no requests seen yet, no latency sample is taken.
    history.update(0, 0, 0);
    assert_eq!(history.latency_samples().len(), 0);
    assert_eq!(history.arrival_samples().len(), 1);
    // A count that dropped (a concurrent clear) yields a zero arrival
    // sample, not an underflow.
    history.update(1, 3, 5);
    history.update(1, 3, 2);
    assert_eq!(history.arrival_samples(), &vec![0, 5, 0]);
}

#[test]
fn test_success_rate_percent() {
    assert_eq!(success_rate_percent(0, 0), 0);
    assert_eq!(success_rate_percent(5, 10), 50);
    assert_eq!(success_rate_percent(10, 10), 100);
    assert_eq!(success_rate_percent(1, 3), 33);
}

#[test]
fn test_sort_status_counts() {
    let sorted = sort_status_counts(vec![(500, 2), (200, 5), (404, 3)]);
    assert_eq!(sorted, vec![(200, 5), (404, 3), (500, 2)]);
    let empty = sort_status_counts(vec![]);
    assert_eq!(empty, vec![]);
}
