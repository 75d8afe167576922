use txpool_maintainer::scheduler::TxPoolRevalidationStatus;

#[test]
fn disabled_periods_never_fire() {
    // with neither period, the first idle call arms an empty schedule and
    // every later call stays silent
    let mut status = TxPoolRevalidationStatus::NotScheduled;
    assert!(!status.is_required(1, None, None, 0));
    assert!(matches!(status, TxPoolRevalidationStatus::Scheduled(None, None)));
    assert!(!status.is_required(1_000_000, None, None, 1_000_000));
    assert!(!status.is_required(u64::MAX, None, None, u64::MAX));
    assert!(matches!(status, TxPoolRevalidationStatus::Scheduled(None, None)));
}

#[test]
fn time_period_fires_once_at_the_scheduled_instant() {
    let mut status = TxPoolRevalidationStatus::NotScheduled;
    // arming never itself triggers
    assert!(!status.is_required(3, Some(100), None, 50));
    assert!(matches!(status, TxPoolRevalidationStatus::Scheduled(Some(150), None)));
    // false until the clock reaches the instant
    assert!(!status.is_required(3, Some(100), None, 149));
    // true exactly once
    assert!(status.is_required(3, Some(100), None, 150));
    assert!(matches!(status, TxPoolRevalidationStatus::InProgress));
    // then false until an explicit clear
    assert!(!status.is_required(3, Some(100), None, 500));
    status.clear();
    assert!(matches!(status, TxPoolRevalidationStatus::NotScheduled));
    // a fresh call arms again
    assert!(!status.is_required(3, Some(100), None, 500));
    assert!(matches!(status, TxPoolRevalidationStatus::Scheduled(Some(600), None)));
}

#[test]
fn block_period_fires_exactly_at_the_scheduled_height() {
    let mut status = TxPoolRevalidationStatus::NotScheduled;
    assert!(!status.is_required(10, None, Some(5), 0));
    assert!(matches!(status, TxPoolRevalidationStatus::Scheduled(None, Some(15))));
    assert!(!status.is_required(14, None, Some(5), 0));
    assert!(status.is_required(15, None, Some(5), 0));
    assert!(matches!(status, TxPoolRevalidationStatus::InProgress));
}

#[test]
fn first_period_reached_wins() {
    // a schedule with both deadlines fires on whichever is reached first
    let mut status = TxPoolRevalidationStatus::NotScheduled;
    assert!(!status.is_required(10, Some(100), Some(5), 0));
    assert!(matches!(status, TxPoolRevalidationStatus::Scheduled(Some(100), Some(15))));
    // block height reached, clock not: fires
    assert!(status.is_required(15, Some(100), Some(5), 10));
    assert!(matches!(status, TxPoolRevalidationStatus::InProgress));

    let mut status = TxPoolRevalidationStatus::Scheduled(Some(100), Some(15));
    // clock reached, block height not: fires too
    assert!(status.is_required(11, None, None, 100));
}

#[test]
fn arming_deadlines_saturate() {
    let mut status = TxPoolRevalidationStatus::NotScheduled;
    assert!(!status.is_required(u64::MAX, Some(u64::MAX), Some(1), u64::MAX));
    assert!(matches!(
        status,
        TxPoolRevalidationStatus::Scheduled(Some(u64::MAX), Some(u64::MAX))
    ));
}
