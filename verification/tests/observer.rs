use untis_telegram_bot::bot_service::{after_worker_end, plan_workers, WorkerOutcome};
use untis_telegram_bot::work::sends_alive_notice;

#[test]
fn plan_stops_gone_tasks_and_starts_new_ones() {
    let running = vec![1u128, 2, 3];
    let current = vec![3u128, 4, 1, 5];
    let (stop, start) = plan_workers(&running, &current);
    assert_eq!(stop, vec![2]);
    assert_eq!(start, vec![1, 3]);
}

#[test]
fn plan_starts_a_repeated_id_once_at_its_first_place() {
    let running: Vec<u128> = Vec::new();
    let current = vec![7u128, 8, 7, 9, 8];
    let (stop, start) = plan_workers(&running, &current);
    assert!(stop.is_empty());
    assert_eq!(start, vec![0, 1, 3]);
}

#[test]
fn plan_on_an_empty_database_stops_everything() {
    let running = vec![u128::MAX, 0];
    let (stop, start) = plan_workers(&running, &Vec::new());
    assert_eq!(stop, vec![u128::MAX, 0]);
    assert!(start.is_empty());
}

#[test]
fn a_failed_worker_is_dropped_and_the_wait_shortened() {
    let (kept, shorten) = after_worker_end(vec![4, 5, 6], WorkerOutcome::Failed(5));
    assert_eq!(kept, vec![4, 6]);
    assert!(shorten);
}

#[test]
fn a_failed_worker_is_started_again_next_round() {
    let (kept, _) = after_worker_end(vec![4, 5, 6], WorkerOutcome::Failed(5));
    let (stop, start) = plan_workers(&kept, &vec![4, 5, 6]);
    assert!(stop.is_empty());
    assert_eq!(start, vec![1]);
}

#[test]
fn a_panicked_worker_stays_listed_and_the_wait_is_shortened() {
    let (kept, shorten) = after_worker_end(vec![4, 5], WorkerOutcome::Panicked);
    assert_eq!(kept, vec![4, 5]);
    assert!(shorten);
}

#[test]
fn a_stopped_worker_changes_nothing() {
    let (kept, shorten) = after_worker_end(vec![4, 5], WorkerOutcome::Cancelled);
    assert_eq!(kept, vec![4, 5]);
    assert!(!shorten);
}

#[test]
fn alive_notice_every_tenth_round_in_development_only() {
    assert!(sends_alive_notice(false, 0));
    assert!(!sends_alive_notice(false, 9));
    assert!(sends_alive_notice(false, 20));
    assert!(!sends_alive_notice(true, 0));
    assert!(!sends_alive_notice(true, 30));
}
