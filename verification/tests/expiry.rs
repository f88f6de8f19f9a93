use filedrop::purge::{
    expired, retention_window, select_expired, step, Action, Phase, Signal, NANOS_PER_SECOND,
    PURGE_AFTER_SECONDS, PURGE_INTERVAL_SECONDS,
};

const DAY: u128 = 86_400_000_000_000;

#[test]
fn window_is_one_day() {
    assert_eq!(retention_window(), DAY);
    assert_eq!(PURGE_AFTER_SECONDS as u128 * NANOS_PER_SECOND, DAY);
    assert_eq!(PURGE_INTERVAL_SECONDS, 60);
}

#[test]
fn file_past_the_window_is_expired() {
    let modified: u128 = 1_000;
    assert!(expired(modified + DAY + 1, modified, DAY));
    assert!(expired(modified + 2 * DAY, modified, DAY));
}

#[test]
fn file_at_the_edge_of_the_window_is_kept() {
    let modified: u128 = 1_000;
    assert!(!expired(modified + DAY, modified, DAY));
    assert!(!expired(modified + DAY - 1, modified, DAY));
    assert!(!expired(modified, modified, DAY));
}

#[test]
fn file_from_the_future_has_age_zero() {
    assert!(!expired(10, 20, 0));
    assert!(!expired(10, 20, DAY));
    assert!(!expired(0, u128::MAX, 0));
}

#[test]
fn extremes_do_not_overflow() {
    assert!(expired(u128::MAX, 0, DAY));
    assert!(!expired(u128::MAX, 0, u128::MAX));
    assert!(expired(u128::MAX, 0, u128::MAX - 1));
}

#[test]
fn sweep_selects_exactly_the_expired_files() {
    let now: u128 = 10 * DAY;
    let modified = [
        now - DAY - 1,
        now - DAY,
        now,
        now - 3 * DAY,
        now + 5,
        0,
        now - DAY + 1,
    ];
    assert_eq!(select_expired(&modified, now, DAY), vec![0, 3, 5]);
}

#[test]
fn sweep_of_an_empty_directory() {
    assert_eq!(select_expired(&[], 5, 1), Vec::<usize>::new());
}

#[test]
fn young_file_survives_many_sweeps() {
    let modified: u128 = 7 * DAY;
    let mut now = modified;
    while now <= modified + DAY {
        assert_eq!(select_expired(&[modified], now, DAY), Vec::<usize>::new());
        now += 60 * NANOS_PER_SECOND;
    }
    assert_eq!(select_expired(&[modified], modified + DAY + 1, DAY), vec![0]);
}

#[test]
fn tick_sweeps_and_stop_exits() {
    assert_eq!(step(Phase::Running, Signal::Tick), (Phase::Running, Action::Sweep));
    assert_eq!(step(Phase::Running, Signal::Stop), (Phase::Stopped, Action::Exit));
}

#[test]
fn stopped_sweeper_never_sweeps() {
    assert_eq!(step(Phase::Stopped, Signal::Tick), (Phase::Stopped, Action::Exit));
    assert_eq!(step(Phase::Stopped, Signal::Stop), (Phase::Stopped, Action::Exit));
    let mut phase = Phase::Running;
    let mut sweeps = 0;
    for signal in [Signal::Tick, Signal::Tick, Signal::Stop, Signal::Tick, Signal::Tick] {
        let (next, action) = step(phase, signal);
        if action == Action::Sweep {
            sweeps += 1;
        }
        phase = next;
    }
    assert_eq!(sweeps, 2);
    assert_eq!(phase, Phase::Stopped);
}
