use cowclaw_swarm::oracle::{next_cap_state, CapState, Oracle, OracleConfig, OracleError};
use std::path::PathBuf;

fn oracle(cap: u32) -> Oracle {
    Oracle::new(OracleConfig {
        model: "opus-4-7".into(),
        daily_cap: cap,
        timeout_secs: 10,
        cap_state_path: PathBuf::from("oracle_usage.json"),
        claude_path: None,
    })
}

#[test]
fn oracle_cap_reached_on_6th_call() {
    let mut state = CapState { day: "2026-01-01".into(), count: 0 };
    for i in 1..=5u32 {
        state = next_cap_state(state, "2026-01-01", 5).unwrap();
        assert_eq!(state.count, i);
    }
    let err = next_cap_state(state, "2026-01-01", 5).unwrap_err();
    assert!(matches!(err, OracleError::CapReached));
}

#[test]
fn a_new_day_starts_the_count_again() {
    let state = CapState { day: "2026-01-01".into(), count: 5 };
    let next = next_cap_state(state, "2026-01-02", 5).unwrap();
    assert_eq!(next.day, "2026-01-02");
    assert_eq!(next.count, 1);
}

#[test]
fn zero_cap_refuses_every_call() {
    let state = CapState::empty();
    assert!(matches!(next_cap_state(state, "2026-01-01", 0), Err(OracleError::CapReached)));
    assert!(matches!(oracle(0).check_cap(None), Err(OracleError::CapReached)));
}

#[test]
fn check_cap_counts_today() {
    let o = oracle(5);
    let first = o.check_cap(None).unwrap();
    assert_eq!(first.count, 1);
    let second = o.check_cap(Some(first)).unwrap();
    assert_eq!(second.count, 2);
    assert_eq!(o.cfg().daily_cap, 5);
}
