use cowclaw_swarm::planner::classify::{classify, profile_dials};

#[test]
fn short_low_risk_is_p1() {
    let r = classify("fix typo in NOTES.md", &[]);
    assert_eq!(r.auto_profile, "P1");
    assert_eq!(r.final_profile, "P1");
    assert!(!r.force_escalated);
    assert!(!r.dials.swarm);
}

#[test]
fn mid_routine_is_p4() {
    let r = classify("add dark-mode toggle to fixture app", &[]);
    assert_eq!(r.auto_profile, "P4");
    assert_eq!(r.final_profile, "P4");
    assert!(r.dials.swarm);
}

#[test]
fn auth_escalates_to_p6() {
    let r = classify("rewrite auth middleware per compliance brief", &[]);
    assert_eq!(r.final_profile, "P6");
    assert!(r.dials.swarm);
}

#[test]
fn high_risk_files_are_guarded() {
    // A file under `auth/` makes the risk high: P6 without forcing.
    let r = classify("tweak the login page layout and copy for the new brand", &["src/auth/login.rs"]);
    assert_eq!(r.auto_profile, "P6");
    assert_eq!(r.final_profile, "P6");
    assert!(!r.force_escalated);
    // A sensitive word in a file name forces a lower profile up to P6.
    let r2 = classify("tweak the settings page layout and copy for the new brand", &["docs/crypto-notes.md"]);
    assert!(r2.force_escalated);
    assert_eq!(r2.final_profile, "P6");
    assert_eq!(r2.dials.main_cap_percent, 60);
}

#[test]
fn dials_of_p1_run_inline() {
    let d = profile_dials(1);
    assert!(!d.swarm);
    assert!(d.gates.is_empty());
}
