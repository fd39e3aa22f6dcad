use cowclaw_swarm::planner::classify::classify;

#[test]
fn p1_typo_fix() {
    let r = classify("fix typo in NOTES.md", &[]);
    assert_eq!(r.auto_profile, "P1");
    assert_eq!(r.final_profile, "P1");
    assert!(!r.dials.swarm);
}

#[test]
fn p4_dark_mode_toggle() {
    let r = classify("add dark-mode toggle to fixture app", &[]);
    assert_eq!(r.auto_profile, "P4");
    assert_eq!(r.final_profile, "P4");
    assert!(r.dials.swarm);
    assert_eq!(r.dials.main_cap_percent, 70);
}

#[test]
fn p6_auth_middleware_force_escalate() {
    let r = classify("rewrite auth middleware per compliance brief", &[]);
    assert_eq!(r.final_profile, "P6");
    assert!(r.dials.swarm);
}
