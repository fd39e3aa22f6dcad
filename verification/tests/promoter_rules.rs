use cowclaw_swarm::promoter::a_insight::RuleA;
use cowclaw_swarm::promoter::c_habit::RuleC;
use cowclaw_swarm::promoter::d_retro::RuleD;

#[test]
fn rule_a_builds_insight_drawer() {
    let d = RuleA::insight_drawer("s1", Some("p1"), "how to proceed?", "do X", "resolved");
    assert_eq!(d.wing, "cowclaw");
    assert_eq!(d.title, "Peer Consult Insight: how to proceed?");
    assert_eq!(d.body, "Session: s1\nPlan: p1\nQuestion: how to proceed?\nAnswer: do X\nOutcome: resolved");
    assert_eq!(d.tags, vec!["peer_consult".to_string(), "insight".to_string()]);
    let long_q = "q".repeat(80);
    let d2 = RuleA::insight_drawer("s", None, &long_q, "a", "o");
    assert_eq!(d2.title, format!("Peer Consult Insight: {}", "q".repeat(60)));
    assert!(d2.body.starts_with("Session: s\nPlan: \nQuestion: "));
}

#[test]
fn rule_c_extracts_preferences_to_habits() {
    let d = RuleC::preference_drawer(r#"{"text": "Please ALWAYS run cargo test before committing"}"#).unwrap();
    assert_eq!(d.wing, "habits");
    assert_eq!(d.title, "Preference: Please ALWAYS run cargo test before committing");
    assert_eq!(d.body, "Please ALWAYS run cargo test before committing");
    assert_eq!(d.tags, vec!["habit".to_string(), "preference".to_string()]);
    assert!(RuleC::preference_drawer(r#"{"text": "ran the tests"}"#).is_none());
    assert!(RuleC::preference_drawer("not json").is_none());
    assert!(RuleC::preference_drawer(r#"{"other": "please always"}"#).is_none());
}

#[test]
fn rule_d_writes_retro_md() {
    let gates = vec![
        ("plan_adversarial".to_string(), "pass".to_string(), "all good".to_string()),
        ("security".to_string(), "fail".to_string(), "leaked key".to_string()),
        ("scope".to_string(), "warn".to_string(), "narrow".to_string()),
    ];
    let consults = vec![("why?".to_string(), Some("because".to_string()), None)];
    let md = RuleD::retro_markdown("phase-01", &gates, &consults);
    assert_eq!(
        md,
        "---\nphase_id: phase-01\ngenerated_by: rule_d\n---\n# Phase Retrospective: phase-01\n\n\
## What went well\n\n- plan_adversarial gate passed\n\
\n## What didn't go well\n\n- security fail: leaked key\n- scope warn: narrow\n\
\n## Peer Consultations\n\n- Q: why?\n  A: because\n  Outcome: \n\
\n## Do differently next time\n\n- (to be filled by reflection)\n"
    );
    let empty = RuleD::retro_markdown("p", &vec![], &vec![]);
    assert!(empty.contains("- (no gate results recorded)\n"));
    assert!(empty.contains("- (no failures)\n"));
    assert!(empty.contains("- (none)\n"));
    let d = RuleD::retro_drawer("phase-01", &md);
    assert_eq!(d.title, "Retro: phase-01");
    assert_eq!(d.body, md.chars().take(500).collect::<String>());
    assert_eq!(d.tags, vec!["retro".to_string(), "phase-01".to_string()]);
    assert_eq!(RuleD::phase_pattern("phase-01"), "phase-01%");
}

#[test]
fn retro_is_written_under_the_phase_directory() {
    let p = RuleD::retro_path(&std::path::PathBuf::from("/tmp/planning"), "phase-02");
    assert_eq!(p, std::path::PathBuf::from("/tmp/planning/phase-02/RETRO.md"));
}
