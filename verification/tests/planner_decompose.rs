use cowclaw_swarm::budget::Tier;
use cowclaw_swarm::planner::artifacts::{
    assemble_phase, dump_planning_graph, extract_profile_from_frontmatter, PhaseNode, PlanningTree, WaveNode,
};
use cowclaw_swarm::planner::decompose;
use cowclaw_swarm::planner::escalate::apply_force_escalate;
use cowclaw_swarm::planner::profile::ProfileId;
use cowclaw_swarm::planner::sizing::{estimate_task_lines, size_and_split, SizingConfig};
use cowclaw_swarm::planner::xml_plan::{escape_xml, Task, XmlPlan};

fn sample_plan() -> XmlPlan {
    XmlPlan {
        id: "phase-03/wave-02/plan-01".into(),
        title: "Wire swarm MCP".into(),
        wave: "phase-03/wave-02".into(),
        depends: vec!["phase-03/wave-01/plan-02".into()],
        files: vec!["src/bin/cowclaw-swarm.rs".into()],
        skills_required: vec!["rust-mcp-server".into()],
        tasks: vec![Task {
            id: "t1".into(),
            action: "impl stdio loop".into(),
            verify: "cargo test passes".into(),
            done: "server accepts initialize".into(),
        }],
        budget_tier: Tier::Default,
        budget_lines: 220,
        commit_message_hint: "feat(swarm): MCP stdio".into(),
    }
}

fn sizing() -> SizingConfig {
    SizingConfig { auto_split_over: 500, auto_merge_under: 80, effective_cap: 300, default_tier: Tier::Default }
}

#[test]
fn profile_id_inline_check() {
    assert!(ProfileId::P1.is_inline());
    assert!(ProfileId::P2.is_inline());
    assert!(!ProfileId::P4.is_inline());
    assert!(!ProfileId::P9.is_inline());
}

#[test]
fn force_escalate_upgrades_p1_to_p6() {
    let patterns = vec![
        "**/migrations/**".to_string(),
        "**/auth/**".into(),
        ".patches/upstream/**".into(),
    ];
    assert_eq!(apply_force_escalate(ProfileId::P1, &["src/lib.rs"], &patterns), ProfileId::P1);
    assert_eq!(apply_force_escalate(ProfileId::P1, &["migrations/001_init.sql"], &patterns), ProfileId::P6);
    assert_eq!(apply_force_escalate(ProfileId::P4, &["src/auth/login.rs"], &patterns), ProfileId::P6);
    assert_eq!(apply_force_escalate(ProfileId::P9, &["migrations/x.sql"], &patterns), ProfileId::P9);
}

#[test]
fn xml_plan_roundtrip() {
    let p = sample_plan();
    let s = p.to_xml().unwrap();
    assert!(s.contains("Wire swarm MCP"));
    let back = XmlPlan::from_xml(&s).unwrap();
    assert_eq!(back.id, p.id);
    assert_eq!(back.tasks.len(), 1);
    assert_eq!(back.tasks[0].id, "t1");
}

#[test]
fn sizing_splits_large_task_set() {
    let tasks: Vec<Task> = (0..20)
        .map(|i| Task { id: format!("t{i}"), action: "x".repeat(60), verify: "ok".into(), done: "done".into() })
        .collect();
    let cfg = sizing();
    let plans = size_and_split("phase-00", "wave-00", tasks, &cfg);
    assert!(plans.len() >= 2, "20 large tasks should split into >=2 plans");
    for p in &plans {
        let estimated = p.budget_lines as usize;
        assert!(estimated <= cfg.auto_split_over, "plan {} estimated {} > {}", p.id, estimated, cfg.auto_split_over);
    }
}

#[test]
fn sizing_keeps_small_task_set_single_plan() {
    let tasks: Vec<Task> = (0..3)
        .map(|i| Task { id: format!("t{i}"), action: "short".into(), verify: "ok".into(), done: "done".into() })
        .collect();
    let plans = size_and_split("phase-00", "wave-00", tasks, &sizing());
    assert_eq!(plans.len(), 1, "3 small tasks should stay in 1 plan");
}

#[test]
fn decompose_escalates_profile_for_migration_files() {
    let patterns = vec!["**/migrations/**".to_string(), ".patches/upstream/**".into()];
    let files = ["migrations/001_add_users.sql"];
    assert_eq!(apply_force_escalate(ProfileId::P1, &files, &patterns), ProfileId::P6);
    assert_eq!(apply_force_escalate(ProfileId::P9, &files, &patterns), ProfileId::P9);
}

#[test]
fn force_escalate_leaves_profile_without_files_or_patterns() {
    let patterns = vec!["**/migrations/**".to_string()];
    assert_eq!(apply_force_escalate(ProfileId::P2, &[], &patterns), ProfileId::P2);
    assert_eq!(apply_force_escalate(ProfileId::P2, &["migrations/a.sql"], &[]), ProfileId::P2);
    // A pattern that does not parse is skipped.
    let bad = vec!["a[".to_string(), "**/auth/**".to_string()];
    assert_eq!(apply_force_escalate(ProfileId::P3, &["x/auth/y.rs"], &bad), ProfileId::P6);
}

#[test]
fn to_xml_writes_the_exact_document() {
    let p = XmlPlan {
        id: "p/w/plan-01".into(),
        title: "A & B".into(),
        wave: "p/w".into(),
        depends: vec![],
        files: vec!["f<1>".into()],
        skills_required: vec![],
        tasks: vec![Task { id: "t1".into(), action: "say \"hi\"".into(), verify: "it's ok".into(), done: "done".into() }],
        budget_tier: Tier::Tight,
        budget_lines: 42,
        commit_message_hint: "".into(),
    };
    let expected = [
        "<?xml version=\"1.0\" encoding=\"UTF-8\"?>\n",
        "<plan id=\"p/w/plan-01\">\n",
        "  <title>A &amp; B</title>\n",
        "  <wave>p/w</wave>\n",
        "  <budget tier=\"tight\" lines=\"42\"/>\n",
        "  <commit_message_hint></commit_message_hint>\n",
        "  <files>\n",
        "    <file>f&lt;1&gt;</file>\n",
        "  </files>\n",
        "  <tasks>\n",
        "    <task id=\"t1\">\n",
        "      <action>say &quot;hi&quot;</action>\n",
        "      <verify>it&apos;s ok</verify>\n",
        "      <done>done</done>\n",
        "    </task>\n",
        "  </tasks>\n",
        "</plan>\n",
    ]
    .concat();
    assert_eq!(p.to_xml().unwrap(), expected);
}

#[test]
fn escape_xml_replaces_the_five_special_characters() {
    assert_eq!(escape_xml("<a href='x'>&\"</a>"), "&lt;a href=&apos;x&apos;&gt;&amp;&quot;&lt;/a&gt;");
}

#[test]
fn written_plan_reads_back_whole() {
    let p = sample_plan();
    let back = XmlPlan::from_xml(&p.to_xml().unwrap()).unwrap();
    assert_eq!(back.id, p.id);
    assert_eq!(back.title, p.title);
    assert_eq!(back.wave, p.wave);
    assert_eq!(back.depends, p.depends);
    assert_eq!(back.files, p.files);
    assert_eq!(back.skills_required, p.skills_required);
    assert_eq!(back.tasks, p.tasks);
    assert_eq!(back.budget_tier, p.budget_tier);
    assert_eq!(back.budget_lines, p.budget_lines);
    assert_eq!(back.commit_message_hint, p.commit_message_hint);
}

#[test]
fn from_xml_reports_malformed_documents() {
    assert!(XmlPlan::from_xml("<plan><title>x</wave></plan>").is_err());
}

#[test]
fn from_xml_defaults_for_bad_budget() {
    let p = XmlPlan::from_xml("<plan id=\"x\"><budget tier=\"huge\" lines=\"many\"/></plan>").unwrap();
    assert_eq!(p.id, "x");
    assert_eq!(p.budget_tier, Tier::Default);
    assert_eq!(p.budget_lines, 0);
}

#[test]
fn estimate_task_lines_counts_bytes_over_eight() {
    let t = Task { id: "t".into(), action: "x".repeat(60), verify: "ok".into(), done: "done".into() };
    assert_eq!(estimate_task_lines(&t), 8 + 66 / 8);
    let tiny = Task { id: "t".into(), action: "a".into(), verify: "".into(), done: "".into() };
    assert_eq!(estimate_task_lines(&tiny), 9);
}

#[test]
fn size_and_split_keeps_tasks_in_order_and_numbers_plans() {
    let tasks: Vec<Task> = (0..10)
        .map(|i| Task { id: format!("t{i}"), action: "y".repeat(200), verify: "ok".into(), done: "done".into() })
        .collect();
    let cfg = SizingConfig { auto_split_over: 500, auto_merge_under: 80, effective_cap: 100, default_tier: Tier::Large };
    let plans = size_and_split("ph", "wv", tasks.clone(), &cfg);
    let flat: Vec<Task> = plans.iter().flat_map(|p| p.tasks.clone()).collect();
    assert_eq!(flat, tasks);
    // Each task takes 8 + 206/8 = 33 lines; a plan holds 20 + 2 * 33 = 86 <= 100.
    assert_eq!(plans.len(), 5);
    assert_eq!(plans[0].id, "ph/wv/plan-01");
    assert_eq!(plans[4].id, "ph/wv/plan-05");
    assert_eq!(plans[1].title, "Auto-split plan 2 of ph");
    assert_eq!(plans[1].wave, "ph/wv");
    assert_eq!(plans[0].budget_lines, 86);
    assert_eq!(plans[0].budget_tier, Tier::Large);
}

#[test]
fn size_and_split_of_nothing_is_one_empty_plan() {
    let plans = size_and_split("ph", "wv", vec![], &sizing());
    assert_eq!(plans.len(), 1);
    assert!(plans[0].tasks.is_empty());
    assert_eq!(plans[0].budget_lines, 20);
}

#[test]
fn decompose_builds_one_phase_with_one_plan() {
    let (result, phase) = decompose("add user toggle feature", ProfileId::P4, 0x1234_abcd, &sizing());
    assert_eq!(result.phase_id, "phase-abcd");
    assert_eq!(result.plan_ids, vec!["phase-abcd/wave-01/plan-01".to_string()]);
    assert_eq!(result.profile, ProfileId::P4);
    assert_eq!(phase.id, "phase-abcd");
    assert_eq!(phase.waves.len(), 1);
    assert_eq!(phase.waves[0].id, "phase-abcd/wave-01");
    let t = &phase.waves[0].plans[0].tasks[0];
    assert_eq!(t.action, "Implement: add user toggle feature");
    assert_eq!(t.verify, "cargo test passes");
}

#[test]
fn decompose_quotes_at_most_100_bytes() {
    let long = "z".repeat(150);
    let (_, phase) = decompose(&long, ProfileId::P1, 7, &sizing());
    assert_eq!(phase.id, "phase-0007");
    assert_eq!(phase.waves[0].plans[0].tasks[0].action, format!("Implement: {}", "z".repeat(100)));
}

#[test]
fn phase_markdown_and_profile_read_back() {
    let phase = PhaseNode { id: "ph1".into(), profile: ProfileId::P7, waves: vec![] };
    let md = PlanningTree::phase_markdown(&phase);
    assert_eq!(md, "---\nid: ph1\nprofile: P7\n---\n# Phase ph1\n");
    assert_eq!(extract_profile_from_frontmatter(&md), ProfileId::P7);
    assert_eq!(extract_profile_from_frontmatter("no front matter"), ProfileId::P4);
    assert_eq!(extract_profile_from_frontmatter("---\nprofile: P42\n---\n"), ProfileId::P4);
    let wave = WaveNode { id: "ph1/w1".into(), plans: vec![] };
    assert_eq!(PlanningTree::wave_markdown(&wave), "---\nid: ph1/w1\n---\n# Wave ph1/w1\n");
    assert_eq!(PlanningTree::plan_slug("ph1/w1/plan-01"), "plan-01");
    assert_eq!(PlanningTree::plan_slug("plain"), "plain");
}

#[test]
fn planning_graph_lists_phases_waves_and_plans() {
    assert_eq!(dump_planning_graph(&vec![]), "graph TD\n  empty[\"No phases found\"]\n");
    let mut plan = sample_plan();
    plan.id = "ph1/w1/plan-01".into();
    let phase = PhaseNode {
        id: "ph1".into(),
        profile: ProfileId::P4,
        waves: vec![WaveNode { id: "ph1/w1".into(), plans: vec![plan] }],
    };
    assert_eq!(
        dump_planning_graph(&vec![phase]),
        "graph TD\n  ph1[\"Phase: ph1\"]\n  ph1 --> ph1_w1[\"Wave: ph1/w1\"]\n  ph1_w1 --> ph1_w1_plan-01[\"Plan: ph1/w1/plan-01\"]\n"
    );
}

#[test]
fn every_profile_reads_back_from_its_name_and_phase_file() {
    let all = [
        ProfileId::P1, ProfileId::P2, ProfileId::P3, ProfileId::P4, ProfileId::P5,
        ProfileId::P6, ProfileId::P7, ProfileId::P8, ProfileId::P9,
    ];
    for p in all {
        assert_eq!(ProfileId::from_name(&p.to_string()), Some(p));
        let phase = PhaseNode { id: "phase 2\r".into(), profile: p, waves: vec![] };
        let md = PlanningTree::phase_markdown(&phase);
        assert_eq!(extract_profile_from_frontmatter(&md), p);
    }
    assert_eq!(ProfileId::from_name("P0"), None);
    assert_eq!(ProfileId::from_name("p1"), None);
}

#[test]
fn forced_escalation_never_lowers_a_profile() {
    let patterns = vec!["**/auth/**".to_string()];
    let all = [
        ProfileId::P1, ProfileId::P2, ProfileId::P3, ProfileId::P4, ProfileId::P5,
        ProfileId::P6, ProfileId::P7, ProfileId::P8, ProfileId::P9,
    ];
    for (i, p) in all.iter().enumerate() {
        let r = apply_force_escalate(*p, &["src/auth/mod.rs"], &patterns);
        let expected = if i < 5 { ProfileId::P6 } else { *p };
        assert_eq!(r, expected);
        assert_eq!(apply_force_escalate(*p, &["src/lib.rs"], &patterns), *p);
    }
}

#[test]
fn decompose_stub_writes_phase_and_plans() {
    let (result, phase) = decompose("add user toggle feature", ProfileId::P4, 42, &sizing());
    assert!(!result.phase_id.is_empty());
    assert!(!result.plan_ids.is_empty());
    assert_eq!(result.profile, ProfileId::P4);
    // The PHASE.md written for the phase records its id and profile.
    let md = PlanningTree::phase_markdown(&phase);
    assert!(md.starts_with(&format!("---\nid: {}\n", result.phase_id)));
    assert_eq!(extract_profile_from_frontmatter(&md), ProfileId::P4);
}

#[test]
fn loaded_phase_keeps_waves_with_readable_plans() {
    let plan = sample_plan();
    let xml = plan.to_xml().unwrap();
    let md = PlanningTree::phase_markdown(&PhaseNode { id: "phase-03".into(), profile: ProfileId::P8, waves: vec![] });
    let waves = vec![
        ("wave-01".to_string(), vec!["<plan><title>x</wave></plan>".to_string()]),
        ("wave-02".to_string(), vec![xml.clone(), "<plan><title>x</wave></plan>".to_string(), xml]),
        ("wave-03".to_string(), vec![]),
    ];
    let phase = assemble_phase("phase-03".into(), &md, waves);
    assert_eq!(phase.id, "phase-03");
    assert_eq!(phase.profile, ProfileId::P8);
    assert_eq!(phase.waves.len(), 1);
    assert_eq!(phase.waves[0].id, "phase-03/wave-02");
    assert_eq!(phase.waves[0].plans.len(), 2);
    assert_eq!(phase.waves[0].plans[0].id, plan.id);
    assert_eq!(phase.waves[0].plans[1].tasks[0].action, plan.tasks[0].action);
}
