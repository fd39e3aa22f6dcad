use cowclaw_swarm::mcp_stdio::server::{
    answers, batch_bounds, completed_workers, listed_tools, serve_step, tool_args, tool_description, ArgDefault, ArgType, FrameOutcome, LoopStep, method_not_found, parse_profile, required_args,
    retro_markdown, route_method, route_tool, tool_name, session_id, truncate_id, wave_plan_ids, worker_id, McpMethod, McpTool,
};
use cowclaw_swarm::mcp_stdio::{content_length, frame_header, header_complete, header_content_length};
use cowclaw_swarm::events::{Event, Kind};
use cowclaw_swarm::planner::artifacts::{PhaseNode, WaveNode};
use cowclaw_swarm::planner::profile::ProfileId;
use cowclaw_swarm::planner::xml_plan::XmlPlan;
use cowclaw_swarm::budget::Tier;

#[test]
fn framing_roundtrip() {
    for n in [0usize, 7, 58, 50_000, usize::MAX] {
        let h = frame_header(n);
        assert!(header_complete(&h.as_bytes().to_vec()));
        assert_eq!(content_length(&h), Some(n));
        assert_eq!(header_content_length(h.as_bytes()), Some(n));
    }
    assert_eq!(frame_header(12), "Content-Length: 12\r\n\r\n");
}

#[test]
fn content_length_reading() {
    assert_eq!(content_length("X-Other: 1\r\ncontent-LENGTH:  42 \r\n\r\n"), Some(42));
    assert_eq!(content_length("X-Other: 1\r\n\r\n"), None);
    assert_eq!(content_length("Content-Length: abc\r\n\r\n"), None);
    // The first length line decides, even when it does not parse.
    assert_eq!(content_length("Content-Length: x\r\nContent-Length: 5\r\n\r\n"), None);
    assert!(!header_complete(&b"Content-Length: 1\r\n".to_vec()));
}

#[test]
fn methods_and_tools_are_routed() {
    assert_eq!(route_method("initialize"), McpMethod::Initialize);
    assert_eq!(route_method("initialized"), McpMethod::Initialized);
    assert_eq!(route_method("tools/list"), McpMethod::ToolsList);
    assert_eq!(route_method("tools/call"), McpMethod::ToolsCall);
    assert_eq!(route_method("no_such_method"), McpMethod::Unknown);
    assert_eq!(method_not_found("no_such_method"), "method not found: no_such_method");
    assert_eq!(route_tool("cowclaw_swarm_retro"), McpTool::SwarmRetro);
    assert_eq!(route_tool("cowclaw_plan_decompose"), McpTool::PlanDecompose);
    assert_eq!(route_tool("bogus"), McpTool::Unknown);
}

#[test]
fn profiles_ids_and_sessions() {
    assert_eq!(parse_profile("P7"), ProfileId::P7);
    assert_eq!(parse_profile("P4"), ProfileId::P4);
    assert_eq!(parse_profile("p7"), ProfileId::P4);
    assert_eq!(truncate_id("héllo-wörld", 8), "héllo-wö");
    assert_eq!(truncate_id("abc", 8), "abc");
    assert_eq!(worker_id("phase-01/wave-01/plan-01"), "worker-phase-01");
    assert_eq!(session_id("session", 0xbeef), "session-0000beef");
}

fn plan(id: &str) -> XmlPlan {
    XmlPlan {
        id: id.into(),
        title: String::new(),
        wave: String::new(),
        depends: vec![],
        files: vec![],
        skills_required: vec![],
        tasks: vec![],
        budget_tier: Tier::Default,
        budget_lines: 0,
        commit_message_hint: String::new(),
    }
}

#[test]
fn wave_plans_are_found_by_short_or_full_wave_id() {
    let phases = vec![
        PhaseNode {
            id: "ph1".into(),
            profile: ProfileId::P4,
            waves: vec![
                WaveNode { id: "ph1/w1".into(), plans: vec![plan("a"), plan("b")] },
                WaveNode { id: "ph1/w2".into(), plans: vec![plan("c")] },
            ],
        },
        PhaseNode { id: "ph2".into(), profile: ProfileId::P4, waves: vec![WaveNode { id: "w1".into(), plans: vec![plan("d")] }] },
    ];
    assert_eq!(wave_plan_ids(&phases, "ph1", "w1"), vec!["a".to_string(), "b".to_string()]);
    assert_eq!(wave_plan_ids(&phases, "ph2", "w1"), vec!["d".to_string()]);
    assert!(wave_plan_ids(&phases, "ph3", "w1").is_empty());
}

fn event(phase: Option<&str>, kind: Kind) -> Event {
    Event {
        id: None,
        session_id: "s".into(),
        phase_id: phase.map(|p| p.to_string()),
        plan_id: None,
        worker_id: None,
        ts: String::new(),
        kind,
        payload: "{}".into(),
    }
}

#[test]
fn retro_counts_finished_workers_of_the_phase() {
    let events = vec![
        event(Some("ph1"), Kind::WorkerEnd),
        event(Some("ph1"), Kind::WorkerStart),
        event(Some("ph2"), Kind::WorkerEnd),
        event(None, Kind::WorkerEnd),
        event(Some("ph1"), Kind::WorkerEnd),
    ];
    assert_eq!(completed_workers(&events, "ph1"), 2);
    let md = retro_markdown("ph1", 2);
    assert_eq!(
        md,
        "---\nphase_id: ph1\ngenerated_by: cowclaw_swarm_retro\n---\n# Phase Retrospective: ph1\n\n## Completed workers\n\n2 worker(s) completed\n\n## Do differently next time\n\n- (to be filled by reflection)\n"
    );
}

#[test]
fn batches_cover_the_wave_in_order() {
    assert_eq!(batch_bounds(10, 4), vec![(0, 4), (4, 8), (8, 10)]);
    assert_eq!(batch_bounds(4, 4), vec![(0, 4)]);
    assert!(batch_bounds(0, 4).is_empty());
}

#[test]
fn listed_tools_are_five_and_route_back() {
    let tools = listed_tools();
    assert_eq!(tools.len(), 5);
    let names: Vec<&str> = tools.iter().map(|t| tool_name(*t)).collect();
    assert_eq!(
        names,
        vec![
            "cowclaw_plan_decompose",
            "cowclaw_swarm_execute",
            "cowclaw_swarm_execute_wave",
            "cowclaw_swarm_status",
            "cowclaw_swarm_retro",
        ]
    );
    for t in tools {
        assert_eq!(route_tool(tool_name(t)), t);
    }
    assert_eq!(required_args(McpTool::SwarmExecuteWave), vec!["phase_id", "wave_id"]);
    assert_eq!(required_args(McpTool::PlanDecompose), vec!["objective"]);
    assert!(required_args(McpTool::SwarmStatus).is_empty());
}

#[test]
fn server_loop_runs_until_the_input_ends() {
    assert_eq!(serve_step(FrameOutcome::Message), LoopStep::Dispatch);
    assert_eq!(serve_step(FrameOutcome::Unreadable), LoopStep::Skip);
    assert_eq!(serve_step(FrameOutcome::EndOfInput), LoopStep::Stop);
    assert!(answers(route_method("tools/list")));
    assert!(answers(route_method("no/such")));
    assert!(!answers(route_method("initialized")));
}

#[test]
fn tool_table_describes_each_argument() {
    let wave = tool_args(McpTool::SwarmExecuteWave);
    let names: Vec<&str> = wave.iter().map(|a| a.name).collect();
    assert_eq!(names, vec!["phase_id", "wave_id", "max_parallel_workers"]);
    assert_eq!(wave[2].kind, ArgType::Integer);
    assert_eq!(wave[2].default, Some(ArgDefault::Integer(4)));
    let decompose = tool_args(McpTool::PlanDecompose);
    assert_eq!(decompose[1].name, "profile");
    assert_eq!(decompose[1].default, Some(ArgDefault::Text("P4")));
    assert_eq!(tool_args(McpTool::SwarmStatus)[1].default, Some(ArgDefault::Integer(20)));
    assert_eq!(tool_description(McpTool::SwarmExecuteWave), "Execute a whole wave in parallel");
    assert!(tool_args(McpTool::Unknown).is_empty());
}
