use cowclaw_swarm::events::Kind;
use cowclaw_swarm::worker::runtime::{
    api_error_to_turn_status, ApiErrorKind, ApiProviderRuntime, MockRuntime, TurnStatus,
};
use cowclaw_swarm::worker::scratch::scratch_name;
use cowclaw_swarm::worker::Worker;

#[test]
fn mock_runtime_reports_its_status() {
    let rt = MockRuntime { next_status: TurnStatus::Done };
    let out = rt.turn_output("plan-01");
    assert_eq!(out.summary_md, "# mock summary for plan-01");
    assert!(out.evidence_paths.is_empty());
    assert_eq!(out.status, TurnStatus::Done);
    let api = ApiProviderRuntime { provider_name: "zai".into(), model: "glm-5".into() };
    assert_eq!(api.turn_output().summary_md, "# api stub for zai/glm-5");
}

#[test]
fn chunk_timeouts_reach_stuck_detection() {
    assert_eq!(api_error_to_turn_status(ApiErrorKind::ChunkTimeout), TurnStatus::ChunkTimeout);
    assert_eq!(api_error_to_turn_status(ApiErrorKind::Other), TurnStatus::Failed);
}

#[test]
fn scratch_names_flatten_plan_ids() {
    assert_eq!(scratch_name("phase-01/wave-01/plan-01"), "scratch-phase-01-wave-01-plan-01");
}

#[test]
fn worker_events_name_the_worker() {
    let w = Worker {
        id: "worker-1".into(),
        plan_id: "plan-1".into(),
        phase_id: "phase-1".into(),
        session_id: "sess".into(),
        runtime: MockRuntime { next_status: TurnStatus::Done },
        stuck_threshold: 3,
    };
    let e = w.ev(Kind::WorkerStart, "2026-01-01T00:00:00Z".into(), "{}".into());
    assert_eq!(e.id, None);
    assert_eq!(e.session_id, "sess");
    assert_eq!(e.phase_id.as_deref(), Some("phase-1"));
    assert_eq!(e.plan_id.as_deref(), Some("plan-1"));
    assert_eq!(e.worker_id.as_deref(), Some("worker-1"));
    assert_eq!(e.kind, Kind::WorkerStart);
}
