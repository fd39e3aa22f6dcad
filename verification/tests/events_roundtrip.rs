use cowclaw_swarm::events::{event_from_columns, refuse_update, BadColumn, Kind};

#[test]
fn event_kind_roundtrip_json() {
    let cases = vec![
        Kind::SessionStart, Kind::SessionEnd,
        Kind::PhaseStart, Kind::PhaseEnd,
        Kind::PlanStart, Kind::PlanEnd, Kind::PlanDecompose,
        Kind::GateRun,
        Kind::WorkerStart, Kind::WorkerTurn, Kind::WorkerStuck, Kind::WorkerEnd,
        Kind::PeerConsultOpen, Kind::PeerConsultAnswer, Kind::PeerConsultClose,
        Kind::OracleEscalate, Kind::OracleAnswer,
        Kind::SkillLoad,
        Kind::ChunkTimeout,
    ];
    for k in &cases {
        let s = k.as_str();
        let back = Kind::from_name(s).unwrap();
        assert_eq!(&back, k);
    }
    assert_eq!(Kind::PeerConsultOpen.as_str(), "peer_consult_open");
    assert_eq!(Kind::from_name("WorkerEnd"), None);
}

#[test]
fn writer_refuses_update() {
    let result = refuse_update();
    assert!(result.is_err());
    assert!(result.unwrap_err().contains("append-only"));
}

#[test]
fn stored_columns_read_back_as_an_event() {
    let ok = event_from_columns(
        7, "s1".into(), Some("ph".into()), None, Some("w1".into()),
        "2024-05-01T10:00:00+00:00".into(), "worker_turn", r#"{"text":"hi"}"#.into(),
    )
    .unwrap();
    assert_eq!(ok.id, Some(7));
    assert_eq!(ok.session_id, "s1");
    assert_eq!(ok.phase_id.as_deref(), Some("ph"));
    assert_eq!(ok.plan_id, None);
    assert_eq!(ok.kind, Kind::WorkerTurn);
    assert_eq!(ok.payload, r#"{"text":"hi"}"#);
    assert_eq!(ok.ts, "2024-05-01T10:00:00+00:00");
    let shifted = event_from_columns(
        8, "s1".into(), None, None, None,
        "2024-05-01T10:00:00+02:00".into(), "worker\\u005fturn", "null".into(),
    )
    .unwrap();
    assert_eq!(shifted.ts, "2024-05-01T08:00:00+00:00");
    assert_eq!(shifted.kind, Kind::WorkerTurn);
    let quoted_kind = event_from_columns(1, "s".into(), None, None, None, "2024-05-01T10:00:00Z".into(), "gate_run\"", "{}".into());
    assert_eq!(quoted_kind.err(), Some(BadColumn::Kind));
    let bad_ts = event_from_columns(1, "s".into(), None, None, None, "yesterday".into(), "worker_turn", "{}".into());
    assert_eq!(bad_ts.err(), Some(BadColumn::Ts));
    let bad_kind = event_from_columns(1, "s".into(), None, None, None, "2024-05-01T10:00:00Z".into(), "nope", "{}".into());
    assert_eq!(bad_kind.err(), Some(BadColumn::Kind));
    let bad_payload = event_from_columns(1, "s".into(), None, None, None, "2024-05-01T10:00:00Z".into(), "gate_run", "{oops".into());
    assert_eq!(bad_payload.err(), Some(BadColumn::Payload));
    let any_json = event_from_columns(1, "s".into(), None, None, None, "2024-05-01T10:00:00Z".into(), "gate_run", "[1, 2]".into());
    assert!(any_json.is_ok());
}
