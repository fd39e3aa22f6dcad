use cowclaw_swarm::hivemind::pick_responder;

#[test]
fn pick_responder_prefers_cross_provider() {
    let pool = vec!["zai-glm-5.1".to_string(), "minimax-m-2.7".to_string()];
    let picked = pick_responder("zai-glm-5.1", &pool, true).unwrap();
    assert_eq!(picked, "minimax-m-2.7");
}

#[test]
fn pick_responder_falls_back_same_provider_when_only_option() {
    let pool = vec!["zai-glm-5.1".to_string()];
    let picked = pick_responder("zai-glm-5.1", &pool, true).unwrap();
    assert_eq!(picked, "zai-glm-5.1");
}

#[test]
fn pick_responder_returns_error_for_empty_pool() {
    let result = pick_responder("zai-glm", &[], true);
    assert!(result.is_err());
}

#[test]
fn pick_responder_without_preference_takes_first_other_worker() {
    let pool = vec!["zai-a".to_string(), "zai-b".to_string(), "minimax-c".to_string()];
    assert_eq!(pick_responder("zai-a", &pool, false).unwrap(), "zai-b");
    assert_eq!(pick_responder("zai-a", &pool, true).unwrap(), "minimax-c");
}
