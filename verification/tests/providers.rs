use cowclaw_swarm::providers::cowclaw_ext::model_token_limit_fallback;

#[test]
fn glm_5_family_200k_context() {
    for model in ["glm-5.1", "glm-5", "glm-5-turbo"] {
        let limit = model_token_limit_fallback(model)
            .unwrap_or_else(|| panic!("expected token limit for {model}"));
        assert_eq!(limit.max_output_tokens, 16_384, "{model}");
        assert_eq!(limit.context_window_tokens, 200_000, "{model}");
    }
}

#[test]
fn glm_4_family_contexts() {
    for model in ["glm-4.7", "glm-4.7-flashx", "glm-4.7-flash", "glm-4.6"] {
        let limit = model_token_limit_fallback(model)
            .unwrap_or_else(|| panic!("expected token limit for {model}"));
        assert_eq!(limit.max_output_tokens, 16_384, "{model}");
        assert_eq!(limit.context_window_tokens, 200_000, "{model}");
    }
    for model in ["glm-4.5", "glm-4.5-air"] {
        let limit = model_token_limit_fallback(model)
            .unwrap_or_else(|| panic!("expected token limit for {model}"));
        assert_eq!(limit.max_output_tokens, 16_384, "{model}");
        assert_eq!(limit.context_window_tokens, 128_000, "{model}");
    }
}

#[test]
fn minimax_models() {
    for model in [
        "minimax-m2.7",
        "minimax-m2.7-highspeed",
        "minimax-m2.5",
        "m2.7",
        "m2.7-highspeed",
        "m2.5",
    ] {
        let limit = model_token_limit_fallback(model)
            .unwrap_or_else(|| panic!("expected token limit for {model}"));
        assert_eq!(limit.max_output_tokens, 16_384, "{model}");
        assert_eq!(limit.context_window_tokens, 200_000, "{model}");
    }
    for model in ["minimax-m2", "m2"] {
        let limit = model_token_limit_fallback(model)
            .unwrap_or_else(|| panic!("expected token limit for {model}"));
        assert_eq!(limit.max_output_tokens, 128_000, "{model}");
        assert_eq!(limit.context_window_tokens, 200_000, "{model}");
    }
}

#[test]
fn unknown_model_returns_none() {
    assert!(model_token_limit_fallback("gpt-4").is_none());
    assert!(model_token_limit_fallback("opus-4-6").is_none());
    assert!(model_token_limit_fallback("nonexistent-model").is_none());
}
