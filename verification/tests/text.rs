use abyssal_nexus::numfmt::{id_string, millis_string, score_string, u32_text, u64_text};
use abyssal_nexus::persist::{fitness_json, json_escape, node_row, node_type_string, seal_json};
use abyssal_nexus::prompts::{anthropic_request_body, openai_request_body};
use abyssal_nexus::{
    build_full_prompt, evaluate_seal, extract_anthropic_content, extract_openai_content,
    get_custom_prompt, provider_kind, FitnessScores, MatrixNode, NodeType, Provider, SealPolicy,
    SealState,
};

#[test]
fn decimal_rendering() {
    assert_eq!(u64_text(0), "0");
    assert_eq!(u64_text(7), "7");
    assert_eq!(u64_text(1234567890), "1234567890");
    assert_eq!(u32_text(4294967295), "4294967295");
}

#[test]
fn score_rendering() {
    assert_eq!(score_string(0), "0.00");
    assert_eq!(score_string(7), "0.07");
    assert_eq!(score_string(30), "0.30");
    assert_eq!(score_string(100), "1.00");
    assert_eq!(score_string(250), "2.50");
}

#[test]
fn millis_rendering() {
    assert_eq!(millis_string(0), "0");
    assert_eq!(millis_string(2500), "2500");
    assert_eq!(millis_string(-5), "-5");
    assert_eq!(millis_string(i64::MIN), format!("{}", i64::MIN));
}

#[test]
fn id_rendering_matches_uuid() {
    assert_eq!(id_string(0), "00000000-0000-0000-0000-000000000000");
    let value: u128 = 0x0123456789abcdef0123456789abcdef;
    assert_eq!(id_string(value), uuid::Uuid::from_u128(value).to_string());
    let drawn = uuid::Uuid::new_v4();
    assert_eq!(id_string(drawn.as_u128()), drawn.to_string());
}

#[test]
fn escaping_is_json_safe() {
    assert_eq!(json_escape("plain"), "plain");
    assert_eq!(json_escape("a\"b\\c"), "a\\\"b\\\\c");
    assert_eq!(json_escape("line\nbreak\ttab"), "line\\u000abreak\\u0009tab");
    let wrapped = format!("\"{}\"", json_escape("say \"hi\"\n"));
    let parsed: serde_json::Value = serde_json::from_str(&wrapped).unwrap();
    assert_eq!(parsed.as_str().unwrap(), "say \"hi\"\n");
}

#[test]
fn fitness_blob_is_exact_and_parses() {
    let fitness = FitnessScores {
        coherence: 95,
        hallucination_risk: 5,
        latency_ms: Some(2500),
        cost_tokens: None,
        entropy: None,
    };
    let blob = fitness_json(&fitness);
    assert_eq!(
        blob,
        "{\"coherence\":0.95,\"hallucination_risk\":0.05,\"latency_ms\":2500,\"cost_tokens\":null,\"entropy\":null}"
    );
    let parsed: serde_json::Value = serde_json::from_str(&blob).unwrap();
    assert_eq!(parsed["coherence"].as_f64().unwrap(), 0.95);
    assert_eq!(parsed["latency_ms"].as_u64().unwrap(), 2500);
    assert!(parsed["entropy"].is_null());
}

#[test]
fn seal_blob_round_trips() {
    let open = SealState::default();
    assert_eq!(
        seal_json(&open),
        "{\"sealed\":false,\"reason\":null,\"triggered_at\":null}"
    );
    let mut node = MatrixNode::new(1, NodeType::Recursive, None, 1, 80);
    node.fitness.hallucination_risk = 70;
    node.fitness.coherence = 50;
    let sealed = evaluate_seal(node, &SealPolicy::default());
    let blob = seal_json(&sealed.seal);
    let parsed: serde_json::Value = serde_json::from_str(&blob).unwrap();
    assert_eq!(parsed["sealed"].as_bool(), Some(true));
    assert_eq!(
        parsed["reason"].as_str(),
        Some("hallucination_risk: 0.70 > 0.60")
    );
    let stamp = parsed["triggered_at"].as_str().unwrap();
    let expected =
        chrono::DateTime::from_timestamp_millis(sealed.seal.triggered_at.unwrap()).unwrap();
    assert_eq!(stamp, expected.to_rfc3339());
}

#[test]
fn node_row_columns() {
    let mut node = MatrixNode::new(2, NodeType::Recursive, Some(3), 4, 55);
    node.created_at = 947638923004;
    node.content = Some("hello".to_string());
    let row = node_row(&node);
    assert_eq!(row.id, id_string(node.id));
    assert_eq!(row.session_id, "00000000-0000-0000-0000-000000000002");
    assert_eq!(row.node_type, "Recursive");
    assert_eq!(
        row.parent_id.as_deref(),
        Some("00000000-0000-0000-0000-000000000003")
    );
    assert_eq!(row.depth, 4);
    assert_eq!(row.entropy_value, 55);
    assert_eq!(row.content.as_deref(), Some("hello"));
    let expected = chrono::DateTime::from_timestamp_millis(947638923004).unwrap().to_rfc3339();
    assert_eq!(row.created_at, expected);
    assert_eq!(node_type_string(&NodeType::Origin), "Origin");
    assert_eq!(node_type_string(&NodeType::Mirage), "Mirage");
}

#[test]
fn provider_routing() {
    assert_eq!(provider_kind("anthropic"), Some(Provider::Anthropic));
    assert_eq!(provider_kind("chatgpt"), Some(Provider::ChatGpt));
    assert_eq!(provider_kind("grok"), Some(Provider::Grok));
    assert_eq!(provider_kind("gemini"), None);
    assert_eq!(provider_kind(""), None);
}

#[test]
fn custom_prompts() {
    let anthropic = get_custom_prompt("anthropic", "why?");
    assert_eq!(
        anthropic,
        "You are ANTHROPIC in ABYSSAL NEXUS. Analyze: why?\n\nMAXIMUM reasoning depth. Recursive self-critique. Flag hallucinations. [REASONING] -> [OUTPUT] -> [SEAL_STATUS]"
    );
    assert_eq!(
        get_custom_prompt("chatgpt", "q"),
        "GPT-4o in ABYSSAL MATRIX X. Query: q\n\nUltraReason: Think step-by-step, chain-of-thought, self-verify. ANALYSIS | VERDICT | FITNESS_SCORE"
    );
    assert!(get_custom_prompt("grok", "q").starts_with("GROK in ABYSSAL NEXUS. Raw truth-seeking: q"));
    assert_eq!(
        get_custom_prompt("unknown", "q"),
        "ABYSSAL NEXUS: Pure reasoning mode"
    );
}

#[test]
fn full_prompt_uppercases_provider() {
    let prompt = build_full_prompt("anthropic", "inner", "hello");
    assert_eq!(prompt, "[ABYSSAL NEXUS MODE ANTHROPIC] inner\n\nUser: hello");
}

#[test]
fn anthropic_extraction() {
    let reply = "{\"content\":[{\"text\":\"the answer\"}]}";
    assert_eq!(extract_anthropic_content(reply), "the answer");
    assert_eq!(extract_anthropic_content("not json"), "not json");
    let wrong_shape = "{\"content\":\"flat\"}";
    assert_eq!(extract_anthropic_content(wrong_shape), wrong_shape);
}

#[test]
fn openai_extraction() {
    let reply = "{\"choices\":[{\"message\":{\"content\":\"fine\"}}]}";
    assert_eq!(extract_openai_content(reply), "fine");
    assert_eq!(extract_openai_content("broken"), "broken");
}

#[test]
fn request_bodies_parse() {
    let body = anthropic_request_body("say \"hi\"");
    let parsed: serde_json::Value = serde_json::from_str(&body).unwrap();
    assert_eq!(parsed["model"].as_str(), Some("anthropic-large-20241022"));
    assert_eq!(parsed["max_tokens"].as_u64(), Some(4096));
    assert_eq!(parsed["messages"][0]["role"].as_str(), Some("user"));
    assert_eq!(parsed["messages"][0]["content"].as_str(), Some("say \"hi\""));

    let body = openai_request_body("grok-beta", "line\nbreak");
    let parsed: serde_json::Value = serde_json::from_str(&body).unwrap();
    assert_eq!(parsed["model"].as_str(), Some("grok-beta"));
    assert_eq!(parsed["messages"][0]["content"].as_str(), Some("line\nbreak"));
}
