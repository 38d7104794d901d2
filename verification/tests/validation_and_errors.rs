//! Tests of schema validation, target decoding, error texts and prompt
//! construction.

use llm_gateway::client::{classify_provider_status, ClientError};
use llm_gateway::gateway::StageFailure;
use llm_gateway::graph::{parse_edge_kind, parse_node_kind, EdgeKind, NodeKind};
use llm_gateway::gateway::{
    build_correction_prompt, build_initial_prompt, schema_for_prompt, GatewayError,
};
use llm_gateway::schema_validator::{
    validation_target_from_code, SchemaValidator, ValidationTarget, CONCEPT_SCHEMA,
};

const VALID_GRAPH: &str = r#"{"nodes":[{"id":"a","label":"X","kind":"CONCEPT","properties":[]},{"id":"b","label":"Y","kind":"CONCEPT","properties":[]}],"edges":[{"source_id":"a","target_id":"b","kind":"INFLUENCES"}]}"#;

#[test]
fn schemas_compile_and_accept_the_example() {
    let v = SchemaValidator::new().expect("the built-in schemas compile");
    for target in [
        ValidationTarget::Concept,
        ValidationTarget::Entity,
        ValidationTarget::Scenario,
        ValidationTarget::Algorithm,
    ] {
        assert!(v.validate(VALID_GRAPH, &target).is_ok());
    }
}

#[test]
fn schema_rejects_missing_members_and_bad_kinds() {
    let v = SchemaValidator::new().expect("the built-in schemas compile");
    let missing = r#"{"nodes":[]}"#;
    assert!(v.validate(missing, &ValidationTarget::Concept).is_err());
    let bad_kind = r#"{"nodes":[{"id":"a","label":"X","kind":"THING","properties":[]}],"edges":[]}"#;
    assert!(v.validate(bad_kind, &ValidationTarget::Concept).is_err());
    let not_json = "definitely not json";
    assert!(v.validate(not_json, &ValidationTarget::Concept).is_err());
}

#[test]
fn target_codes_decode_and_reject_unknown_values() {
    assert_eq!(validation_target_from_code(1), Some(ValidationTarget::Concept));
    assert_eq!(validation_target_from_code(2), Some(ValidationTarget::Entity));
    assert_eq!(validation_target_from_code(3), Some(ValidationTarget::Scenario));
    assert_eq!(validation_target_from_code(4), Some(ValidationTarget::Algorithm));
    assert_eq!(validation_target_from_code(0), None);
    assert_eq!(validation_target_from_code(5), None);
    assert_eq!(validation_target_from_code(-1), None);
}

#[test]
fn client_error_texts_are_exact() {
    assert_eq!(ClientError::Http("boom".to_string()).describe(), "HTTP error: boom");
    assert_eq!(
        ClientError::RateLimit { retry_after_ms: 1500 }.describe(),
        "Rate limited, retry after 1500ms"
    );
    assert_eq!(ClientError::AuthError("nope".to_string()).describe(), "Auth error: nope");
    assert_eq!(ClientError::Timeout.describe(), "Request timed out");
    assert_eq!(ClientError::Upstream("bad".to_string()).describe(), "Upstream error: bad");
}

#[test]
fn gateway_error_texts_are_exact() {
    assert_eq!(
        GatewayError::ApiError("x".to_string()).describe(),
        "LLM API error: x"
    );
    assert_eq!(
        GatewayError::ExhaustedRetries { attempts: 3, last_error: "why".to_string() }.describe(),
        "Exhausted 3 retries. Last error: why"
    );
}

#[test]
fn status_classification_matches_the_provider_protocol() {
    match classify_provider_status(429, Some(2), String::new()) {
        ClientError::RateLimit { retry_after_ms } => assert_eq!(retry_after_ms, 2000),
        _ => panic!("throttling maps to a rate limit"),
    }
    match classify_provider_status(429, None, String::new()) {
        ClientError::RateLimit { retry_after_ms } => assert_eq!(retry_after_ms, 5000),
        _ => panic!("throttling maps to a rate limit"),
    }
    match classify_provider_status(401, None, String::new()) {
        ClientError::AuthError(m) => assert_eq!(m, "Invalid API key"),
        _ => panic!("a rejected credential maps to an auth error"),
    }
    match classify_provider_status(500, None, "500 - oops".to_string()) {
        ClientError::Upstream(m) => assert_eq!(m, "500 - oops"),
        _ => panic!("other statuses map upstream"),
    }
}

#[test]
fn prompts_embed_schema_input_and_correction_material() {
    let p = build_initial_prompt("the raw input", ValidationTarget::Concept);
    assert!(p.starts_with("You are a structured data extraction engine."));
    assert!(p.contains(CONCEPT_SCHEMA));
    assert!(p.ends_with("Input:\nthe raw input"));

    let c = build_correction_prompt(
        "the raw input",
        ValidationTarget::Entity,
        "{bad}",
        "Invalid JSON: oops",
    );
    assert!(c.starts_with("Your previous response was invalid. Fix it."));
    assert!(c.contains("Error: Invalid JSON: oops"));
    assert!(c.contains("Your invalid response:\n{bad}"));
    assert!(c.contains(schema_for_prompt(ValidationTarget::Entity)));
    assert!(c.contains("Original input:\nthe raw input"));
    assert!(c.ends_with("Return only the corrected JSON object:"));
}

#[test]
fn kind_names_parse_exactly() {
    assert_eq!(parse_node_kind("CONCEPT"), Some(NodeKind::Concept));
    assert_eq!(parse_node_kind("ENTITY"), Some(NodeKind::Entity));
    assert_eq!(parse_node_kind("SCENARIO"), Some(NodeKind::Scenario));
    assert_eq!(parse_node_kind("ALGORITHM_STEP"), Some(NodeKind::AlgorithmStep));
    assert_eq!(parse_node_kind("concept"), None);
    assert_eq!(parse_node_kind(""), None);
    assert_eq!(parse_edge_kind("INFLUENCES"), Some(EdgeKind::Influences));
    assert_eq!(parse_edge_kind("DEPENDS_ON"), Some(EdgeKind::DependsOn));
    assert_eq!(parse_edge_kind("ADJACENT"), Some(EdgeKind::Adjacent));
    assert_eq!(parse_edge_kind("CONTAINS"), Some(EdgeKind::Contains));
    assert_eq!(parse_edge_kind("RELATES"), Some(EdgeKind::Relates));
    assert_eq!(parse_edge_kind("INFLUENCE"), None);
}

#[test]
fn numbers_render_in_plain_base_ten() {
    assert_eq!(
        ClientError::RateLimit { retry_after_ms: 0 }.describe(),
        "Rate limited, retry after 0ms"
    );
    assert_eq!(
        ClientError::RateLimit { retry_after_ms: 18446744073709551615 }.describe(),
        "Rate limited, retry after 18446744073709551615ms"
    );
}

#[test]
fn stage_failure_messages_carry_their_prefix() {
    assert_eq!(
        StageFailure::InvalidJson("x".to_string()).message(),
        "Invalid JSON: x"
    );
    assert_eq!(
        StageFailure::SchemaViolation("y".to_string()).message(),
        "Schema violation: y"
    );
    assert_eq!(
        StageFailure::Deserialization("z".to_string()).message(),
        "Deserialization failed: z"
    );
}
