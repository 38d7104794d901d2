//! End-to-end tests of the structuring gateway driven by the scripted
//! provider client.

use llm_gateway::client::ClientError;
use llm_gateway::gateway::{GatewayError, LlmGateway};
use llm_gateway::mock::MockLlmClient;
use llm_gateway::schema_validator::ValidationTarget;

const VALID_GRAPH: &str = r#"{"nodes":[{"id":"a","label":"X","kind":"CONCEPT","properties":[]},{"id":"b","label":"Y","kind":"CONCEPT","properties":[]}],"edges":[{"source_id":"a","target_id":"b","kind":"INFLUENCES"}]}"#;

fn gateway_with(
    responses: Vec<Result<String, ClientError>>,
) -> LlmGateway<MockLlmClient> {
    let client = MockLlmClient::new(responses);
    LlmGateway::new(client).expect("the built-in schemas must compile")
}

#[test]
fn first_valid_reply_succeeds_in_one_attempt() {
    let mut gw = gateway_with(vec![Ok(VALID_GRAPH.to_string())]);
    let out = gw
        .structure_input("X causes Y", ValidationTarget::Concept)
        .expect("a valid first reply must succeed");
    assert_eq!(out.attempts, 1);
    assert_eq!(out.confidence, 100);
    assert!(out.warnings.is_empty());
    assert_eq!(out.graph.nodes.len(), 2);
    assert_eq!(out.graph.edges.len(), 1);
    assert_eq!(out.graph.nodes[0].id, "a");
    assert_eq!(out.graph.nodes[0].label, "X");
    assert_eq!(out.graph.nodes[1].id, "b");
    assert_eq!(out.graph.edges[0].source_id, "a");
    assert_eq!(out.graph.edges[0].target_id, "b");
    assert_eq!(gw.client.call_count(), 1);
}

#[test]
fn malformed_then_valid_reply_takes_two_attempts() {
    let mut gw = gateway_with(vec![
        Ok("this is not json".to_string()),
        Ok(VALID_GRAPH.to_string()),
    ]);
    let out = gw
        .structure_input("X causes Y", ValidationTarget::Concept)
        .expect("the second reply is valid");
    assert_eq!(out.attempts, 2);
    assert_eq!(out.confidence, 100);
    assert!(out.warnings.is_empty());
    assert_eq!(gw.client.call_count(), 2);
}

#[test]
fn correction_prompt_embeds_previous_bad_output() {
    let mut gw = gateway_with(vec![
        Ok("this is not json".to_string()),
        Ok(VALID_GRAPH.to_string()),
    ]);
    let out = gw
        .structure_input("X causes Y", ValidationTarget::Concept)
        .expect("the second reply is valid");
    assert_eq!(out.attempts, 2);
    let first_prompt = gw.client.prompt_at(0);
    assert!(first_prompt.contains("X causes Y"));
    assert!(first_prompt.contains("Schema:"));
    let second_prompt = gw.client.prompt_at(1);
    assert!(second_prompt.contains("Your previous response was invalid."));
    assert!(second_prompt.contains("this is not json"));
    assert!(second_prompt.contains("Invalid JSON:"));
    assert!(second_prompt.contains("X causes Y"));
}

#[test]
fn two_failures_then_valid_reply_takes_three_attempts() {
    let mut gw = gateway_with(vec![
        Err(ClientError::Timeout),
        Ok(r#"{"edges":[]}"#.to_string()),
        Ok(VALID_GRAPH.to_string()),
    ]);
    let out = gw
        .structure_input("X causes Y", ValidationTarget::Concept)
        .expect("the third reply is valid");
    assert_eq!(out.attempts, 3);
    assert_eq!(out.confidence, 100);
    assert_eq!(gw.client.call_count(), 3);
}

#[test]
fn three_failing_replies_exhaust_retries() {
    let mut gw = gateway_with(vec![Ok("nonsense".to_string())]);
    let err = gw
        .structure_input("X causes Y", ValidationTarget::Concept)
        .expect_err("every reply is malformed");
    match err {
        GatewayError::ExhaustedRetries { attempts, last_error } => {
            assert_eq!(attempts, 3);
            assert!(last_error.contains("Invalid JSON:"));
        }
        GatewayError::ApiError(_) => panic!("the loop never reports an api error"),
    }
    assert_eq!(gw.client.call_count(), 3);
}

#[test]
fn client_errors_alone_exhaust_retries() {
    let mut gw = gateway_with(vec![Err(ClientError::Timeout)]);
    let err = gw
        .structure_input("X causes Y", ValidationTarget::Concept)
        .expect_err("the provider never answers");
    match err {
        GatewayError::ExhaustedRetries { attempts, last_error } => {
            assert_eq!(attempts, 3);
            assert_eq!(last_error, "API error: Request timed out");
        }
        GatewayError::ApiError(_) => panic!("the loop never reports an api error"),
    }
    // A provider failure leaves nothing to correct, so every prompt is the
    // initial one.
    assert!(gw.client.prompt_at(2).starts_with("You are a structured data extraction engine."));
}

#[test]
fn schema_violation_feeds_correction_prompt() {
    let missing_edges = r#"{"nodes":[]}"#;
    let mut gw = gateway_with(vec![
        Ok(missing_edges.to_string()),
        Ok(VALID_GRAPH.to_string()),
    ]);
    let out = gw
        .structure_input("X causes Y", ValidationTarget::Concept)
        .expect("the second reply is valid");
    assert_eq!(out.attempts, 2);
    let second_prompt = gw.client.prompt_at(1);
    assert!(second_prompt.contains("Schema violation:"));
    assert!(second_prompt.contains(missing_edges));
}

#[test]
fn domain_outcome_never_fails_the_call() {
    // A valid decode with a cycle under the algorithm target still succeeds,
    // with zero confidence.
    let cyclic = r#"{"nodes":[{"id":"a","label":"A","kind":"ALGORITHM_STEP","properties":[{"key":"algorithm_id","value":"1"}]},{"id":"b","label":"B","kind":"ALGORITHM_STEP","properties":[{"key":"algorithm_id","value":"2"}]}],"edges":[{"source_id":"a","target_id":"b","kind":"DEPENDS_ON"},{"source_id":"b","target_id":"a","kind":"DEPENDS_ON"}]}"#;
    let mut gw = gateway_with(vec![Ok(cyclic.to_string())]);
    let out = gw
        .structure_input("a depends on b depends on a", ValidationTarget::Algorithm)
        .expect("a structurally valid decode succeeds whatever the domain outcome");
    assert_eq!(out.attempts, 1);
    assert_eq!(out.confidence, 0);
    assert_eq!(out.warnings.len(), 1);
    assert!(out.warnings[0].contains("Cycle detected"));
}

#[test]
fn entity_and_scenario_targets_run_end_to_end() {
    let entity_scene = r#"{"nodes":[{"id":"r1","label":"Room","kind":"ENTITY","properties":[{"key":"area","value":"12"}]},{"id":"r2","label":"Hall","kind":"ENTITY","properties":[]}],"edges":[{"source_id":"r1","target_id":"r2","kind":"ADJACENT"}]}"#;
    let mut gw = gateway_with(vec![Ok(entity_scene.to_string())]);
    let out = gw
        .structure_input("the room adjoins the hall", ValidationTarget::Entity)
        .expect("a valid entity scene succeeds");
    assert_eq!(out.attempts, 1);
    assert_eq!(out.confidence, 100);
    assert!(out.warnings.is_empty());

    let scenario = r#"{"nodes":[{"id":"s","label":"Spark","kind":"SCENARIO","properties":[]},{"id":"f","label":"Fire","kind":"CONCEPT","properties":[]}],"edges":[{"source_id":"s","target_id":"f","kind":"INFLUENCES"}]}"#;
    let mut gw2 = gateway_with(vec![Ok(scenario.to_string())]);
    let out2 = gw2
        .structure_input("a spark starts a fire", ValidationTarget::Scenario)
        .expect("a valid scenario succeeds");
    assert_eq!(out2.confidence, 100);
    assert!(out2.warnings.is_empty());
}
