//! Tests of the scripted client's replay behaviour.

use llm_gateway::client::{ClientError, LlmClient};
use llm_gateway::gateway::{GatewayError, LlmGateway};
use llm_gateway::mock::MockLlmClient;
use llm_gateway::schema_validator::ValidationTarget;

#[test]
fn script_replays_in_order_and_repeats_its_last_entry() {
    let mut m = MockLlmClient::new(vec![Ok("first".to_string()), Ok("second".to_string())]);
    assert_eq!(m.call_count(), 0);
    assert_eq!(m.complete("p1").expect("scripted ok"), "first");
    assert_eq!(m.complete("p2").expect("scripted ok"), "second");
    assert_eq!(m.complete("p3").expect("the last entry repeats"), "second");
    assert_eq!(m.call_count(), 3);
    assert_eq!(m.prompt_at(0), "p1");
    assert_eq!(m.prompt_at(2), "p3");
}

#[test]
fn stored_errors_are_replayed_as_themselves() {
    let mut m = MockLlmClient::new(vec![
        Err(ClientError::RateLimit { retry_after_ms: 1200 }),
        Err(ClientError::AuthError("bad key".to_string())),
    ]);
    match m.complete("p1") {
        Err(ClientError::RateLimit { retry_after_ms }) => assert_eq!(retry_after_ms, 1200),
        _ => panic!("the canned rate limit is replayed"),
    }
    match m.complete("p2") {
        Err(ClientError::AuthError(msg)) => assert_eq!(msg, "bad key"),
        _ => panic!("the canned auth error is replayed"),
    }
}

#[test]
fn empty_script_times_out() {
    let mut m = MockLlmClient::new(vec![]);
    assert!(matches!(m.complete("p"), Err(ClientError::Timeout)));
}

#[test]
fn replayed_error_text_reaches_the_terminal_error() {
    let client = MockLlmClient::new(vec![Err(ClientError::RateLimit { retry_after_ms: 1200 })]);
    let mut gw = LlmGateway::new(client).expect("the built-in schemas must compile");
    let err = gw
        .structure_input("anything", ValidationTarget::Concept)
        .expect_err("the provider only throttles");
    match err {
        GatewayError::ExhaustedRetries { attempts, last_error } => {
            assert_eq!(attempts, 3);
            assert_eq!(last_error, "API error: Rate limited, retry after 1200ms");
        }
        GatewayError::ApiError(_) => panic!("the loop never reports an api error"),
    }
}
