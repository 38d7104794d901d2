//! Tests of the graph wire-format decoder.

use llm_gateway::graph::{EdgeKind, NodeKind};
use llm_gateway::json::decode_graph;

#[test]
fn decodes_the_canonical_example() {
    let text = r#"{"nodes":[{"id":"a","label":"X","kind":"CONCEPT","properties":[]},{"id":"b","label":"Y","kind":"CONCEPT","properties":[]}],"edges":[{"source_id":"a","target_id":"b","kind":"INFLUENCES"}]}"#;
    let g = decode_graph(text).expect("the example decodes");
    assert_eq!(g.nodes.len(), 2);
    assert_eq!(g.nodes[0].id, "a");
    assert_eq!(g.nodes[0].label, "X");
    assert_eq!(g.nodes[0].kind, NodeKind::Concept);
    assert!(g.nodes[0].properties.is_empty());
    assert_eq!(g.edges.len(), 1);
    assert_eq!(g.edges[0].source_id, "a");
    assert_eq!(g.edges[0].target_id, "b");
    assert_eq!(g.edges[0].kind, EdgeKind::Influences);
}

#[test]
fn accepts_any_member_order_and_whitespace() {
    let text = "  {\n  \"edges\" : [ { \"kind\" : \"ADJACENT\", \"target_id\" : \"b\", \"source_id\" : \"a\" } ],\n  \"nodes\" : [ { \"properties\" : [ { \"value\" : \"v\", \"key\" : \"k\" } ], \"kind\" : \"ENTITY\", \"label\" : \"L\", \"id\" : \"a\" } ]\n}  ";
    let g = decode_graph(text).expect("member order is free");
    assert_eq!(g.nodes[0].kind, NodeKind::Entity);
    assert_eq!(g.nodes[0].properties[0].key, "k");
    assert_eq!(g.nodes[0].properties[0].value, "v");
    assert_eq!(g.edges[0].kind, EdgeKind::Adjacent);
}

#[test]
fn decodes_string_escapes() {
    let text = r#"{"nodes":[{"id":"a","label":"say \"hi\"\n\\","kind":"SCENARIO","properties":[]}],"edges":[]}"#;
    let g = decode_graph(text).expect("escapes decode");
    assert_eq!(g.nodes[0].label, "say \"hi\"\n\\");
    assert_eq!(g.nodes[0].kind, NodeKind::Scenario);
}

#[test]
fn decodes_empty_graph() {
    let g = decode_graph(r#"{"nodes":[],"edges":[]}"#).expect("empty arrays are fine");
    assert!(g.nodes.is_empty());
    assert!(g.edges.is_empty());
}

#[test]
fn rejects_malformed_inputs() {
    // not JSON at all
    assert!(decode_graph("nonsense").is_none());
    // missing members
    assert!(decode_graph(r#"{"nodes":[]}"#).is_none());
    assert!(decode_graph(r#"{"edges":[]}"#).is_none());
    // duplicate member
    assert!(decode_graph(r#"{"nodes":[],"nodes":[],"edges":[]}"#).is_none());
    // unknown member
    assert!(decode_graph(r#"{"nodes":[],"edges":[],"extra":[]}"#).is_none());
    // trailing content
    assert!(decode_graph(r#"{"nodes":[],"edges":[]} tail"#).is_none());
    // trailing comma
    assert!(
        decode_graph(
            r#"{"nodes":[{"id":"a","label":"X","kind":"CONCEPT","properties":[]},],"edges":[]}"#
        )
        .is_none()
    );
    // unknown kind name
    assert!(
        decode_graph(r#"{"nodes":[{"id":"a","label":"X","kind":"THING","properties":[]}],"edges":[]}"#)
            .is_none()
    );
    // missing node member
    assert!(
        decode_graph(r#"{"nodes":[{"id":"a","label":"X","kind":"CONCEPT"}],"edges":[]}"#).is_none()
    );
    // unicode escapes are not part of the format
    assert!(
        decode_graph(
            r#"{"nodes":[{"id":"a","label":"\u0041","kind":"CONCEPT","properties":[]}],"edges":[]}"#
        )
        .is_none()
    );
    // unterminated string
    assert!(decode_graph(r#"{"nodes":[{"id":"a"#).is_none());
}

#[test]
fn rejects_non_string_scalars() {
    assert!(
        decode_graph(r#"{"nodes":[{"id":7,"label":"X","kind":"CONCEPT","properties":[]}],"edges":[]}"#)
            .is_none()
    );
    assert!(decode_graph(r#"{"nodes":null,"edges":[]}"#).is_none());
}
