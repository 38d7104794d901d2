//! Tests of domain validation: orphan detection, target rules, cycle
//! detection and the confidence arithmetic.

use llm_gateway::domain::{domain_validate, has_cycle};
use llm_gateway::graph::{Edge, EdgeKind, Graph, Node, NodeKind, Property};
use llm_gateway::schema_validator::ValidationTarget;

fn node(id: &str, label: &str, kind: NodeKind) -> Node {
    Node { id: id.to_string(), label: label.to_string(), kind, properties: vec![] }
}

fn tagged_node(id: &str, label: &str) -> Node {
    Node {
        id: id.to_string(),
        label: label.to_string(),
        kind: NodeKind::AlgorithmStep,
        properties: vec![Property { key: "algorithm_id".to_string(), value: "x".to_string() }],
    }
}

fn edge(source: &str, target: &str, kind: EdgeKind) -> Edge {
    Edge { source_id: source.to_string(), target_id: target.to_string(), kind }
}

#[test]
fn empty_graph_scores_zero_with_one_warning() {
    let g = Graph { nodes: vec![], edges: vec![] };
    for target in [
        ValidationTarget::Concept,
        ValidationTarget::Entity,
        ValidationTarget::Scenario,
        ValidationTarget::Algorithm,
    ] {
        let r = domain_validate(&g, &target);
        assert_eq!(r.confidence, 0);
        assert_eq!(r.warnings.len(), 1);
        assert_eq!(r.warnings[0], "Empty graph — no nodes extracted");
    }
}

#[test]
fn connected_concept_graph_scores_full_confidence() {
    let g = Graph {
        nodes: vec![node("a", "X", NodeKind::Concept), node("b", "Y", NodeKind::Concept)],
        edges: vec![edge("a", "b", EdgeKind::Influences)],
    };
    let r = domain_validate(&g, &ValidationTarget::Concept);
    assert_eq!(r.confidence, 100);
    assert!(r.warnings.is_empty());
}

#[test]
fn orphan_nodes_cost_five_each() {
    let g = Graph {
        nodes: vec![
            node("a", "X", NodeKind::Concept),
            node("b", "Y", NodeKind::Concept),
            node("c", "Lonely", NodeKind::Concept),
        ],
        edges: vec![edge("a", "b", EdgeKind::Influences)],
    };
    let r = domain_validate(&g, &ValidationTarget::Concept);
    assert_eq!(r.confidence, 95);
    assert_eq!(r.warnings, vec!["Orphan node: 'Lonely'".to_string()]);
}

#[test]
fn missing_causal_edge_costs_ten() {
    let g = Graph {
        nodes: vec![node("a", "X", NodeKind::Concept), node("b", "Y", NodeKind::Concept)],
        edges: vec![edge("a", "b", EdgeKind::Relates)],
    };
    let r = domain_validate(&g, &ValidationTarget::Concept);
    assert_eq!(r.confidence, 90);
    assert_eq!(r.warnings, vec!["No causal edges (INFLUENCES/DEPENDS_ON) found".to_string()]);
}

#[test]
fn missing_spatial_edge_costs_ten() {
    let g = Graph {
        nodes: vec![node("a", "X", NodeKind::Entity), node("b", "Y", NodeKind::Entity)],
        edges: vec![edge("a", "b", EdgeKind::Influences)],
    };
    let r = domain_validate(&g, &ValidationTarget::Entity);
    assert_eq!(r.confidence, 90);
    assert_eq!(r.warnings, vec!["No spatial edges (ADJACENT/CONTAINS) found".to_string()]);
}

#[test]
fn scenario_without_scenario_node_loses_exactly_fifteen() {
    let g = Graph {
        nodes: vec![node("a", "X", NodeKind::Concept), node("b", "Y", NodeKind::Concept)],
        edges: vec![edge("a", "b", EdgeKind::DependsOn)],
    };
    let r = domain_validate(&g, &ValidationTarget::Scenario);
    assert_eq!(r.confidence, 85);
    assert_eq!(
        r.warnings,
        vec!["No SCENARIO node found — missing perturbation entry point".to_string()]
    );
    // The same graph with a scenario node keeps the baseline.
    let g2 = Graph {
        nodes: vec![node("a", "X", NodeKind::Scenario), node("b", "Y", NodeKind::Concept)],
        edges: vec![edge("a", "b", EdgeKind::DependsOn)],
    };
    let r2 = domain_validate(&g2, &ValidationTarget::Scenario);
    assert_eq!(r2.confidence, 100);
    assert!(r2.warnings.is_empty());
}

#[test]
fn cycle_resets_algorithm_confidence_to_zero() {
    let g = Graph {
        nodes: vec![tagged_node("a", "A"), tagged_node("b", "B")],
        edges: vec![edge("a", "b", EdgeKind::DependsOn), edge("b", "a", EdgeKind::DependsOn)],
    };
    assert!(has_cycle(&g));
    let r = domain_validate(&g, &ValidationTarget::Algorithm);
    assert_eq!(r.confidence, 0);
    assert_eq!(
        r.warnings,
        vec!["Cycle detected in algorithm pipeline — topological sort will fail".to_string()]
    );
}

#[test]
fn acyclic_tagged_algorithm_graph_has_no_cycle_or_property_warnings() {
    let g = Graph {
        nodes: vec![tagged_node("a", "A"), tagged_node("b", "B")],
        edges: vec![edge("a", "b", EdgeKind::DependsOn)],
    };
    assert!(!has_cycle(&g));
    let r = domain_validate(&g, &ValidationTarget::Algorithm);
    assert_eq!(r.confidence, 100);
    assert!(r.warnings.is_empty());
}

#[test]
fn missing_algorithm_id_costs_ten_per_node() {
    let g = Graph {
        nodes: vec![tagged_node("a", "A"), node("b", "B", NodeKind::AlgorithmStep)],
        edges: vec![edge("a", "b", EdgeKind::DependsOn)],
    };
    let r = domain_validate(&g, &ValidationTarget::Algorithm);
    assert_eq!(r.confidence, 90);
    assert_eq!(
        r.warnings,
        vec!["Node 'B' missing required 'algorithm_id' property".to_string()]
    );
}

#[test]
fn confidence_is_clamped_at_zero_under_many_penalties() {
    // Twenty-five orphan nodes cost 125 before clamping; the missing causal
    // edge costs 10 more.
    let mut nodes = Vec::new();
    for i in 0..25 {
        nodes.push(node(&format!("n{i}"), &format!("L{i}"), NodeKind::Concept));
    }
    let g = Graph { nodes, edges: vec![] };
    let r = domain_validate(&g, &ValidationTarget::Concept);
    assert_eq!(r.confidence, 0);
    assert_eq!(r.warnings.len(), 26);
}

#[test]
fn cycle_through_dangling_ids_is_found_when_rooted() {
    // A node reaches a loop made of ids that are not nodes.
    let g = Graph {
        nodes: vec![node("a", "A", NodeKind::Concept)],
        edges: vec![
            edge("a", "x", EdgeKind::Relates),
            edge("x", "y", EdgeKind::Relates),
            edge("y", "x", EdgeKind::Relates),
        ],
    };
    assert!(has_cycle(&g));
}

#[test]
fn unreachable_cycle_is_not_found() {
    // The loop lives entirely among dangling ids that no node reaches, so a
    // walk started from the nodes never sees it.
    let g = Graph {
        nodes: vec![node("a", "A", NodeKind::Concept)],
        edges: vec![edge("x", "y", EdgeKind::Relates), edge("y", "x", EdgeKind::Relates)],
    };
    assert!(!has_cycle(&g));
    let g2 = Graph {
        nodes: vec![node("a", "A", NodeKind::Concept)],
        edges: vec![edge("a", "a", EdgeKind::Relates)],
    };
    assert!(has_cycle(&g2));
}
