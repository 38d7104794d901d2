//! Domain validation: semantic checks against a decoded graph, producing
//! warnings and a confidence score, never rejecting.  Confidence is kept in
//! hundredths of the unit scale: 100 is full confidence, 0 none.

use vstd::prelude::*;
use vstd::set_lib::lemma_len_subset;

use crate::graph::{EdgeKind, EdgeModel, Graph, GraphModel, Node, NodeKind, NodeModel};
use crate::schema_validator::ValidationTarget;
use crate::text::str_eq;

verus! {

/// A causal edge: required for concept and scenario targets.
pub open spec fn is_causal(k: EdgeKind) -> bool {
    k == EdgeKind::Influences || k == EdgeKind::DependsOn
}

/// A spatial edge: required for entity targets.
pub open spec fn is_spatial(k: EdgeKind) -> bool {
    k == EdgeKind::Adjacent || k == EdgeKind::Contains
}

/// Whether an edge references the id as source or target.
pub open spec fn edge_touches(e: EdgeModel, id: Seq<char>) -> bool {
    e.source_id == id || e.target_id == id
}

/// Whether any edge of the graph references the id.  A node whose id is
/// referenced by no edge is an orphan.
pub open spec fn referenced(g: GraphModel, id: Seq<char>) -> bool {
    exists|i: int| 0 <= i < g.edges.len() && edge_touches(#[trigger] g.edges[i], id)
}

pub open spec fn has_causal_edge(g: GraphModel) -> bool {
    exists|i: int| 0 <= i < g.edges.len() && is_causal(#[trigger] g.edges[i].kind)
}

pub open spec fn has_spatial_edge(g: GraphModel) -> bool {
    exists|i: int| 0 <= i < g.edges.len() && is_spatial(#[trigger] g.edges[i].kind)
}

pub open spec fn has_scenario_node(g: GraphModel) -> bool {
    exists|i: int| 0 <= i < g.nodes.len() && #[trigger] g.nodes[i].kind == NodeKind::Scenario
}

/// Whether a node carries a property with key `algorithm_id`.
pub open spec fn node_has_algorithm_id(n: NodeModel) -> bool {
    exists|i: int| 0 <= i < n.properties.len() && (#[trigger] n.properties[i]).0
        == "algorithm_id"@
}

// ---------------------------------------------------------------------------
// Warning texts
// ---------------------------------------------------------------------------

pub open spec fn empty_graph_warning() -> Seq<char> {
    "Empty graph — no nodes extracted"@
}

pub open spec fn orphan_warning(label: Seq<char>) -> Seq<char> {
    "Orphan node: '"@ + label + "'"@
}

pub open spec fn no_causal_warning() -> Seq<char> {
    "No causal edges (INFLUENCES/DEPENDS_ON) found"@
}

pub open spec fn no_scenario_warning() -> Seq<char> {
    "No SCENARIO node found — missing perturbation entry point"@
}

pub open spec fn no_spatial_warning() -> Seq<char> {
    "No spatial edges (ADJACENT/CONTAINS) found"@
}

pub open spec fn cycle_warning() -> Seq<char> {
    "Cycle detected in algorithm pipeline — topological sort will fail"@
}

pub open spec fn missing_algorithm_id_warning(label: Seq<char>) -> Seq<char> {
    "Node '"@ + label + "' missing required 'algorithm_id' property"@
}

// ---------------------------------------------------------------------------
// Cycle detection, specified over id paths
// ---------------------------------------------------------------------------

/// Whether the graph has an edge from id `a` to id `b`.
pub open spec fn has_graph_edge(g: GraphModel, a: Seq<char>, b: Seq<char>) -> bool {
    exists|i: int| 0 <= i < g.edges.len() && (#[trigger] g.edges[i]).source_id == a
        && g.edges[i].target_id == b
}

/// A non-empty sequence of ids where each consecutive pair is an edge.
pub open spec fn is_id_path(g: GraphModel, p: Seq<Seq<char>>) -> bool {
    p.len() >= 1 && forall|i: int| 0 <= i < p.len() - 1 ==> has_graph_edge(
        g,
        #[trigger] p[i],
        p[i + 1],
    )
}

/// Whether id `b` can be reached from id `a` along edges (in zero or more
/// steps).
pub open spec fn reaches(g: GraphModel, a: Seq<char>, b: Seq<char>) -> bool {
    exists|p: Seq<Seq<char>>| #[trigger] is_id_path(g, p) && p.first() == a && p.last() == b
}

/// Whether an id is reachable from some node of the graph.  The walk starts
/// from every node id, so only ids reachable from a node are inspected.
pub open spec fn rooted(g: GraphModel, id: Seq<char>) -> bool {
    exists|i: int| 0 <= i < g.nodes.len() && reaches(g, (#[trigger] g.nodes[i]).id, id)
}

/// Whether the directed graph of the edges contains a cycle that a traversal
/// started from the graph's nodes encounters: some edge closes a loop (its
/// target reaches back to its source) and its source is reachable from a
/// node.
pub open spec fn cyclic(g: GraphModel) -> bool {
    exists|i: int| 0 <= i < g.edges.len() && rooted(g, (#[trigger] g.edges[i]).source_id)
        && reaches(g, g.edges[i].target_id, g.edges[i].source_id)
}

pub proof fn lemma_reaches_refl(g: GraphModel, a: Seq<char>)
    ensures
        reaches(g, a, a),
{
    let p = seq![a];
    assert(p.len() == 1);
    assert(is_id_path(g, p));
    assert(p.first() == a && p.last() == a);
}

pub proof fn lemma_reaches_step(g: GraphModel, a: Seq<char>, x: Seq<char>, y: Seq<char>)
    requires
        reaches(g, a, x),
        has_graph_edge(g, x, y),
    ensures
        reaches(g, a, y),
{
    let p = choose|p: Seq<Seq<char>>| #[trigger] is_id_path(g, p) && p.first() == a && p.last()
        == x;
    let p2 = p.push(y);
    assert forall|i: int| 0 <= i < p2.len() - 1 implies has_graph_edge(
        g,
        #[trigger] p2[i],
        p2[i + 1],
    ) by {
        if i < p.len() - 1 {
            assert(p2[i] == p[i] && p2[i + 1] == p[i + 1]);
        } else {
            assert(p2[i] == p.last() && p2[i + 1] == y);
        }
    }
    assert(is_id_path(g, p2));
    assert(p2.first() == a && p2.last() == y);
}

/// A path that starts inside a successor-closed id set ends inside it.
pub proof fn lemma_path_in_closed(g: GraphModel, s: Set<Seq<char>>, p: Seq<Seq<char>>)
    requires
        is_id_path(g, p),
        s.contains(p.first()),
        forall|x: Seq<char>, y: Seq<char>| s.contains(x) && #[trigger] has_graph_edge(g, x, y)
            ==> s.contains(y),
    ensures
        s.contains(p.last()),
    decreases p.len(),
{
    if p.len() == 1 {
        assert(p.last() == p.first());
    } else {
        let q = p.drop_last();
        assert(q.len() == p.len() - 1);
        assert forall|i: int| 0 <= i < q.len() - 1 implies has_graph_edge(
            g,
            #[trigger] q[i],
            q[i + 1],
        ) by {
            assert(q[i] == p[i] && q[i + 1] == p[i + 1]);
        }
        assert(is_id_path(g, q));
        assert(q.first() == p.first());
        lemma_path_in_closed(g, s, q);
        assert(q.last() == p[p.len() - 2]);
        assert(has_graph_edge(g, p[p.len() - 2], p[p.len() - 1]));
    }
}

/// Everything reachable from a member of a successor-closed id set is a
/// member.
pub proof fn lemma_closed_reach(g: GraphModel, s: Set<Seq<char>>, a: Seq<char>, b: Seq<char>)
    requires
        s.contains(a),
        forall|x: Seq<char>, y: Seq<char>| s.contains(x) && #[trigger] has_graph_edge(g, x, y)
            ==> s.contains(y),
        reaches(g, a, b),
    ensures
        s.contains(b),
{
    let p = choose|p: Seq<Seq<char>>| #[trigger] is_id_path(g, p) && p.first() == a && p.last()
        == b;
    lemma_path_in_closed(g, s, p);
}

// ---------------------------------------------------------------------------
// Warnings and confidence, specified
// ---------------------------------------------------------------------------

/// Orphan warnings for the first `k` nodes, in node order.
pub open spec fn orphan_warnings_upto(g: GraphModel, k: int) -> Seq<Seq<char>>
    decreases k,
{
    if k <= 0 {
        Seq::empty()
    } else {
        orphan_warnings_upto(g, k - 1) + (if referenced(g, g.nodes[k - 1].id) {
            Seq::empty()
        } else {
            seq![orphan_warning(g.nodes[k - 1].label)]
        })
    }
}

/// Orphan warnings for the whole graph, one per orphan node, in node order.
pub open spec fn orphan_warnings(g: GraphModel) -> Seq<Seq<char>> {
    orphan_warnings_upto(g, g.nodes.len() as int)
}

/// Missing `algorithm_id` warnings for the first `k` nodes, in node order.
pub open spec fn missing_id_warnings_upto(g: GraphModel, k: int) -> Seq<Seq<char>>
    decreases k,
{
    if k <= 0 {
        Seq::empty()
    } else {
        missing_id_warnings_upto(g, k - 1) + (if node_has_algorithm_id(g.nodes[k - 1]) {
            Seq::empty()
        } else {
            seq![missing_algorithm_id_warning(g.nodes[k - 1].label)]
        })
    }
}

/// Missing `algorithm_id` warnings for the whole graph.
pub open spec fn missing_id_warnings(g: GraphModel) -> Seq<Seq<char>> {
    missing_id_warnings_upto(g, g.nodes.len() as int)
}

/// The target-specific warnings, in the order they are emitted.
pub open spec fn target_warnings(g: GraphModel, t: ValidationTarget) -> Seq<Seq<char>> {
    match t {
        ValidationTarget::Concept => if has_causal_edge(g) {
            Seq::empty()
        } else {
            seq![no_causal_warning()]
        },
        ValidationTarget::Scenario => (if has_causal_edge(g) {
            Seq::empty()
        } else {
            seq![no_causal_warning()]
        }) + (if has_scenario_node(g) {
            Seq::empty()
        } else {
            seq![no_scenario_warning()]
        }),
        ValidationTarget::Entity => if has_spatial_edge(g) {
            Seq::empty()
        } else {
            seq![no_spatial_warning()]
        },
        ValidationTarget::Algorithm => (if cyclic(g) {
            seq![cycle_warning()]
        } else {
            Seq::empty()
        }) + missing_id_warnings(g),
    }
}

/// Every warning domain validation emits for a graph and a target, in order:
/// the empty-graph warning alone, or the orphan warnings followed by the
/// target-specific ones.
pub open spec fn domain_warnings(g: GraphModel, t: ValidationTarget) -> Seq<Seq<char>> {
    if g.nodes.len() == 0 {
        seq![empty_graph_warning()]
    } else {
        orphan_warnings(g) + target_warnings(g, t)
    }
}

/// The target-specific confidence penalty, in hundredths.
pub open spec fn target_penalty(g: GraphModel, t: ValidationTarget) -> int {
    match t {
        ValidationTarget::Concept => if has_causal_edge(g) {
            0
        } else {
            10
        },
        ValidationTarget::Scenario => (if has_causal_edge(g) {
            0int
        } else {
            10int
        }) + (if has_scenario_node(g) {
            0int
        } else {
            15int
        }),
        ValidationTarget::Entity => if has_spatial_edge(g) {
            0
        } else {
            10
        },
        ValidationTarget::Algorithm => 10 * missing_id_warnings(g).len() as int,
    }
}

/// Clamp a confidence value to the unit scale (in hundredths).
pub open spec fn clamp_confidence(x: int) -> int {
    if x < 0 {
        0
    } else if x > 100 {
        100
    } else {
        x
    }
}

/// The confidence domain validation assigns, in hundredths.  An empty graph
/// scores zero outright.  Otherwise confidence starts at 100 and loses 5 per
/// orphan node, except that a cycle under the algorithm target resets the
/// base to zero outright; the target-specific penalty is subtracted and the
/// result clamped to the unit scale.
pub open spec fn domain_confidence(g: GraphModel, t: ValidationTarget) -> int {
    if g.nodes.len() == 0 {
        0
    } else {
        let base = if t == ValidationTarget::Algorithm && cyclic(g) {
            0
        } else {
            100 - 5 * orphan_warnings(g).len() as int
        };
        clamp_confidence(base - target_penalty(g, t))
    }
}

// ---------------------------------------------------------------------------
// Executable queries
// ---------------------------------------------------------------------------

/// Whether any edge of the graph references the id.
fn referenced_exec(g: &Graph, id: &str) -> (r: bool)
    ensures
        r == referenced(g@, id@),
{
    let mut k: usize = 0;
    while k < g.edges.len()
        invariant
            k <= g.edges@.len(),
            forall|i: int| 0 <= i < k ==> !edge_touches(#[trigger] g@.edges[i], id@),
        decreases g.edges@.len() - k,
    {
        let e = &g.edges[k];
        if str_eq(e.source_id.as_str(), id) || str_eq(e.target_id.as_str(), id) {
            assert(edge_touches(g@.edges[k as int], id@));
            return true;
        }
        k += 1;
    }
    false
}

/// Whether the graph has a causal edge.
fn has_causal_edge_exec(g: &Graph) -> (r: bool)
    ensures
        r == has_causal_edge(g@),
{
    let mut k: usize = 0;
    while k < g.edges.len()
        invariant
            k <= g.edges@.len(),
            forall|i: int| 0 <= i < k ==> !is_causal((#[trigger] g@.edges[i]).kind),
        decreases g.edges@.len() - k,
    {
        let kind = g.edges[k].kind;
        if kind == EdgeKind::Influences || kind == EdgeKind::DependsOn {
            assert(is_causal(g@.edges[k as int].kind));
            return true;
        }
        k += 1;
    }
    false
}

/// Whether the graph has a spatial edge.
fn has_spatial_edge_exec(g: &Graph) -> (r: bool)
    ensures
        r == has_spatial_edge(g@),
{
    let mut k: usize = 0;
    while k < g.edges.len()
        invariant
            k <= g.edges@.len(),
            forall|i: int| 0 <= i < k ==> !is_spatial((#[trigger] g@.edges[i]).kind),
        decreases g.edges@.len() - k,
    {
        let kind = g.edges[k].kind;
        if kind == EdgeKind::Adjacent || kind == EdgeKind::Contains {
            assert(is_spatial(g@.edges[k as int].kind));
            return true;
        }
        k += 1;
    }
    false
}

/// Whether the graph has a node of the scenario kind.
fn has_scenario_node_exec(g: &Graph) -> (r: bool)
    ensures
        r == has_scenario_node(g@),
{
    let mut k: usize = 0;
    while k < g.nodes.len()
        invariant
            k <= g.nodes@.len(),
            forall|i: int| 0 <= i < k ==> (#[trigger] g@.nodes[i]).kind != NodeKind::Scenario,
        decreases g.nodes@.len() - k,
    {
        if g.nodes[k].kind == NodeKind::Scenario {
            assert(g@.nodes[k as int].kind == NodeKind::Scenario);
            return true;
        }
        k += 1;
    }
    false
}

/// Whether a node carries a property with key `algorithm_id`.
fn node_has_algorithm_id_exec(n: &Node) -> (r: bool)
    ensures
        r == node_has_algorithm_id(n@),
{
    let mut k: usize = 0;
    while k < n.properties.len()
        invariant
            k <= n.properties@.len(),
            forall|i: int| 0 <= i < k ==> (#[trigger] n@.properties[i]).0 != "algorithm_id"@,
        decreases n.properties@.len() - k,
    {
        if str_eq(n.properties[k].key.as_str(), "algorithm_id") {
            assert(n@.properties[k as int].0 == "algorithm_id"@);
            return true;
        }
        k += 1;
    }
    false
}

// ---------------------------------------------------------------------------
// Executable reachability
// ---------------------------------------------------------------------------

/// The views of a sequence of owned strings.
pub open spec fn views_of(v: Seq<String>) -> Seq<Seq<char>> {
    Seq::new(v.len(), |i: int| v[i]@)
}

/// The targets of all edges, as id views.
pub open spec fn edge_targets(g: GraphModel) -> Seq<Seq<char>> {
    Seq::new(g.edges.len(), |i: int| g.edges[i].target_id)
}

/// Whether the id is the view of some element of the vector.
pub open spec fn in_views(v: Seq<String>, x: Seq<char>) -> bool {
    exists|i: int| 0 <= i < v.len() && (#[trigger] v[i])@ == x
}

/// Whether `b` is reachable from some id among `starts`.
pub open spec fn reaches_any(g: GraphModel, starts: Seq<Seq<char>>, b: Seq<char>) -> bool {
    exists|i: int| 0 <= i < starts.len() && reaches(g, #[trigger] starts[i], b)
}

/// Whether the vector holds a string equal to `s`.
fn contains_str(v: &Vec<String>, s: &str) -> (r: bool)
    ensures
        r == in_views(v@, s@),
{
    let mut k: usize = 0;
    while k < v.len()
        invariant
            k <= v@.len(),
            forall|i: int| 0 <= i < k ==> (#[trigger] v@[i])@ != s@,
        decreases v@.len() - k,
    {
        if str_eq(v[k].as_str(), s) {
            return true;
        }
        k += 1;
    }
    false
}

/// A duplicate-free sequence drawn from `allowed` is no longer than
/// `allowed`.
proof fn lemma_no_dup_len_bound(vs: Seq<Seq<char>>, allowed: Seq<Seq<char>>)
    requires
        vs.no_duplicates(),
        forall|p: int| 0 <= p < vs.len() ==> allowed.contains(#[trigger] vs[p]),
    ensures
        vs.len() <= allowed.len(),
{
    broadcast use vstd::seq_lib::seq_to_set_is_finite;

    vs.unique_seq_to_set();
    allowed.lemma_cardinality_of_set();
    assert forall|x: Seq<char>| vs.to_set().contains(x) implies allowed.to_set().contains(
        x,
    ) by {
        let p = choose|p: int| 0 <= p < vs.len() && vs[p] == x;
        assert(allowed.contains(x));
    }
    assert(vs.to_set().subset_of(allowed.to_set()));
    lemma_len_subset(vs.to_set(), allowed.to_set());
}

/// Whether `goal` is reachable, along edges, from the view of some element
/// of `starts`: a breadth-first walk over the edge relation.
#[verifier::rlimit(100)]
fn reachable_from(g: &Graph, starts: &Vec<String>, goal: &str) -> (r: bool)
    ensures
        r == reaches_any(g@, views_of(starts@), goal@),
{
    let ghost allowed: Seq<Seq<char>> = views_of(starts@) + edge_targets(g@);
    let mut visited: Vec<String> = Vec::new();
    let mut k: usize = 0;
    while k < starts.len()
        invariant
            k <= starts@.len(),
            allowed == views_of(starts@) + edge_targets(g@),
            forall|p: int, q: int| 0 <= p < q < visited@.len() ==> (#[trigger] visited@[p])@ != (
            #[trigger] visited@[q])@,
            forall|p: int| 0 <= p < visited@.len() ==> allowed.contains((#[trigger] visited@[p])@),
            forall|p: int| 0 <= p < visited@.len() ==> reaches_any(
                g@,
                views_of(starts@),
                (#[trigger] visited@[p])@,
            ),
            forall|q: int| 0 <= q < k ==> in_views(visited@, (#[trigger] starts@[q])@),
            visited@.len() <= allowed.len(),
        decreases starts@.len() - k,
    {
        let s = starts[k].clone();
        assert(s@ == starts@[k as int]@);
        if !contains_str(&visited, s.as_str()) {
            proof {
                assert(allowed[k as int] == views_of(starts@)[k as int]);
                assert(allowed.contains(s@));
                lemma_reaches_refl(g@, s@);
                assert(views_of(starts@)[k as int] == s@);
                assert(reaches_any(g@, views_of(starts@), s@));
            }
            let ghost visited0 = visited@;
            visited.push(s);
            proof {
                assert forall|p: int, q: int| 0 <= p < q < visited@.len() implies (
                #[trigger] visited@[p])@ != (#[trigger] visited@[q])@ by {
                    if q < visited0.len() {
                    } else {
                        assert(visited@[q]@ == starts@[k as int]@);
                    }
                }
                assert forall|p: int| 0 <= p < visited@.len() implies views_of(visited@)[p]
                    == (#[trigger] visited@[p])@ by {}
                assert(views_of(visited@).no_duplicates());
                lemma_no_dup_len_bound(views_of(visited@), allowed);
                assert forall|q: int| 0 <= q < k implies in_views(
                    visited@,
                    (#[trigger] starts@[q])@,
                ) by {
                    let i = choose|i: int| 0 <= i < visited0.len() && (#[trigger] visited0[i])@
                        == starts@[q]@;
                    assert((visited@[i])@ == starts@[q]@);
                }
                assert((visited@[visited0.len() as int])@ == s@);
            }
        }
        k += 1;
    }
    let mut cursor: usize = 0;
    while cursor < visited.len()
        invariant
            cursor <= visited@.len(),
            allowed == views_of(starts@) + edge_targets(g@),
            visited@.len() <= allowed.len(),
            forall|p: int, q: int| 0 <= p < q < visited@.len() ==> (#[trigger] visited@[p])@ != (
            #[trigger] visited@[q])@,
            forall|p: int| 0 <= p < visited@.len() ==> allowed.contains((#[trigger] visited@[p])@),
            forall|p: int| 0 <= p < visited@.len() ==> reaches_any(
                g@,
                views_of(starts@),
                (#[trigger] visited@[p])@,
            ),
            forall|q: int| 0 <= q < starts@.len() ==> in_views(visited@, (#[trigger] starts@[q])@),
            forall|p: int, ei: int| 0 <= p < cursor && 0 <= ei < g@.edges.len() && (
            #[trigger] g@.edges[ei]).source_id == (#[trigger] visited@[p])@ ==> in_views(
                visited@,
                g@.edges[ei].target_id,
            ),
        decreases 2 * (starts@.len() + g.edges@.len()) - visited@.len() - cursor,
    {
        let u = visited[cursor].clone();
        let ghost u_view = u@;
        let ghost head_len = visited@.len();
        assert(visited@[cursor as int]@ == u_view);
        let mut e: usize = 0;
        while e < g.edges.len()
            invariant
                e <= g.edges@.len(),
                head_len <= visited@.len(),
                allowed == views_of(starts@) + edge_targets(g@),
                cursor < visited@.len(),
                visited@[cursor as int]@ == u_view,
                u@ == u_view,
                visited@.len() <= allowed.len(),
                forall|p: int, q: int| 0 <= p < q < visited@.len() ==> (#[trigger] visited@[p])@
                    != (#[trigger] visited@[q])@,
                forall|p: int| 0 <= p < visited@.len() ==> allowed.contains(
                    (#[trigger] visited@[p])@,
                ),
                forall|p: int| 0 <= p < visited@.len() ==> reaches_any(
                    g@,
                    views_of(starts@),
                    (#[trigger] visited@[p])@,
                ),
                forall|q: int| 0 <= q < starts@.len() ==> in_views(
                    visited@,
                    (#[trigger] starts@[q])@,
                ),
                forall|p: int, ei: int| 0 <= p < cursor && 0 <= ei < g@.edges.len() && (
                #[trigger] g@.edges[ei]).source_id == (#[trigger] visited@[p])@ ==> in_views(
                    visited@,
                    g@.edges[ei].target_id,
                ),
                forall|ei: int| 0 <= ei < e && (#[trigger] g@.edges[ei]).source_id == u_view
                    ==> in_views(visited@, g@.edges[ei].target_id),
            decreases g.edges@.len() - e,
        {
            let matched = str_eq(g.edges[e].source_id.as_str(), u.as_str());
            if matched {
                let t = g.edges[e].target_id.clone();
                assert(t@ == g@.edges[e as int].target_id);
                if !contains_str(&visited, t.as_str()) {
                    proof {
                        assert(allowed[starts@.len() + e] == edge_targets(g@)[e as int]);
                        assert(allowed.contains(t@));
                        assert(g@.edges[e as int].source_id == u_view);
                        assert(has_graph_edge(g@, u_view, t@));
                        assert(reaches_any(g@, views_of(starts@), u_view));
                        let qi = choose|i: int| 0 <= i < views_of(starts@).len() && reaches(
                            g@,
                            #[trigger] views_of(starts@)[i],
                            u_view,
                        );
                        lemma_reaches_step(g@, views_of(starts@)[qi], u_view, t@);
                        assert(reaches_any(g@, views_of(starts@), t@));
                    }
                    let ghost visited0 = visited@;
                    visited.push(t);
                    proof {
                        assert forall|p: int, q: int| 0 <= p < q < visited@.len() implies (
                        #[trigger] visited@[p])@ != (#[trigger] visited@[q])@ by {
                            if q < visited0.len() {
                            }
                        }
                        assert forall|p: int| 0 <= p < visited@.len() implies views_of(
                            visited@,
                        )[p] == (#[trigger] visited@[p])@ by {}
                        assert(views_of(visited@).no_duplicates());
                        lemma_no_dup_len_bound(views_of(visited@), allowed);
                        assert forall|q: int| 0 <= q < starts@.len() implies in_views(
                            visited@,
                            (#[trigger] starts@[q])@,
                        ) by {
                            let i = choose|i: int| 0 <= i < visited0.len() && (
                            #[trigger] visited0[i])@ == starts@[q]@;
                            assert((visited@[i])@ == starts@[q]@);
                        }
                        assert forall|p: int, ei: int| 0 <= p < cursor && 0 <= ei
                            < g@.edges.len() && (#[trigger] g@.edges[ei]).source_id == (
                        #[trigger] visited@[p])@ implies in_views(
                            visited@,
                            g@.edges[ei].target_id,
                        ) by {
                            assert(visited@[p] == visited0[p]);
                            let i = choose|i: int| 0 <= i < visited0.len() && (
                            #[trigger] visited0[i])@ == g@.edges[ei].target_id;
                            assert((visited@[i])@ == g@.edges[ei].target_id);
                        }
                        assert forall|ei: int| 0 <= ei < e && (
                        #[trigger] g@.edges[ei]).source_id == u_view implies in_views(
                            visited@,
                            g@.edges[ei].target_id,
                        ) by {
                            let i = choose|i: int| 0 <= i < visited0.len() && (
                            #[trigger] visited0[i])@ == g@.edges[ei].target_id;
                            assert((visited@[i])@ == g@.edges[ei].target_id);
                        }
                        assert((visited@[visited0.len() as int])@ == t@);
                        assert(in_views(visited@, t@));
                    }
                }
            } else {
                proof {
                    assert(g@.edges[e as int].source_id != u_view);
                }
            }
            e += 1;
        }
        cursor += 1;
    }
    let r = contains_str(&visited, goal);
    proof {
        if r {
            assert(reaches_any(g@, views_of(starts@), goal@));
        } else {
            let ghost vset = views_of(visited@).to_set();
            assert forall|x: Seq<char>, y: Seq<char>|
                vset.contains(x) && #[trigger] has_graph_edge(g@, x, y) implies vset.contains(
                y,
            ) by {
                let p = choose|p: int| 0 <= p < views_of(visited@).len() && views_of(visited@)[p]
                    == x;
                let ei = choose|ei: int| 0 <= ei < g@.edges.len() && (
                #[trigger] g@.edges[ei]).source_id == x && g@.edges[ei].target_id == y;
                assert(visited@[p]@ == x);
                assert(in_views(visited@, y));
                let py = choose|i: int| 0 <= i < visited@.len() && (#[trigger] visited@[i])@ == y;
                assert(views_of(visited@)[py] == y);
                assert(views_of(visited@).contains(y));
            }
            assert forall|i: int| 0 <= i < views_of(starts@).len() implies !reaches(
                g@,
                #[trigger] views_of(starts@)[i],
                goal@,
            ) by {
                if reaches(g@, views_of(starts@)[i], goal@) {
                    assert(in_views(visited@, starts@[i]@));
                    let ps = choose|p: int| 0 <= p < visited@.len() && (#[trigger] visited@[p])@
                        == starts@[i]@;
                    assert(views_of(visited@)[ps] == starts@[i]@);
                    assert(views_of(visited@).contains(starts@[i]@));
                    assert(vset.contains(views_of(starts@)[i]));
                    lemma_closed_reach(g@, vset, views_of(starts@)[i], goal@);
                    assert(views_of(visited@).contains(goal@));
                    let pg = choose|p: int| 0 <= p < views_of(visited@).len() && views_of(
                        visited@,
                    )[p] == goal@;
                    assert(visited@[pg]@ == goal@);
                    assert(in_views(visited@, goal@));
                    assert(false);
                }
            }
        }
    }
    r
}

/// The ids of all nodes, cloned.
fn collect_node_ids(g: &Graph) -> (r: Vec<String>)
    ensures
        r@.len() == g@.nodes.len(),
        forall|i: int| 0 <= i < r@.len() ==> (#[trigger] r@[i])@ == g@.nodes[i].id,
{
    let mut out: Vec<String> = Vec::new();
    let mut k: usize = 0;
    while k < g.nodes.len()
        invariant
            k <= g.nodes@.len(),
            out@.len() == k,
            forall|i: int| 0 <= i < k ==> (#[trigger] out@[i])@ == g@.nodes[i].id,
        decreases g.nodes@.len() - k,
    {
        out.push(g.nodes[k].id.clone());
        k += 1;
    }
    out
}

/// Depth-first-search-equivalent cycle detection: whether some edge closes a
/// loop that a walk started from the graph's nodes encounters.
pub fn has_cycle(g: &Graph) -> (r: bool)
    ensures
        r == cyclic(g@),
{
    let node_ids = collect_node_ids(g);
    let mut k: usize = 0;
    while k < g.edges.len()
        invariant
            k <= g.edges@.len(),
            node_ids@.len() == g@.nodes.len(),
            forall|i: int| 0 <= i < node_ids@.len() ==> (#[trigger] node_ids@[i])@
                == g@.nodes[i].id,
            forall|i: int| 0 <= i < k ==> !(rooted(g@, (#[trigger] g@.edges[i]).source_id)
                && reaches(g@, g@.edges[i].target_id, g@.edges[i].source_id)),
        decreases g.edges@.len() - k,
    {
        let ghost src = g@.edges[k as int].source_id;
        let ghost tgt = g@.edges[k as int].target_id;
        let src_rooted = reachable_from(g, &node_ids, g.edges[k].source_id.as_str());
        proof {
            assert forall|i: int| 0 <= i < g@.nodes.len() implies views_of(node_ids@)[i] == (
            #[trigger] g@.nodes[i]).id by {}
            if src_rooted {
                let i = choose|i: int| 0 <= i < views_of(node_ids@).len() && reaches(
                    g@,
                    #[trigger] views_of(node_ids@)[i],
                    src,
                );
                assert(reaches(g@, g@.nodes[i].id, src));
                assert(rooted(g@, src));
            } else {
                if rooted(g@, src) {
                    let i = choose|i: int| 0 <= i < g@.nodes.len() && reaches(
                        g@,
                        (#[trigger] g@.nodes[i]).id,
                        src,
                    );
                    assert(views_of(node_ids@)[i] == g@.nodes[i].id);
                    assert(reaches_any(g@, views_of(node_ids@), src));
                    assert(false);
                }
            }
        }
        if src_rooted {
            let mut single: Vec<String> = Vec::new();
            single.push(g.edges[k].target_id.clone());
            let closes = reachable_from(g, &single, g.edges[k].source_id.as_str());
            proof {
                assert(views_of(single@).len() == 1);
                assert(views_of(single@)[0] == tgt);
                if closes {
                    assert(reaches(g@, tgt, src));
                } else {
                    if reaches(g@, tgt, src) {
                        assert(reaches_any(g@, views_of(single@), src));
                        assert(false);
                    }
                }
            }
            if closes {
                assert(rooted(g@, (g@.edges[k as int]).source_id) && reaches(
                    g@,
                    g@.edges[k as int].target_id,
                    g@.edges[k as int].source_id,
                ));
                return true;
            }
        }
        k += 1;
    }
    false
}

// ---------------------------------------------------------------------------
// Domain validation, executable
// ---------------------------------------------------------------------------

/// The outcome of domain validation: warnings and a confidence score in
/// hundredths of the unit scale.
pub struct DomainResult {
    pub warnings: Vec<String>,
    pub confidence: u32,
}

/// Run every domain check against a decoded graph and the chosen target:
/// a pure function, it never rejects the graph.
pub fn domain_validate(g: &Graph, target: &ValidationTarget) -> (r: DomainResult)
    ensures
        r.warnings.deep_view() == domain_warnings(g@, *target),
        r.confidence as int == domain_confidence(g@, *target),
{
    let mut warnings: Vec<String> = Vec::new();
    if g.nodes.len() == 0 {
        warnings.push(String::from_str("Empty graph — no nodes extracted"));
        proof {
            assert(warnings.deep_view() =~= seq![empty_graph_warning()]);
        }
        return DomainResult { warnings, confidence: 0 };
    }
    let mut orphans: usize = 0;
    let mut k: usize = 0;
    while k < g.nodes.len()
        invariant
            k <= g.nodes@.len(),
            warnings.deep_view() == orphan_warnings_upto(g@, k as int),
            orphans == orphan_warnings_upto(g@, k as int).len(),
            orphans <= k,
        decreases g.nodes@.len() - k,
    {
        let node = &g.nodes[k];
        if !referenced_exec(g, node.id.as_str()) {
            let mut w = String::from_str("Orphan node: '");
            w.append(node.label.as_str());
            w.append("'");
            let ghost w0 = warnings.deep_view();
            warnings.push(w);
            orphans += 1;
            proof {
                assert(!referenced(g@, g@.nodes[k as int].id));
                assert(warnings.deep_view() =~= w0.push(orphan_warning(
                    g@.nodes[k as int].label,
                )));
                assert(orphan_warnings_upto(g@, k as int + 1) =~= orphan_warnings_upto(
                    g@,
                    k as int,
                ).push(orphan_warning(g@.nodes[k as int].label)));
            }
        } else {
            proof {
                assert(referenced(g@, g@.nodes[k as int].id));
                assert(orphan_warnings_upto(g@, k as int + 1) =~= orphan_warnings_upto(
                    g@,
                    k as int,
                ));
            }
        }
        k += 1;
    }
    proof {
        assert(warnings.deep_view() == orphan_warnings(g@));
    }
    let ghost orphan_part = warnings.deep_view();
    let mut penalty: u128 = 0;
    let mut cycle_reset: bool = false;
    match target {
        ValidationTarget::Concept => {
            if !has_causal_edge_exec(g) {
                let ghost w0 = warnings.deep_view();
                warnings.push(String::from_str("No causal edges (INFLUENCES/DEPENDS_ON) found"));
                penalty = 10;
                proof {
                    assert(warnings.deep_view() =~= w0.push(no_causal_warning()));
                    assert(warnings.deep_view() =~= orphan_part + seq![no_causal_warning()]);
                }
            } else {
                proof {
                    assert(warnings.deep_view() =~= orphan_part + Seq::<Seq<char>>::empty());
                }
            }
        },
        ValidationTarget::Scenario => {
            let ghost causal_part: Seq<Seq<char>>;
            if !has_causal_edge_exec(g) {
                let ghost w0 = warnings.deep_view();
                warnings.push(String::from_str("No causal edges (INFLUENCES/DEPENDS_ON) found"));
                penalty = 10;
                proof {
                    causal_part = seq![no_causal_warning()];
                    assert(warnings.deep_view() =~= w0.push(no_causal_warning()));
                }
            } else {
                proof {
                    causal_part = Seq::<Seq<char>>::empty();
                }
            }
            if !has_scenario_node_exec(g) {
                let ghost w1 = warnings.deep_view();
                warnings.push(
                    String::from_str(
                        "No SCENARIO node found — missing perturbation entry point",
                    ),
                );
                penalty = penalty + 15;
                proof {
                    assert(warnings.deep_view() =~= w1.push(no_scenario_warning()));
                    assert(warnings.deep_view() =~= orphan_part + (causal_part + seq![
                        no_scenario_warning(),
                    ]));
                }
            } else {
                proof {
                    assert(warnings.deep_view() =~= orphan_part + (causal_part
                        + Seq::<Seq<char>>::empty()));
                }
            }
        },
        ValidationTarget::Entity => {
            if !has_spatial_edge_exec(g) {
                let ghost w0 = warnings.deep_view();
                warnings.push(String::from_str("No spatial edges (ADJACENT/CONTAINS) found"));
                penalty = 10;
                proof {
                    assert(warnings.deep_view() =~= w0.push(no_spatial_warning()));
                    assert(warnings.deep_view() =~= orphan_part + seq![no_spatial_warning()]);
                }
            } else {
                proof {
                    assert(warnings.deep_view() =~= orphan_part + Seq::<Seq<char>>::empty());
                }
            }
        },
        ValidationTarget::Algorithm => {
            let ghost cycle_part: Seq<Seq<char>>;
            if has_cycle(g) {
                let ghost w0 = warnings.deep_view();
                warnings.push(
                    String::from_str(
                        "Cycle detected in algorithm pipeline — topological sort will fail",
                    ),
                );
                cycle_reset = true;
                proof {
                    cycle_part = seq![cycle_warning()];
                    assert(warnings.deep_view() =~= w0.push(cycle_warning()));
                }
            } else {
                proof {
                    cycle_part = Seq::<Seq<char>>::empty();
                }
            }
            let ghost pre = warnings.deep_view();
            proof {
                assert(pre =~= orphan_part + cycle_part);
            }
            let mut missing: usize = 0;
            let mut m: usize = 0;
            while m < g.nodes.len()
                invariant
                    m <= g.nodes@.len(),
                    warnings.deep_view() == pre + missing_id_warnings_upto(g@, m as int),
                    missing == missing_id_warnings_upto(g@, m as int).len(),
                    missing <= m,
                decreases g.nodes@.len() - m,
            {
                let node = &g.nodes[m];
                if !node_has_algorithm_id_exec(node) {
                    let mut w = String::from_str("Node '");
                    w.append(node.label.as_str());
                    w.append("' missing required 'algorithm_id' property");
                    let ghost w0 = warnings.deep_view();
                    warnings.push(w);
                    missing += 1;
                    proof {
                        assert(!node_has_algorithm_id(g@.nodes[m as int]));
                        assert(warnings.deep_view() =~= w0.push(missing_algorithm_id_warning(
                            g@.nodes[m as int].label,
                        )));
                        assert(missing_id_warnings_upto(g@, m as int + 1)
                            =~= missing_id_warnings_upto(g@, m as int).push(
                            missing_algorithm_id_warning(g@.nodes[m as int].label),
                        ));
                        assert(warnings.deep_view() =~= pre + missing_id_warnings_upto(
                            g@,
                            m as int + 1,
                        ));
                    }
                } else {
                    proof {
                        assert(node_has_algorithm_id(g@.nodes[m as int]));
                        assert(missing_id_warnings_upto(g@, m as int + 1)
                            =~= missing_id_warnings_upto(g@, m as int));
                    }
                }
                m += 1;
            }
            penalty = 10 * (missing as u128);
            proof {
                assert(warnings.deep_view() =~= orphan_part + (cycle_part + missing_id_warnings(
                    g@,
                )));
            }
        },
    }
    proof {
        assert(warnings.deep_view() == domain_warnings(g@, *target));
        assert(penalty == target_penalty(g@, *target));
    }
    let confidence: u32 = if cycle_reset {
        0
    } else {
        let total: u128 = 5 * (orphans as u128) + penalty;
        if total >= 100 {
            0
        } else {
            100 - (total as u32)
        }
    };
    DomainResult { warnings, confidence }
}

// ---------------------------------------------------------------------------
// Laws
// ---------------------------------------------------------------------------

/// Confidence is always within the unit scale, however many penalties
/// accumulate.
pub proof fn lemma_confidence_bounds(g: GraphModel, t: ValidationTarget)
    ensures
        0 <= domain_confidence(g, t) <= 100,
{
}

/// A graph with zero nodes scores exactly zero confidence and gets exactly
/// one warning, whatever the target.
pub proof fn lemma_empty_graph_outcome(g: GraphModel, t: ValidationTarget)
    requires
        g.nodes.len() == 0,
    ensures
        domain_confidence(g, t) == 0,
        domain_warnings(g, t) == seq![empty_graph_warning()],
{
}

/// A cycle under the algorithm target zeroes confidence outright, whatever
/// the other checks say.
pub proof fn lemma_cycle_zeroes_confidence(g: GraphModel)
    requires
        cyclic(g),
    ensures
        domain_confidence(g, ValidationTarget::Algorithm) == 0,
{
}

proof fn lemma_missing_upto_all_tagged(g: GraphModel, k: int)
    requires
        0 <= k <= g.nodes.len(),
        forall|i: int| 0 <= i < g.nodes.len() ==> node_has_algorithm_id(#[trigger] g.nodes[i]),
    ensures
        missing_id_warnings_upto(g, k) == Seq::<Seq<char>>::empty(),
    decreases k,
{
    if k > 0 {
        lemma_missing_upto_all_tagged(g, k - 1);
        assert(missing_id_warnings_upto(g, k) =~= Seq::<Seq<char>>::empty());
    }
}

/// An acyclic algorithm-target graph whose nodes all carry `algorithm_id`
/// gets neither a cycle warning nor a property warning.
pub proof fn lemma_clean_algorithm_graph(g: GraphModel)
    requires
        !cyclic(g),
        forall|i: int| 0 <= i < g.nodes.len() ==> node_has_algorithm_id(#[trigger] g.nodes[i]),
    ensures
        target_warnings(g, ValidationTarget::Algorithm) == Seq::<Seq<char>>::empty(),
        target_penalty(g, ValidationTarget::Algorithm) == 0,
{
    lemma_missing_upto_all_tagged(g, g.nodes.len() as int);
    assert(target_warnings(g, ValidationTarget::Algorithm) =~= Seq::<Seq<char>>::empty());
}

/// A scenario-target graph with a causal edge but no scenario-kind node is
/// reduced by exactly 15 hundredths from the score its other checks give,
/// and gets exactly the missing-scenario warning on top of the orphan ones.
pub proof fn lemma_missing_scenario_node_penalty(g: GraphModel)
    requires
        g.nodes.len() > 0,
        has_causal_edge(g),
        !has_scenario_node(g),
    ensures
        domain_confidence(g, ValidationTarget::Scenario) == clamp_confidence(
            100 - 5 * orphan_warnings(g).len() - 15,
        ),
        domain_warnings(g, ValidationTarget::Scenario) == orphan_warnings(g) + seq![
            no_scenario_warning(),
        ],
{
    assert(target_warnings(g, ValidationTarget::Scenario) =~= seq![no_scenario_warning()]);
}

} // verus!
