//! A verified decoder for the graph wire format.
//!
//! The format is the JSON object `{"nodes": [...], "edges": [...]}` with node
//! objects `{"id", "label", "kind", "properties"}`, property objects
//! `{"key", "value"}` and edge objects `{"source_id", "target_id", "kind"}`;
//! members may come in any order, all are required, none may repeat, and all
//! scalar values are strings.  String literals support the single-character
//! escapes of JSON; `\u` escapes and non-string scalars are not part of the
//! format and are rejected.  The grammar is stated once as a family of spec
//! functions and the executable decoder is proved to return exactly what the
//! grammar denotes.

use vstd::prelude::*;

use crate::graph::{
    edge_kind_of_name, node_kind_of_name, Edge, EdgeModel, Graph, GraphModel, Node, NodeModel,
    Property,
};
use crate::text::{chars_of, str_eq, string_from_chars};

verus! {

/// JSON insignificant whitespace.
pub open spec fn is_ws(c: char) -> bool {
    c == ' ' || c == '\n' || c == '\r' || c == '\t'
}

/// The first index at or after `i` holding a non-whitespace character (or the
/// end of the input).
pub open spec fn skip_ws(v: Seq<char>, i: int) -> int
    decreases v.len() - i,
{
    if i < 0 || i >= v.len() {
        i
    } else if is_ws(v[i]) {
        skip_ws(v, i + 1)
    } else {
        i
    }
}

pub proof fn lemma_skip_ws_bounds(v: Seq<char>, i: int)
    requires
        0 <= i <= v.len(),
    ensures
        i <= skip_ws(v, i) <= v.len(),
    decreases v.len() - i,
{
    if i < v.len() && is_ws(v[i]) {
        lemma_skip_ws_bounds(v, i + 1);
    }
}

/// The character denoted by a single-character escape, if it is one.
pub open spec fn unescape(c: char) -> Option<char> {
    if c == '"' {
        Some('"')
    } else if c == '\\' {
        Some('\\')
    } else if c == '/' {
        Some('/')
    } else if c == 'n' {
        Some('\n')
    } else if c == 't' {
        Some('\t')
    } else if c == 'r' {
        Some('\r')
    } else if c == 'b' {
        Some('\u{0008}')
    } else if c == 'f' {
        Some('\u{000c}')
    } else {
        None
    }
}

/// The body of a string literal starting at `i` (just after the opening
/// quote): the denoted characters and the index just after the closing quote.
pub open spec fn str_body(v: Seq<char>, i: int, acc: Seq<char>) -> Option<(Seq<char>, int)>
    decreases v.len() - i,
{
    if i < 0 || i >= v.len() {
        None
    } else if v[i] == '"' {
        Some((acc, i + 1))
    } else if v[i] == '\\' {
        if i + 1 >= v.len() {
            None
        } else {
            match unescape(v[i + 1]) {
                Some(c) => str_body(v, i + 2, acc.push(c)),
                None => None,
            }
        }
    } else if (v[i] as u32) < 32 {
        None
    } else {
        str_body(v, i + 1, acc.push(v[i]))
    }
}

/// A whole string literal starting at `i` (at the opening quote).
pub open spec fn qstring(v: Seq<char>, i: int) -> Option<(Seq<char>, int)> {
    if 0 <= i < v.len() && v[i] == '"' {
        str_body(v, i + 1, Seq::empty())
    } else {
        None
    }
}

/// Skip whitespace from `start`, never past the end of the input.
fn ws_to(v: &Vec<char>, start: usize) -> (j: usize)
    requires
        start <= v@.len(),
    ensures
        j == skip_ws(v@, start as int),
        start <= j <= v@.len(),
{
    proof {
        lemma_skip_ws_bounds(v@, start as int);
    }
    let mut i: usize = start;
    while i < v.len() && (v[i] == ' ' || v[i] == '\n' || v[i] == '\r' || v[i] == '\t')
        invariant
            start <= i <= v@.len(),
            skip_ws(v@, start as int) == skip_ws(v@, i as int),
        decreases v@.len() - i,
    {
        i = i + 1;
    }
    i
}

/// Parse the body of a string literal, mirroring `str_body`.
fn parse_str_body(v: &Vec<char>, start: usize) -> (r: Option<(Vec<char>, usize)>)
    requires
        start <= v@.len(),
    ensures
        match r {
            Some((s, j)) => {
                &&& str_body(v@, start as int, Seq::empty()) == Some((s@, j as int))
                &&& start <= j <= v@.len()
            },
            None => str_body(v@, start as int, Seq::empty()) is None,
        },
{
    let mut i: usize = start;
    let mut acc: Vec<char> = Vec::new();
    loop
        invariant
            start <= i <= v@.len(),
            str_body(v@, start as int, Seq::empty()) == str_body(v@, i as int, acc@),
        decreases v@.len() - i,
    {
        if i >= v.len() {
            return None;
        }
        let c = v[i];
        if c == '"' {
            return Some((acc, i + 1));
        } else if c == '\\' {
            if i + 1 >= v.len() {
                return None;
            }
            let e = v[i + 1];
            let u: char = if e == '"' {
                '"'
            } else if e == '\\' {
                '\\'
            } else if e == '/' {
                '/'
            } else if e == 'n' {
                '\n'
            } else if e == 't' {
                '\t'
            } else if e == 'r' {
                '\r'
            } else if e == 'b' {
                '\u{0008}'
            } else if e == 'f' {
                '\u{000c}'
            } else {
                return None;
            };
            acc.push(u);
            i = i + 2;
        } else if (c as u32) < 32 {
            return None;
        } else {
            acc.push(c);
            i = i + 1;
        }
    }
}

/// Parse a whole string literal, mirroring `qstring`.
fn parse_qstring(v: &Vec<char>, start: usize) -> (r: Option<(String, usize)>)
    requires
        start <= v@.len(),
    ensures
        match r {
            Some((s, j)) => {
                &&& qstring(v@, start as int) == Some((s@, j as int))
                &&& start <= j <= v@.len()
            },
            None => qstring(v@, start as int) is None,
        },
{
    if start >= v.len() || v[start] != '"' {
        return None;
    }
    match parse_str_body(v, start + 1) {
        Some((chars, j)) => Some((string_from_chars(&chars), j)),
        None => None,
    }
}

/// The view of an optional owned string.
pub open spec fn str_opt(o: Option<String>) -> Option<Seq<char>> {
    match o {
        Some(s) => Some(s@),
        None => None,
    }
}

/// The view of a property sequence.
pub open spec fn props_view(ps: Seq<Property>) -> Seq<(Seq<char>, Seq<char>)> {
    Seq::new(ps.len(), |i: int| ps[i]@)
}

/// The view of an optional property list.
pub open spec fn props_opt(o: Option<Vec<Property>>) -> Option<Seq<(Seq<char>, Seq<char>)>> {
    match o {
        Some(ps) => Some(props_view(ps@)),
        None => None,
    }
}

/// The members of a property object, starting just after `{` or a comma.
/// `key` and `value` hold the members seen so far; each may appear once and
/// both must be present at the closing brace.
pub open spec fn prop_members(
    v: Seq<char>,
    i: int,
    key: Option<Seq<char>>,
    value: Option<Seq<char>>,
) -> Option<((Seq<char>, Seq<char>), int)>
    decreases v.len() - i,
{
    let j = skip_ws(v, i);
    match qstring(v, j) {
        None => None,
        Some((k, j2)) => {
            let j3 = skip_ws(v, j2);
            if j3 >= v.len() || v[j3] != ':' {
                None
            } else {
                let j4 = skip_ws(v, j3 + 1);
                match qstring(v, j4) {
                    None => None,
                    Some((s, j5)) => {
                        let upd = if k == "key"@ {
                            if key is Some {
                                None
                            } else {
                                Some((Some(s), value))
                            }
                        } else if k == "value"@ {
                            if value is Some {
                                None
                            } else {
                                Some((key, Some(s)))
                            }
                        } else {
                            None
                        };
                        match upd {
                            None => None,
                            Some((key2, value2)) => {
                                let j6 = skip_ws(v, j5);
                                if j6 >= v.len() {
                                    None
                                } else if v[j6] == ',' {
                                    if j6 < i {
                                        None
                                    } else {
                                        prop_members(v, j6 + 1, key2, value2)
                                    }
                                } else if v[j6] == '}' {
                                    match (key2, value2) {
                                        (Some(kv), Some(vv)) => Some(((kv, vv), j6 + 1)),
                                        _ => None,
                                    }
                                } else {
                                    None
                                }
                            },
                        }
                    },
                }
            }
        },
    }
}

/// A whole property object starting at `i` (at the opening brace).
pub open spec fn prop_object(v: Seq<char>, i: int) -> Option<((Seq<char>, Seq<char>), int)> {
    if 0 <= i < v.len() && v[i] == '{' {
        prop_members(v, i + 1, None, None)
    } else {
        None
    }
}

/// The items of a property array, starting just after `[` or a comma; `acc`
/// holds the items parsed so far.
pub open spec fn props_items(v: Seq<char>, i: int, acc: Seq<(Seq<char>, Seq<char>)>) -> Option<
    (Seq<(Seq<char>, Seq<char>)>, int),
>
    decreases v.len() - i,
{
    let j = skip_ws(v, i);
    if j >= v.len() {
        None
    } else if acc.len() == 0 && v[j] == ']' {
        Some((acc, j + 1))
    } else {
        match prop_object(v, j) {
            None => None,
            Some((p, j2)) => {
                let j3 = skip_ws(v, j2);
                if j3 >= v.len() {
                    None
                } else if v[j3] == ',' {
                    if j3 < i {
                        None
                    } else {
                        props_items(v, j3 + 1, acc.push(p))
                    }
                } else if v[j3] == ']' {
                    Some((acc.push(p), j3 + 1))
                } else {
                    None
                }
            },
        }
    }
}

/// One member of a node object: the value for `key` parsed at `j4`, merged
/// into the accumulated members.
pub open spec fn node_member_value(
    v: Seq<char>,
    j4: int,
    k: Seq<char>,
    id: Option<Seq<char>>,
    label: Option<Seq<char>>,
    kind: Option<crate::graph::NodeKind>,
    props: Option<Seq<(Seq<char>, Seq<char>)>>,
) -> Option<
    (
        (
            Option<Seq<char>>,
            Option<Seq<char>>,
            Option<crate::graph::NodeKind>,
            Option<Seq<(Seq<char>, Seq<char>)>>,
        ),
        int,
    ),
> {
    if k == "id"@ {
        match qstring(v, j4) {
            Some((s, j5)) => if id is Some {
                None
            } else {
                Some(((Some(s), label, kind, props), j5))
            },
            None => None,
        }
    } else if k == "label"@ {
        match qstring(v, j4) {
            Some((s, j5)) => if label is Some {
                None
            } else {
                Some(((id, Some(s), kind, props), j5))
            },
            None => None,
        }
    } else if k == "kind"@ {
        match qstring(v, j4) {
            Some((s, j5)) => match node_kind_of_name(s) {
                Some(kk) => if kind is Some {
                    None
                } else {
                    Some(((id, label, Some(kk), props), j5))
                },
                None => None,
            },
            None => None,
        }
    } else if k == "properties"@ {
        if j4 >= v.len() || v[j4] != '[' {
            None
        } else {
            match props_items(v, j4 + 1, Seq::empty()) {
                Some((ps, j5)) => if props is Some {
                    None
                } else {
                    Some(((id, label, kind, Some(ps)), j5))
                },
                None => None,
            }
        }
    } else {
        None
    }
}

/// The members of a node object, starting just after `{` or a comma.
pub open spec fn node_members(
    v: Seq<char>,
    i: int,
    id: Option<Seq<char>>,
    label: Option<Seq<char>>,
    kind: Option<crate::graph::NodeKind>,
    props: Option<Seq<(Seq<char>, Seq<char>)>>,
) -> Option<(NodeModel, int)>
    decreases v.len() - i,
{
    let j = skip_ws(v, i);
    match qstring(v, j) {
        None => None,
        Some((k, j2)) => {
            let j3 = skip_ws(v, j2);
            if j3 >= v.len() || v[j3] != ':' {
                None
            } else {
                let j4 = skip_ws(v, j3 + 1);
                match node_member_value(v, j4, k, id, label, kind, props) {
                    None => None,
                    Some((acc4, j5)) => {
                        let j6 = skip_ws(v, j5);
                        if j6 >= v.len() {
                            None
                        } else if v[j6] == ',' {
                            if j6 < i {
                                None
                            } else {
                                node_members(v, j6 + 1, acc4.0, acc4.1, acc4.2, acc4.3)
                            }
                        } else if v[j6] == '}' {
                            match (acc4.0, acc4.1, acc4.2, acc4.3) {
                                (Some(idv), Some(lv), Some(kv), Some(pv)) => Some(
                                    (NodeModel { id: idv, label: lv, kind: kv, properties: pv }, j6 + 1),
                                ),
                                _ => None,
                            }
                        } else {
                            None
                        }
                    },
                }
            }
        },
    }
}

/// A whole node object starting at `i` (at the opening brace).
pub open spec fn node_object(v: Seq<char>, i: int) -> Option<(NodeModel, int)> {
    if 0 <= i < v.len() && v[i] == '{' {
        node_members(v, i + 1, None, None, None, None)
    } else {
        None
    }
}

/// The items of a node array, starting just after `[` or a comma.
pub open spec fn nodes_items(v: Seq<char>, i: int, acc: Seq<NodeModel>) -> Option<
    (Seq<NodeModel>, int),
>
    decreases v.len() - i,
{
    let j = skip_ws(v, i);
    if j >= v.len() {
        None
    } else if acc.len() == 0 && v[j] == ']' {
        Some((acc, j + 1))
    } else {
        match node_object(v, j) {
            None => None,
            Some((n, j2)) => {
                let j3 = skip_ws(v, j2);
                if j3 >= v.len() {
                    None
                } else if v[j3] == ',' {
                    if j3 < i {
                        None
                    } else {
                        nodes_items(v, j3 + 1, acc.push(n))
                    }
                } else if v[j3] == ']' {
                    Some((acc.push(n), j3 + 1))
                } else {
                    None
                }
            },
        }
    }
}

/// One member of an edge object: the value for `key` parsed at `j4`, merged
/// into the accumulated members.
pub open spec fn edge_member_value(
    v: Seq<char>,
    j4: int,
    k: Seq<char>,
    source: Option<Seq<char>>,
    target: Option<Seq<char>>,
    kind: Option<crate::graph::EdgeKind>,
) -> Option<
    ((Option<Seq<char>>, Option<Seq<char>>, Option<crate::graph::EdgeKind>), int),
> {
    if k == "source_id"@ {
        match qstring(v, j4) {
            Some((s, j5)) => if source is Some {
                None
            } else {
                Some(((Some(s), target, kind), j5))
            },
            None => None,
        }
    } else if k == "target_id"@ {
        match qstring(v, j4) {
            Some((s, j5)) => if target is Some {
                None
            } else {
                Some(((source, Some(s), kind), j5))
            },
            None => None,
        }
    } else if k == "kind"@ {
        match qstring(v, j4) {
            Some((s, j5)) => match edge_kind_of_name(s) {
                Some(kk) => if kind is Some {
                    None
                } else {
                    Some(((source, target, Some(kk)), j5))
                },
                None => None,
            },
            None => None,
        }
    } else {
        None
    }
}

/// The members of an edge object, starting just after `{` or a comma.
pub open spec fn edge_members(
    v: Seq<char>,
    i: int,
    source: Option<Seq<char>>,
    target: Option<Seq<char>>,
    kind: Option<crate::graph::EdgeKind>,
) -> Option<(EdgeModel, int)>
    decreases v.len() - i,
{
    let j = skip_ws(v, i);
    match qstring(v, j) {
        None => None,
        Some((k, j2)) => {
            let j3 = skip_ws(v, j2);
            if j3 >= v.len() || v[j3] != ':' {
                None
            } else {
                let j4 = skip_ws(v, j3 + 1);
                match edge_member_value(v, j4, k, source, target, kind) {
                    None => None,
                    Some((acc3, j5)) => {
                        let j6 = skip_ws(v, j5);
                        if j6 >= v.len() {
                            None
                        } else if v[j6] == ',' {
                            if j6 < i {
                                None
                            } else {
                                edge_members(v, j6 + 1, acc3.0, acc3.1, acc3.2)
                            }
                        } else if v[j6] == '}' {
                            match (acc3.0, acc3.1, acc3.2) {
                                (Some(sv), Some(tv), Some(kv)) => Some(
                                    (EdgeModel { source_id: sv, target_id: tv, kind: kv }, j6 + 1),
                                ),
                                _ => None,
                            }
                        } else {
                            None
                        }
                    },
                }
            }
        },
    }
}

/// A whole edge object starting at `i` (at the opening brace).
pub open spec fn edge_object(v: Seq<char>, i: int) -> Option<(EdgeModel, int)> {
    if 0 <= i < v.len() && v[i] == '{' {
        edge_members(v, i + 1, None, None, None)
    } else {
        None
    }
}

/// The items of an edge array, starting just after `[` or a comma.
pub open spec fn edges_items(v: Seq<char>, i: int, acc: Seq<EdgeModel>) -> Option<
    (Seq<EdgeModel>, int),
>
    decreases v.len() - i,
{
    let j = skip_ws(v, i);
    if j >= v.len() {
        None
    } else if acc.len() == 0 && v[j] == ']' {
        Some((acc, j + 1))
    } else {
        match edge_object(v, j) {
            None => None,
            Some((e, j2)) => {
                let j3 = skip_ws(v, j2);
                if j3 >= v.len() {
                    None
                } else if v[j3] == ',' {
                    if j3 < i {
                        None
                    } else {
                        edges_items(v, j3 + 1, acc.push(e))
                    }
                } else if v[j3] == ']' {
                    Some((acc.push(e), j3 + 1))
                } else {
                    None
                }
            },
        }
    }
}

/// The members of the top-level graph object, starting just after `{` or a
/// comma.
pub open spec fn graph_members(
    v: Seq<char>,
    i: int,
    nodes: Option<Seq<NodeModel>>,
    edges: Option<Seq<EdgeModel>>,
) -> Option<(GraphModel, int)>
    decreases v.len() - i,
{
    let j = skip_ws(v, i);
    match qstring(v, j) {
        None => None,
        Some((k, j2)) => {
            let j3 = skip_ws(v, j2);
            if j3 >= v.len() || v[j3] != ':' {
                None
            } else {
                let j4 = skip_ws(v, j3 + 1);
                let stepped = if k == "nodes"@ {
                    if j4 >= v.len() || v[j4] != '[' {
                        None
                    } else {
                        match nodes_items(v, j4 + 1, Seq::empty()) {
                            Some((ns, j5)) => if nodes is Some {
                                None
                            } else {
                                Some(((Some(ns), edges), j5))
                            },
                            None => None,
                        }
                    }
                } else if k == "edges"@ {
                    if j4 >= v.len() || v[j4] != '[' {
                        None
                    } else {
                        match edges_items(v, j4 + 1, Seq::empty()) {
                            Some((es, j5)) => if edges is Some {
                                None
                            } else {
                                Some(((nodes, Some(es)), j5))
                            },
                            None => None,
                        }
                    }
                } else {
                    None
                };
                match stepped {
                    None => None,
                    Some((acc2, j5)) => {
                        let j6 = skip_ws(v, j5);
                        if j6 >= v.len() {
                            None
                        } else if v[j6] == ',' {
                            if j6 < i {
                                None
                            } else {
                                graph_members(v, j6 + 1, acc2.0, acc2.1)
                            }
                        } else if v[j6] == '}' {
                            match (acc2.0, acc2.1) {
                                (Some(ns), Some(es)) => Some(
                                    (GraphModel { nodes: ns, edges: es }, j6 + 1),
                                ),
                                _ => None,
                            }
                        } else {
                            None
                        }
                    },
                }
            }
        },
    }
}

/// The view of an optional node list.
pub open spec fn nodes_view(ns: Seq<Node>) -> Seq<NodeModel> {
    Seq::new(ns.len(), |i: int| ns[i]@)
}

/// The view of an optional edge list.
pub open spec fn edges_view(es: Seq<Edge>) -> Seq<EdgeModel> {
    Seq::new(es.len(), |i: int| es[i]@)
}

pub open spec fn nodes_opt(o: Option<Vec<Node>>) -> Option<Seq<NodeModel>> {
    match o {
        Some(ns) => Some(nodes_view(ns@)),
        None => None,
    }
}

pub open spec fn edges_opt(o: Option<Vec<Edge>>) -> Option<Seq<EdgeModel>> {
    match o {
        Some(es) => Some(edges_view(es@)),
        None => None,
    }
}

/// What a whole input text denotes in the graph wire format, if anything:
/// optional whitespace, one graph object, optional whitespace, end of input.
pub open spec fn decoded(s: Seq<char>) -> Option<GraphModel> {
    let j = skip_ws(s, 0);
    if j >= s.len() || s[j] != '{' {
        None
    } else {
        match graph_members(s, j + 1, None, None) {
            Some((g, j2)) => if skip_ws(s, j2) == s.len() {
                Some(g)
            } else {
                None
            },
            None => None,
        }
    }
}

/// Parse a property object, mirroring `prop_object`.
fn parse_property(v: &Vec<char>, start: usize) -> (r: Option<(Property, usize)>)
    requires
        start <= v@.len(),
    ensures
        match r {
            Some((p, j)) => {
                &&& prop_object(v@, start as int) == Some((p@, j as int))
                &&& start <= j <= v@.len()
            },
            None => prop_object(v@, start as int) is None,
        },
{
    if start >= v.len() || v[start] != '{' {
        return None;
    }
    let mut i: usize = start + 1;
    let mut key_acc: Option<String> = None;
    let mut val_acc: Option<String> = None;
    loop
        invariant
            start + 1 <= i <= v@.len(),
            start < v@.len() && v@[start as int] == '{',
            prop_members(v@, start as int + 1, None, None) == prop_members(
                v@,
                i as int,
                str_opt(key_acc),
                str_opt(val_acc),
            ),
        decreases v@.len() - i,
    {
        let ghost key0 = str_opt(key_acc);
        let ghost val0 = str_opt(val_acc);
        let j = ws_to(v, i);
        let (k, j2) = match parse_qstring(v, j) {
            Some(x) => x,
            None => { return None; },
        };
        let j3 = ws_to(v, j2);
        if j3 >= v.len() || v[j3] != ':' {
            return None;
        }
        let j4 = ws_to(v, j3 + 1);
        let (s, j5) = match parse_qstring(v, j4) {
            Some(x) => x,
            None => { return None; },
        };
        if str_eq(k.as_str(), "key") {
            if key_acc.is_some() {
                return None;
            }
            key_acc = Some(s);
        } else if str_eq(k.as_str(), "value") {
            if val_acc.is_some() {
                return None;
            }
            val_acc = Some(s);
        } else {
            return None;
        }
        let j6 = ws_to(v, j5);
        if j6 >= v.len() {
            return None;
        }
        if v[j6] == ',' {
            if j6 < i {
                return None;
            }
            i = j6 + 1;
        } else if v[j6] == '}' {
            if key_acc.is_some() && val_acc.is_some() {
                let p = Property { key: key_acc.unwrap(), value: val_acc.unwrap() };
                proof {
                    assert(prop_members(v@, i as int, key0, val0) == Some(
                        ((p.key@, p.value@), j6 as int + 1),
                    ));
                }
                return Some((p, j6 + 1));
            }
            return None;
        } else {
            return None;
        }
    }
}

/// Parse a property array (positioned just after `[`), mirroring
/// `props_items`.
fn parse_props_list(v: &Vec<char>, start: usize) -> (r: Option<(Vec<Property>, usize)>)
    requires
        start <= v@.len(),
    ensures
        match r {
            Some((ps, j)) => {
                &&& props_items(v@, start as int, Seq::empty()) == Some(
                    (props_view(ps@), j as int),
                )
                &&& start <= j <= v@.len()
            },
            None => props_items(v@, start as int, Seq::empty()) is None,
        },
{
    let mut i: usize = start;
    let mut acc: Vec<Property> = Vec::new();
    proof {
        assert(props_view(acc@) =~= Seq::<(Seq<char>, Seq<char>)>::empty());
    }
    loop
        invariant
            start <= i <= v@.len(),
            props_items(v@, start as int, Seq::empty()) == props_items(
                v@,
                i as int,
                props_view(acc@),
            ),
        decreases v@.len() - i,
    {
        let j = ws_to(v, i);
        if j >= v.len() {
            return None;
        }
        if acc.len() == 0 && v[j] == ']' {
            return Some((acc, j + 1));
        }
        let (p, j2) = match parse_property(v, j) {
            Some(x) => x,
            None => { return None; },
        };
        let j3 = ws_to(v, j2);
        if j3 >= v.len() {
            return None;
        }
        if v[j3] == ',' {
            if j3 < i {
                return None;
            }
            let ghost acc0 = acc@;
            acc.push(p);
            proof {
                assert(props_view(acc@) =~= props_view(acc0).push(p@));
            }
            i = j3 + 1;
        } else if v[j3] == ']' {
            let ghost acc0 = acc@;
            acc.push(p);
            proof {
                assert(props_view(acc@) =~= props_view(acc0).push(p@));
            }
            return Some((acc, j3 + 1));
        } else {
            return None;
        }
    }
}

/// Parse a node object, mirroring `node_object`.
fn parse_node(v: &Vec<char>, start: usize) -> (r: Option<(Node, usize)>)
    requires
        start <= v@.len(),
    ensures
        match r {
            Some((n, j)) => {
                &&& node_object(v@, start as int) == Some((n@, j as int))
                &&& start <= j <= v@.len()
            },
            None => node_object(v@, start as int) is None,
        },
{
    if start >= v.len() || v[start] != '{' {
        return None;
    }
    let mut i: usize = start + 1;
    let mut id_acc: Option<String> = None;
    let mut label_acc: Option<String> = None;
    let mut kind_acc: Option<crate::graph::NodeKind> = None;
    let mut props_acc: Option<Vec<Property>> = None;
    loop
        invariant
            start + 1 <= i <= v@.len(),
            start < v@.len() && v@[start as int] == '{',
            node_members(v@, start as int + 1, None, None, None, None) == node_members(
                v@,
                i as int,
                str_opt(id_acc),
                str_opt(label_acc),
                kind_acc,
                props_opt(props_acc),
            ),
        decreases v@.len() - i,
    {
        let j = ws_to(v, i);
        let (k, j2) = match parse_qstring(v, j) {
            Some(x) => x,
            None => { return None; },
        };
        let j3 = ws_to(v, j2);
        if j3 >= v.len() || v[j3] != ':' {
            return None;
        }
        let j4 = ws_to(v, j3 + 1);
        let j5: usize;
        if str_eq(k.as_str(), "id") {
            let (s, j5v) = match parse_qstring(v, j4) {
                Some(x) => x,
                None => { return None; },
            };
            if id_acc.is_some() {
                return None;
            }
            id_acc = Some(s);
            j5 = j5v;
        } else if str_eq(k.as_str(), "label") {
            let (s, j5v) = match parse_qstring(v, j4) {
                Some(x) => x,
                None => { return None; },
            };
            if label_acc.is_some() {
                return None;
            }
            label_acc = Some(s);
            j5 = j5v;
        } else if str_eq(k.as_str(), "kind") {
            let (s, j5v) = match parse_qstring(v, j4) {
                Some(x) => x,
                None => { return None; },
            };
            let kk = match crate::graph::parse_node_kind(s.as_str()) {
                Some(x) => x,
                None => { return None; },
            };
            if kind_acc.is_some() {
                return None;
            }
            kind_acc = Some(kk);
            j5 = j5v;
        } else if str_eq(k.as_str(), "properties") {
            if j4 >= v.len() || v[j4] != '[' {
                return None;
            }
            let (ps, j5v) = match parse_props_list(v, j4 + 1) {
                Some(x) => x,
                None => { return None; },
            };
            if props_acc.is_some() {
                return None;
            }
            props_acc = Some(ps);
            j5 = j5v;
        } else {
            return None;
        }
        let j6 = ws_to(v, j5);
        if j6 >= v.len() {
            return None;
        }
        if v[j6] == ',' {
            if j6 < i {
                return None;
            }
            i = j6 + 1;
        } else if v[j6] == '}' {
            if id_acc.is_some() && label_acc.is_some() && kind_acc.is_some()
                && props_acc.is_some() {
                let n = Node {
                    id: id_acc.unwrap(),
                    label: label_acc.unwrap(),
                    kind: kind_acc.unwrap(),
                    properties: props_acc.unwrap(),
                };
                proof {
                    assert(n@.properties =~= props_view(n.properties@));
                }
                return Some((n, j6 + 1));
            }
            return None;
        } else {
            return None;
        }
    }
}

/// Parse a node array (positioned just after `[`), mirroring `nodes_items`.
fn parse_nodes_list(v: &Vec<char>, start: usize) -> (r: Option<(Vec<Node>, usize)>)
    requires
        start <= v@.len(),
    ensures
        match r {
            Some((ns, j)) => {
                &&& nodes_items(v@, start as int, Seq::empty()) == Some(
                    (nodes_view(ns@), j as int),
                )
                &&& start <= j <= v@.len()
            },
            None => nodes_items(v@, start as int, Seq::empty()) is None,
        },
{
    let mut i: usize = start;
    let mut acc: Vec<Node> = Vec::new();
    proof {
        assert(nodes_view(acc@) =~= Seq::<NodeModel>::empty());
    }
    loop
        invariant
            start <= i <= v@.len(),
            nodes_items(v@, start as int, Seq::empty()) == nodes_items(
                v@,
                i as int,
                nodes_view(acc@),
            ),
        decreases v@.len() - i,
    {
        let j = ws_to(v, i);
        if j >= v.len() {
            return None;
        }
        if acc.len() == 0 && v[j] == ']' {
            return Some((acc, j + 1));
        }
        let (n, j2) = match parse_node(v, j) {
            Some(x) => x,
            None => { return None; },
        };
        let j3 = ws_to(v, j2);
        if j3 >= v.len() {
            return None;
        }
        if v[j3] == ',' {
            if j3 < i {
                return None;
            }
            let ghost acc0 = acc@;
            acc.push(n);
            proof {
                assert(nodes_view(acc@) =~= nodes_view(acc0).push(acc@.last()@));
            }
            i = j3 + 1;
        } else if v[j3] == ']' {
            let ghost acc0 = acc@;
            acc.push(n);
            proof {
                assert(nodes_view(acc@) =~= nodes_view(acc0).push(acc@.last()@));
            }
            return Some((acc, j3 + 1));
        } else {
            return None;
        }
    }
}

/// Parse an edge object, mirroring `edge_object`.
fn parse_edge(v: &Vec<char>, start: usize) -> (r: Option<(Edge, usize)>)
    requires
        start <= v@.len(),
    ensures
        match r {
            Some((e, j)) => {
                &&& edge_object(v@, start as int) == Some((e@, j as int))
                &&& start <= j <= v@.len()
            },
            None => edge_object(v@, start as int) is None,
        },
{
    if start >= v.len() || v[start] != '{' {
        return None;
    }
    let mut i: usize = start + 1;
    let mut source_acc: Option<String> = None;
    let mut target_acc: Option<String> = None;
    let mut kind_acc: Option<crate::graph::EdgeKind> = None;
    loop
        invariant
            start + 1 <= i <= v@.len(),
            start < v@.len() && v@[start as int] == '{',
            edge_members(v@, start as int + 1, None, None, None) == edge_members(
                v@,
                i as int,
                str_opt(source_acc),
                str_opt(target_acc),
                kind_acc,
            ),
        decreases v@.len() - i,
    {
        let j = ws_to(v, i);
        let (k, j2) = match parse_qstring(v, j) {
            Some(x) => x,
            None => { return None; },
        };
        let j3 = ws_to(v, j2);
        if j3 >= v.len() || v[j3] != ':' {
            return None;
        }
        let j4 = ws_to(v, j3 + 1);
        let j5: usize;
        if str_eq(k.as_str(), "source_id") {
            let (s, j5v) = match parse_qstring(v, j4) {
                Some(x) => x,
                None => { return None; },
            };
            if source_acc.is_some() {
                return None;
            }
            source_acc = Some(s);
            j5 = j5v;
        } else if str_eq(k.as_str(), "target_id") {
            let (s, j5v) = match parse_qstring(v, j4) {
                Some(x) => x,
                None => { return None; },
            };
            if target_acc.is_some() {
                return None;
            }
            target_acc = Some(s);
            j5 = j5v;
        } else if str_eq(k.as_str(), "kind") {
            let (s, j5v) = match parse_qstring(v, j4) {
                Some(x) => x,
                None => { return None; },
            };
            let kk = match crate::graph::parse_edge_kind(s.as_str()) {
                Some(x) => x,
                None => { return None; },
            };
            if kind_acc.is_some() {
                return None;
            }
            kind_acc = Some(kk);
            j5 = j5v;
        } else {
            return None;
        }
        let j6 = ws_to(v, j5);
        if j6 >= v.len() {
            return None;
        }
        if v[j6] == ',' {
            if j6 < i {
                return None;
            }
            i = j6 + 1;
        } else if v[j6] == '}' {
            if source_acc.is_some() && target_acc.is_some() && kind_acc.is_some() {
                let e = Edge {
                    source_id: source_acc.unwrap(),
                    target_id: target_acc.unwrap(),
                    kind: kind_acc.unwrap(),
                };
                return Some((e, j6 + 1));
            }
            return None;
        } else {
            return None;
        }
    }
}

/// Parse an edge array (positioned just after `[`), mirroring `edges_items`.
fn parse_edges_list(v: &Vec<char>, start: usize) -> (r: Option<(Vec<Edge>, usize)>)
    requires
        start <= v@.len(),
    ensures
        match r {
            Some((es, j)) => {
                &&& edges_items(v@, start as int, Seq::empty()) == Some(
                    (edges_view(es@), j as int),
                )
                &&& start <= j <= v@.len()
            },
            None => edges_items(v@, start as int, Seq::empty()) is None,
        },
{
    let mut i: usize = start;
    let mut acc: Vec<Edge> = Vec::new();
    proof {
        assert(edges_view(acc@) =~= Seq::<EdgeModel>::empty());
    }
    loop
        invariant
            start <= i <= v@.len(),
            edges_items(v@, start as int, Seq::empty()) == edges_items(
                v@,
                i as int,
                edges_view(acc@),
            ),
        decreases v@.len() - i,
    {
        let j = ws_to(v, i);
        if j >= v.len() {
            return None;
        }
        if acc.len() == 0 && v[j] == ']' {
            return Some((acc, j + 1));
        }
        let (e, j2) = match parse_edge(v, j) {
            Some(x) => x,
            None => { return None; },
        };
        let j3 = ws_to(v, j2);
        if j3 >= v.len() {
            return None;
        }
        if v[j3] == ',' {
            if j3 < i {
                return None;
            }
            let ghost acc0 = acc@;
            acc.push(e);
            proof {
                assert(edges_view(acc@) =~= edges_view(acc0).push(acc@.last()@));
            }
            i = j3 + 1;
        } else if v[j3] == ']' {
            let ghost acc0 = acc@;
            acc.push(e);
            proof {
                assert(edges_view(acc@) =~= edges_view(acc0).push(acc@.last()@));
            }
            return Some((acc, j3 + 1));
        } else {
            return None;
        }
    }
}

/// Decode a whole input text into a graph, mirroring `decoded`.
pub fn decode_graph(s: &str) -> (r: Option<Graph>)
    ensures
        match r {
            Some(g) => decoded(s@) == Some(g@),
            None => decoded(s@) is None,
        },
{
    let v = chars_of(s);
    let j0 = ws_to(&v, 0);
    if j0 >= v.len() || v[j0] != '{' {
        return None;
    }
    let mut i: usize = j0 + 1;
    let mut nodes_acc: Option<Vec<Node>> = None;
    let mut edges_acc: Option<Vec<Edge>> = None;
    loop
        invariant
            j0 + 1 <= i <= v@.len(),
            v@ == s@,
            j0 == skip_ws(s@, 0),
            j0 < v@.len() && v@[j0 as int] == '{',
            graph_members(v@, j0 as int + 1, None, None) == graph_members(
                v@,
                i as int,
                nodes_opt(nodes_acc),
                edges_opt(edges_acc),
            ),
        decreases v@.len() - i,
    {
        let j = ws_to(&v, i);
        let (k, j2) = match parse_qstring(&v, j) {
            Some(x) => x,
            None => { return None; },
        };
        let j3 = ws_to(&v, j2);
        if j3 >= v.len() || v[j3] != ':' {
            return None;
        }
        let j4 = ws_to(&v, j3 + 1);
        let j5: usize;
        if str_eq(k.as_str(), "nodes") {
            if j4 >= v.len() || v[j4] != '[' {
                return None;
            }
            let (ns, j5v) = match parse_nodes_list(&v, j4 + 1) {
                Some(x) => x,
                None => { return None; },
            };
            if nodes_acc.is_some() {
                return None;
            }
            nodes_acc = Some(ns);
            j5 = j5v;
        } else if str_eq(k.as_str(), "edges") {
            if j4 >= v.len() || v[j4] != '[' {
                return None;
            }
            let (es, j5v) = match parse_edges_list(&v, j4 + 1) {
                Some(x) => x,
                None => { return None; },
            };
            if edges_acc.is_some() {
                return None;
            }
            edges_acc = Some(es);
            j5 = j5v;
        } else {
            return None;
        }
        let j6 = ws_to(&v, j5);
        if j6 >= v.len() {
            return None;
        }
        if v[j6] == ',' {
            if j6 < i {
                return None;
            }
            i = j6 + 1;
        } else if v[j6] == '}' {
            if nodes_acc.is_some() && edges_acc.is_some() {
                let g = Graph { nodes: nodes_acc.unwrap(), edges: edges_acc.unwrap() };
                let jend = ws_to(&v, j6 + 1);
                if jend == v.len() {
                    proof {
                        assert(g@.nodes =~= nodes_view(g.nodes@));
                        assert(g@.edges =~= edges_view(g.edges@));
                    }
                    return Some(g);
                }
                return None;
            }
            return None;
        } else {
            return None;
        }
    }
}

} // verus!
