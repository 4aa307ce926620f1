//! The flattened query plan that the core offers to optimizer rules.
use crate::json::{
    as_signed, as_unsigned, get_text, json_get, json_of, json_parsed, json_text, json_to_text,
    member, parse_json, text_member, Json, JsonNumber,
};
use vstd::prelude::*;

verus! {

/// A plan node: identifier, operator, parent and the node's own JSON.
pub type FlatNode = (u32, String, Option<u32>, String);

/// The number of nodes that are read at most.
pub const MAX_NODES: usize = 65536;

/// A plan node as it is read from its fields: a missing or unusable identifier is
/// zero, a missing operator is empty, and a missing or negative parent is none.
/// Numbers are cut to their low 32 bits.
pub open spec fn node_of(
    id: Option<u64>,
    op: Option<Seq<char>>,
    parent: Option<i64>,
    params: Seq<char>,
) -> (u32, Seq<char>, Option<u32>, Seq<char>) {
    (
        match id {
            Some(n) => (n % 0x1_0000_0000) as u32,
            None => 0,
        },
        match op {
            Some(s) => s,
            None => Seq::empty(),
        },
        match parent {
            Some(p) => if p >= 0 {
                Some((p as int % 0x1_0000_0000) as u32)
            } else {
                None
            },
            None => None,
        },
        params,
    )
}

/// The node by the views of its texts.
pub open spec fn node_view(n: FlatNode) -> (u32, Seq<char>, Option<u32>, Seq<char>) {
    (n.0, n.1@, n.2, n.3@)
}

/// Makes a node from its fields.
pub fn flat_node(id: Option<u64>, op: Option<&str>, parent: Option<i64>, params: String) -> (r: FlatNode)
    ensures
        node_view(r) == node_of(
            id,
            match op {
                Some(s) => Some(s@),
                None => None,
            },
            parent,
            params@,
        ),
{
    let node_id: u32 = match id {
        Some(n) => (n % 0x1_0000_0000) as u32,
        None => 0,
    };
    let node_op = match op {
        Some(s) => s.to_owned(),
        None => String::new(),
    };
    let node_parent: Option<u32> = match parent {
        Some(p) => if p >= 0 {
            Some((p as u64 % 0x1_0000_0000) as u32)
        } else {
            None
        },
        None => None,
    };
    (node_id, node_op, node_parent, params)
}

/// The node that an element of the plan describes.
pub open spec fn json_node(j: Json) -> (u32, Seq<char>, Option<u32>, Seq<char>) {
    node_of(
        match member(j, "id"@) {
            Some(x) => as_unsigned(x),
            None => None,
        },
        text_member(j, "op"@),
        match member(j, "parent"@) {
            Some(x) => as_signed(x),
            None => None,
        },
        json_text(j),
    )
}

/// The nodes of a plan: one per element of the array, up to the limit; none when the
/// document is no array.
pub open spec fn plan_nodes(j: Json) -> Seq<(u32, Seq<char>, Option<u32>, Seq<char>)> {
    match j {
        Json::Array(a) => (if a.len() > MAX_NODES {
            a.take(MAX_NODES as int)
        } else {
            a
        }).map_values(|x: Json| json_node(x)),
        _ => Seq::empty(),
    }
}

/// The nodes by the views of their texts.
pub open spec fn nodes_view(nodes: Seq<FlatNode>) -> Seq<(u32, Seq<char>, Option<u32>, Seq<char>)> {
    nodes.map_values(|n: FlatNode| node_view(n))
}

fn read_node(v: &serde_json::Value) -> (r: FlatNode)
    ensures
        node_view(r) == json_node(json_of(*v)),
{
    let id: Option<u64> = match json_get(v, "id") {
        Some(x) => x.as_u64(),
        None => None,
    };
    let parent: Option<i64> = match json_get(v, "parent") {
        Some(x) => x.as_i64(),
        None => None,
    };
    flat_node(id, get_text(v, "op"), parent, json_to_text(v))
}

/// The nodes of a parsed plan.
pub fn flatten_plan(plan: &serde_json::Value) -> (r: Vec<FlatNode>)
    ensures
        nodes_view(r@) == plan_nodes(json_of(*plan)),
{
    let mut nodes: Vec<FlatNode> = Vec::new();
    if let Some(arr) = plan.as_array() {
        let ghost elems = arr@.map_values(|x: serde_json::Value| json_of(x));
        let mut i: usize = 0;
        while i < arr.len() && i < MAX_NODES
            invariant
                i <= arr@.len(),
                i <= MAX_NODES,
                elems == arr@.map_values(|x: serde_json::Value| json_of(x)),
                nodes@.len() == i,
                forall|k: int| 0 <= k < i ==> node_view(#[trigger] nodes@[k]) == json_node(elems[k]),
            decreases arr@.len() - i,
        {
            nodes.push(read_node(&arr[i]));
            i += 1;
        }
    }
    assert(nodes_view(nodes@) =~= plan_nodes(json_of(*plan)));
    nodes
}

/// Reads the core's flattened plan. A text that is no JSON is an error; a document of
/// another shape has no nodes.
pub fn flatten_plan_json(plan_json: &str) -> (r: Result<Vec<FlatNode>, String>)
    ensures
        match json_parsed(plan_json@) {
            Ok(j) => r matches Ok(nodes) && nodes_view(nodes@) == plan_nodes(j),
            Err(e) => r matches Err(m) && m@ == "bad plan JSON: "@ + e,
        },
{
    match parse_json(plan_json) {
        Ok(plan) => Ok(flatten_plan(&plan)),
        Err(e) => {
            let mut m = "bad plan JSON: ".to_owned();
            m.append(e.as_str());
            Err(m)
        },
    }
}

/// A plan never yields more nodes than the limit, nor more than it has elements.
pub proof fn law_node_count_is_bounded(j: Json)
    ensures
        plan_nodes(j).len() <= MAX_NODES,
        j matches Json::Array(a) ==> plan_nodes(j).len() <= a.len(),
        !(j is Array) ==> plan_nodes(j).len() == 0,
{
}

// ---------------------------------------------------------------------------
// Laws
// ---------------------------------------------------------------------------

/// A node of a plan has its number, its operator, its parent and its own text; the numbers
/// are taken modulo 2^32, a node without a number has zero, and a negative parent is none.
pub proof fn law_node_parts(
    id: Option<u64>,
    op: Option<Seq<char>>,
    parent: Option<i64>,
    params: Seq<char>,
)
    ensures
        ({
            let n = node_of(id, op, parent, params);
            &&& id matches Some(x) ==> n.0 as int == x as int % 0x1_0000_0000
            &&& id is None ==> n.0 == 0
            &&& op matches Some(s) ==> n.1 == s
            &&& op is None ==> n.1.len() == 0
            &&& match parent {
                Some(p) => if p >= 0 {
                    n.2 matches Some(q) && q as int == p as int % 0x1_0000_0000
                } else {
                    n.2 is None
                },
                None => n.2 is None,
            }
            &&& n.3 == params
        }),
{
}

/// The nodes of a plan are those of its array, in order, up to the largest number: each with
/// its members "id", "op" and "parent".
pub proof fn law_plan_is_by_node(nodes: Seq<Json>, node: Map<Seq<char>, Json>, i: int)
    requires
        0 <= i < nodes.len(),
        i < 65536,
        nodes[i] == Json::Object(node),
    ensures
        plan_nodes(Json::Array(nodes)).len() == (if nodes.len() < 65536 {
            nodes.len() as int
        } else {
            65536
        }),
        ({
            let n = plan_nodes(Json::Array(nodes))[i];
            &&& node.contains_key("id"@) ==> (node["id"@] matches Json::Number(JsonNumber::PosInt(x))
                ==> n.0 as int == x as int % 0x1_0000_0000)
            &&& node.contains_key("op"@) ==> (node["op"@] matches Json::Text(s) ==> n.1 == s)
            &&& node.contains_key("parent"@) ==> (node["parent"@] matches Json::Number(
                JsonNumber::PosInt(x),
            ) ==> (x <= 0x7fff_ffff_ffff_ffff ==> (n.2 matches Some(q) && q as int == x as int
                % 0x1_0000_0000)))
            &&& node.contains_key("parent"@) ==> (node["parent"@] matches Json::Number(
                JsonNumber::NegInt(x),
            ) ==> (x < 0 ==> n.2 is None))
            &&& !node.contains_key("id"@) ==> n.0 == 0
            &&& !node.contains_key("op"@) ==> n.1.len() == 0
            &&& !node.contains_key("parent"@) ==> n.2 is None
            &&& n.3 == json_text(nodes[i])
        }),
{
}

/// The view of a node shows its own parts, node by node.
pub proof fn law_node_views(nodes: Seq<FlatNode>, i: int)
    requires
        0 <= i < nodes.len(),
    ensures
        nodes_view(nodes).len() == nodes.len(),
        nodes_view(nodes)[i] == (nodes[i].0, nodes[i].1@, nodes[i].2, nodes[i].3@),
{
}

} // verus!
