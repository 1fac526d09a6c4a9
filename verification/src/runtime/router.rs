//! Router node selection: reading the router model's answer.
use vstd::prelude::*;

use crate::client::openai::{client_error_text, ClientError};
use crate::text::{
    push_str, chars_eq, chars_of, contains, contains_exec, lowercase, lowercase_chars, string_of, trim,
    trim_chars,
};

verus! {

#[derive(Debug)]
pub enum RouterError {
    Client(ClientError),
    InvalidSelection(String),
    EmptyResponse,
}

/// Metadata about a node that the router uses for decision-making
#[derive(Debug, Clone)]
pub struct NodeMetadata {
    pub name: String,
    pub use_case: Option<String>,
}

/// How response `r` names node `n` in matching pass `pass`:
/// exactly, ignoring case, as a part, or as a part ignoring case.
pub open spec fn names_node(pass: int, r: Seq<char>, n: Seq<char>) -> bool {
    if pass == 0 {
        r == n
    } else if pass == 1 {
        lowercase(r) == lowercase(n)
    } else if pass == 2 {
        contains(r, n)
    } else {
        contains(lowercase(r), lowercase(n))
    }
}

/// The first node (from index `i` on) that pass `pass` matches.
pub open spec fn first_named(ns: Seq<NodeMetadata>, pass: int, r: Seq<char>, i: int) -> Option<int>
    decreases ns.len() - i,
{
    if i < 0 || i >= ns.len() {
        None
    } else if names_node(pass, r, ns[i].name@) {
        Some(i)
    } else {
        first_named(ns, pass, r, i + 1)
    }
}

/// The node the trimmed response selects: the first match of the first pass that finds one.
pub open spec fn selected(ns: Seq<NodeMetadata>, r: Seq<char>) -> Option<int> {
    if first_named(ns, 0, r, 0) is Some {
        first_named(ns, 0, r, 0)
    } else if first_named(ns, 1, r, 0) is Some {
        first_named(ns, 1, r, 0)
    } else if first_named(ns, 2, r, 0) is Some {
        first_named(ns, 2, r, 0)
    } else {
        first_named(ns, 3, r, 0)
    }
}

proof fn lemma_first_named(ns: Seq<NodeMetadata>, pass: int, r: Seq<char>, i: int, k: int)
    requires
        0 <= i <= k <= ns.len(),
        forall|j: int| i <= j < k ==> !names_node(pass, r, #[trigger] ns[j].name@),
    ensures
        first_named(ns, pass, r, i) == first_named(ns, pass, r, k),
    decreases k - i,
{
    if i < k {
        lemma_first_named(ns, pass, r, i + 1, k);
    }
}

/// One matching pass over the nodes.
fn find_pass(nodes: &[NodeMetadata], pass: u8, r: &Vec<char>, r_low: &Vec<char>) -> (res: Option<usize>)
    requires
        pass < 4,
        r_low@ == lowercase(r@),
    ensures
        match res {
            Some(i) => i < nodes@.len() && first_named(nodes@, pass as int, r@, 0) == Some(i as int),
            None => first_named(nodes@, pass as int, r@, 0) is None,
        },
{
    let n = nodes.len();
    for i in 0..n
        invariant
            n == nodes@.len(),
            pass < 4,
            r_low@ == lowercase(r@),
            forall|j: int| 0 <= j < i ==> !names_node(pass as int, r@, #[trigger] nodes@[j].name@),
    {
        let name = chars_of(nodes[i].name.as_str());
        let hit = if pass == 0 {
            chars_eq(r, &name)
        } else if pass == 1 {
            chars_eq(r_low, &lowercase_chars(&name))
        } else if pass == 2 {
            contains_exec(r, &name)
        } else {
            contains_exec(r_low, &lowercase_chars(&name))
        };
        if hit {
            proof {
                lemma_first_named(nodes@, pass as int, r@, 0, i as int);
            }
            return Some(i);
        }
    }
    proof {
        lemma_first_named(nodes@, pass as int, r@, 0, n as int);
    }
    None
}

/// Extract the selected node name from the router's response.
pub fn extract_node_selection(response: &str, available_nodes: &[NodeMetadata]) -> (res: Result<
    String,
    RouterError,
>)
    ensures
        ({
            let r = trim(response@);
            if r.len() == 0 {
                res matches Err(RouterError::EmptyResponse)
            } else {
                match selected(available_nodes@, r) {
                    Some(i) => res matches Ok(s) && s@ == available_nodes@[i].name@,
                    None => res matches Err(RouterError::InvalidSelection(s)) && s@ == r,
                }
            }
        }),
{
    let raw = chars_of(response);
    let r = trim_chars(&raw);
    if r.len() == 0 {
        return Err(RouterError::EmptyResponse);
    }
    let r_low = lowercase_chars(&r);
    let mut pass: u8 = 0;
    while pass < 4
        invariant
            pass <= 4,
            r@ == trim(response@),
            r@.len() > 0,
            r_low@ == lowercase(r@),
            forall|p: int| 0 <= p < pass ==> first_named(available_nodes@, p, r@, 0) is None,
        decreases 4 - pass,
    {
        match find_pass(available_nodes, pass, &r, &r_low) {
            Some(i) => {
                proof {
                    assert(first_named(available_nodes@, pass as int, r@, 0) == Some(i as int));
                    if pass >= 1 {
                        assert(first_named(available_nodes@, 0, r@, 0) is None);
                    }
                    if pass >= 2 {
                        assert(first_named(available_nodes@, 1, r@, 0) is None);
                    }
                    if pass >= 3 {
                        assert(first_named(available_nodes@, 2, r@, 0) is None);
                    }
                }
                return Ok(available_nodes[i].name.clone());
            },
            None => {},
        }
        pass = pass + 1;
    }
    proof {
        assert(first_named(available_nodes@, 0, r@, 0) is None);
        assert(first_named(available_nodes@, 1, r@, 0) is None);
        assert(first_named(available_nodes@, 2, r@, 0) is None);
        assert(first_named(available_nodes@, 3, r@, 0) is None);
    }
    Err(RouterError::InvalidSelection(string_of(&r)))
}

/// The node metadata as plain values: each name with its use-case.
pub open spec fn metadata_views(ns: Seq<NodeMetadata>) -> Seq<(Seq<char>, Option<Seq<char>>)> {
    Seq::new(
        ns.len(),
        |i: int|
            (
                ns[i].name@,
                match ns[i].use_case {
                    Some(u) => Some(u@),
                    None => None,
                },
            ),
    )
}

/// The text `serde_json::to_string_pretty` gives for a list of objects with a `name`
/// and a `use-case` (`null` when absent).
pub uninterp spec fn pretty_nodes_json(nodes: Seq<(Seq<char>, Option<Seq<char>>)>) -> Seq<char>;

/// Wrapper for `serde_json::to_string_pretty` on the node list, each node an object
/// `{"name": .., "use-case": ..}`; the result is the named pretty text. Serialising such
/// a list cannot fail; the `[]` fallback mirrors the caller's guard.
#[verifier::external_body]
fn nodes_pretty_json(nodes: &[NodeMetadata]) -> (s: String)
    ensures
        s@ == pretty_nodes_json(metadata_views(nodes@)),
{
    let items: Vec<std::collections::BTreeMap<&str, Option<&str>>> = nodes
        .iter()
        .map(|n| std::collections::BTreeMap::from([("name", Some(n.name.as_str())), ("use-case", n.use_case.as_deref())]))
        .collect();
    serde_json::to_string_pretty(&items).unwrap_or_else(|_| "[]".to_string())
}

/// The routing prompt: the user's prompt, the instruction, and the candidate nodes as JSON.
pub open spec fn routing_prompt(user_prompt: Seq<char>, nodes_json: Seq<char>) -> Seq<char> {
    "Here is the user prompt: "@ + user_prompt
        + "\n\nBased on the prompt, please choose from one of these models, outputting ONLY the model name to use:\n"@
        + nodes_json
}

/// Frames the routing prompt around the user's prompt and the nodes' JSON text.
pub fn frame_routing_prompt(user_prompt: &str, nodes_json: &str) -> (s: String)
    ensures
        s@ == routing_prompt(user_prompt@, nodes_json@),
{
    let mut v: Vec<char> = Vec::new();
    push_str(&mut v, "Here is the user prompt: ");
    push_str(&mut v, user_prompt);
    push_str(
        &mut v,
        "\n\nBased on the prompt, please choose from one of these models, outputting ONLY the model name to use:\n",
    );
    push_str(&mut v, nodes_json);
    assert(v@ =~= routing_prompt(user_prompt@, nodes_json@));
    string_of(&v)
}

/// Build the routing prompt for the router model.
pub fn build_routing_prompt(user_prompt: &str, available_nodes: &[NodeMetadata]) -> (s: String)
    ensures
        s@ == routing_prompt(user_prompt@, pretty_nodes_json(metadata_views(available_nodes@))),
{
    let nodes_json = nodes_pretty_json(available_nodes);
    frame_routing_prompt(user_prompt, nodes_json.as_str())
}

/// The text a router error reads as.
pub open spec fn router_error_text(e: RouterError) -> Seq<char> {
    match e {
        RouterError::Client(c) => "Client error: "@ + client_error_text(c),
        RouterError::InvalidSelection(r) => "No valid node selected from response: '"@ + r@ + "'"@,
        RouterError::EmptyResponse => "Empty response from router model"@,
    }
}

impl RouterError {
    /// The text this error reads as.
    pub fn message(&self) -> (s: String)
        ensures
            s@ == router_error_text(*self),
    {
        let mut v: Vec<char> = Vec::new();
        match self {
            RouterError::Client(c) => {
                push_str(&mut v, "Client error: ");
                let m = c.message();
                push_str(&mut v, m.as_str());
            },
            RouterError::InvalidSelection(r) => {
                push_str(&mut v, "No valid node selected from response: '");
                push_str(&mut v, r.as_str());
                push_str(&mut v, "'");
            },
            RouterError::EmptyResponse => {
                push_str(&mut v, "Empty response from router model");
            },
        }
        assert(v@ =~= router_error_text(*self));
        string_of(&v)
    }
}

} // verus!
