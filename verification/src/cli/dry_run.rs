//! The single-pipeline command line and its dry-run report.
use vstd::prelude::*;
use vstd::utf8::encode_utf8;

use crate::config::architecture::{ArchitectureNode, OutputTarget};
use crate::config::composition::{deref_nodes, Composition};
use crate::config::models::{definition_type_name, ModelDefinition};
use crate::runtime::server_args::join;
use crate::strmap::StrMap;
use crate::text::{chars_of, decimal, push_decimal, push_str, str_views, string_of};

verus! {

broadcast use vstd::string::group_string_axioms;

/// Options of the single-pipeline command line.
#[derive(Debug, Clone)]
pub struct Args {
    /// Path to the composition file (JSON or JSONC)
    pub composition_file: String,
    /// Verbosity: how many times `-v` was given
    pub verbose: u8,
    /// Validate the configuration and show the pipeline without running it
    pub dry_run: bool,
    /// Override the default bind address for all nodes
    pub bind_addr: Option<String>,
    /// Override the starting port for nodes
    pub port: Option<u16>,
    /// Path to a .env file for loading API keys
    pub env_file: Option<String>,
    /// Request timeout in seconds
    pub timeout: u64,
    /// Maximum concurrent requests per node
    pub max_concurrent: usize,
}

/// The texts produced for each of a list of nodes, one after another.
pub open spec fn concat_nodes(ns: Seq<ArchitectureNode>, f: spec_fn(ArchitectureNode) -> Seq<char>) -> Seq<
    char,
>
    decreases ns.len(),
{
    if ns.len() == 0 {
        Seq::empty()
    } else {
        concat_nodes(ns.drop_last(), f) + f(ns.last())
    }
}

/// `ADDR:PORT` as a node binds it; `auto` when it names no port.
pub open spec fn bind_text(n: ArchitectureNode) -> Seq<char> {
    (match n.bind_addr {
        Some(b) => b@,
        None => "0.0.0.0"@,
    }) + ":"@ + (match n.bind_port {
        Some(p) => p@,
        None => "auto"@,
    })
}

/// A list of layer numbers as `{:?}` prints it: `[1, 2]`.
pub open spec fn layers_debug(ls: Seq<u32>) -> Seq<char> {
    "["@ + join(Seq::new(ls.len(), |i: int| decimal(ls[i] as nat)), ", "@) + "]"@
}

/// Where a node sends its output, as the report writes it.
pub open spec fn target_text(t: Option<OutputTarget>) -> Seq<char> {
    match t {
        Some(OutputTarget::Layers(ls)) => "Layer "@ + layers_debug(ls@),
        Some(OutputTarget::Nodes(ns)) => join(str_views(ns@), ", "@),
        None => Seq::empty(),
    }
}

/// The report's lines for a node of the router layer.
pub open spec fn router_lines(n: ArchitectureNode) -> Seq<char> {
    "    ["@ + n.name@ + "] "@ + bind_text(n) + " -> "@ + target_text(n.output_to) + "\n"@ + (
    match n.model {
        Some(m) => "      Model: "@ + m@ + "\n"@,
        None => Seq::empty(),
    })
}

/// A use-case cut to fit: over 60 bytes, its first 57 bytes and `...`.
pub open spec fn short_use_case(u: Seq<char>) -> Seq<char> {
    if encode_utf8(u).len() <= 60 {
        u
    } else {
        vstd::utf8::decode_utf8(encode_utf8(u).take(57)) + "..."@
    }
}

/// The use-case can be cut: it fits, or byte 57 starts a character.
pub open spec fn can_shorten(u: Seq<char>) -> bool {
    encode_utf8(u).len() <= 60 || vstd::utf8::is_char_boundary(encode_utf8(u), 57)
}

/// The report's lines for a node of a hidden layer.
pub open spec fn hidden_lines(n: ArchitectureNode) -> Seq<char> {
    "    ["@ + n.name@ + "] "@ + bind_text(n) + "\n"@ + (match n.use_case {
        Some(u) => "      Use-case: "@ + short_use_case(u@) + "\n"@,
        None => Seq::empty(),
    })
}

/// The report's lines for an output node.
pub open spec fn output_lines(n: ArchitectureNode) -> Seq<char> {
    "    ["@ + n.name@ + "] adapter: "@ + n.adapter@ + (match n.url {
        Some(u) => " -> "@ + u@,
        None => Seq::empty(),
    }) + "\n"@ + (match n.condition {
        Some(c) => "      Condition: "@ + c@ + "\n"@,
        None => Seq::empty(),
    })
}

/// The nodes of layer `l`, in order.
pub open spec fn layer_nodes(arch: Seq<ArchitectureNode>, l: u32) -> Seq<ArchitectureNode> {
    arch.filter(|n: ArchitectureNode| n.layer == Some(l))
}

/// The highest layer any node names; 0 when none names one.
pub open spec fn max_layer(arch: Seq<ArchitectureNode>) -> u32
    decreases arch.len(),
{
    if arch.len() == 0 {
        0
    } else {
        let m = max_layer(arch.drop_last());
        match arch.last().layer {
            Some(l) => if l > m {
                l
            } else {
                m
            },
            None => m,
        }
    }
}

/// The section of hidden layer `l`; empty when the layer has no nodes.
pub open spec fn hidden_section(arch: Seq<ArchitectureNode>, l: u32) -> Seq<char> {
    if layer_nodes(arch, l).len() == 0 {
        Seq::empty()
    } else {
        "\n  Layer "@ + decimal(l as nat) + " (Hidden):\n"@ + concat_nodes(
            layer_nodes(arch, l),
            |n: ArchitectureNode| hidden_lines(n),
        )
    }
}

/// The sections of hidden layers `1..=k`.
pub open spec fn hidden_sections(arch: Seq<ArchitectureNode>, k: nat) -> Seq<char>
    decreases k,
{
    if k == 0 || k > u32::MAX {
        Seq::empty()
    } else {
        hidden_sections(arch, (k - 1) as nat) + hidden_section(arch, k as u32)
    }
}

/// Output and WebSocket nodes, in order.
pub open spec fn sink_nodes(arch: Seq<ArchitectureNode>) -> Seq<ArchitectureNode> {
    arch.filter(|n: ArchitectureNode| n.adapter@ == "output"@ || n.adapter@ == "ws"@)
}

/// The output section; empty when there is no output node.
pub open spec fn output_section(arch: Seq<ArchitectureNode>) -> Seq<char> {
    if sink_nodes(arch).len() == 0 {
        Seq::empty()
    } else {
        "\n  Output Layer:\n"@ + concat_nodes(sink_nodes(arch), |n: ArchitectureNode| output_lines(n))
    }
}

/// One line per model, for the first `n` models in key order.
pub open spec fn model_lines(models: StrMap<ModelDefinition>, n: nat) -> Seq<char>
    decreases n,
{
    if n == 0 || n > models.key_seq().len() {
        Seq::empty()
    } else {
        let k = models.key_seq()[n - 1];
        model_lines(models, (n - 1) as nat) + "  - "@ + k + " ["@ + definition_type_name(models@[k])
            + "]\n"@
    }
}

/// The dry-run report of a composition read from `file`.
pub open spec fn dry_run_text(c: Composition, file: Seq<char>) -> Seq<char> {
    let arch = c.architecture@;
    "llmnet v0.1.0 - Dry Run Mode\n\n"@ + "Composition: "@ + file + "\n\n"@ + "Models ("@ + decimal(
        c.models@.len(),
    ) + "):\n"@ + model_lines(c.models, c.models.key_seq().len()) + "\n"@
        + "Pipeline Architecture:\n"@ + "  Layer 0 (Input/Router):\n"@ + concat_nodes(
        layer_nodes(arch, 0),
        |n: ArchitectureNode| router_lines(n),
    ) + hidden_sections(arch, max_layer(arch) as nat) + output_section(arch)
        + "\nValidation: PASSED\n"@ + "Ready to start pipeline. Remove --dry-run to execute.\n"@
}

/// Every use-case the report shows can be cut to fit.
pub open spec fn use_cases_fit(arch: Seq<ArchitectureNode>) -> bool {
    forall|i: int|
        #![trigger arch[i]]
        0 <= i < arch.len() ==> match (arch[i].layer, arch[i].use_case) {
            (Some(l), Some(u)) => l >= 1 ==> can_shorten(u@),
            _ => true,
        }
}

fn push_bind(v: &mut Vec<char>, n: &ArchitectureNode)
    ensures
        final(v)@ == old(v)@ + bind_text(*n),
{
    push_str(v, n.effective_bind_addr());
    push_str(v, ":");
    match &n.bind_port {
        Some(p) => push_str(v, p.as_str()),
        None => push_str(v, "auto"),
    }
    assert(v@ =~= old(v)@ + bind_text(*n));
}

fn push_joined(v: &mut Vec<char>, parts: &Vec<String>, sep: &str)
    ensures
        final(v)@ == old(v)@ + join(str_views(parts@), sep@),
{
    let ghost start = v@;
    let ghost ps = str_views(parts@);
    let n = parts.len();
    for i in 0..n
        invariant
            n == parts@.len(),
            ps == str_views(parts@),
            v@ == start + join(ps.take(i as int), sep@),
    {
        let ghost before = v@;
        if i > 0 {
            push_str(v, sep);
        }
        push_str(v, parts[i].as_str());
        proof {
            let t = ps.take(i + 1);
            assert(t.drop_last() =~= ps.take(i as int));
            assert(t.last() == ps[i as int]);
            if i == 0 {
                assert(join(t, sep@) == t[0]);
                assert(v@ =~= start + join(t, sep@));
            } else {
                assert(v@ =~= start + join(t, sep@));
            }
        }
    }
    assert(ps.take(n as int) =~= ps);
}

fn push_layers(v: &mut Vec<char>, ls: &Vec<u32>)
    ensures
        final(v)@ == old(v)@ + layers_debug(ls@),
{
    let ghost start = v@;
    let ghost ds = Seq::new(ls@.len(), |i: int| decimal(ls@[i] as nat));
    push_str(v, "[");
    let n = ls.len();
    for i in 0..n
        invariant
            n == ls@.len(),
            ds == Seq::new(ls@.len(), |i: int| decimal(ls@[i] as nat)),
            v@ == start + "["@ + join(ds.take(i as int), ", "@),
    {
        if i > 0 {
            push_str(v, ", ");
        }
        push_decimal(v, ls[i] as u64);
        proof {
            let t = ds.take(i + 1);
            assert(t.drop_last() =~= ds.take(i as int));
            assert(t.last() == ds[i as int]);
            if i == 0 {
                assert(join(t, ", "@) == t[0]);
            }
            assert(v@ =~= start + "["@ + join(t, ", "@));
        }
    }
    assert(ds.take(n as int) =~= ds);
    push_str(v, "]");
    assert(v@ =~= start + layers_debug(ls@));
}

fn push_router_lines(v: &mut Vec<char>, n: &ArchitectureNode)
    ensures
        final(v)@ == old(v)@ + router_lines(*n),
{
    let ghost start = v@;
    push_str(v, "    [");
    push_str(v, n.name.as_str());
    push_str(v, "] ");
    push_bind(v, n);
    push_str(v, " -> ");
    let ghost mid = v@;
    match &n.output_to {
        Some(OutputTarget::Layers(ls)) => {
            push_str(v, "Layer ");
            push_layers(v, ls);
        },
        Some(OutputTarget::Nodes(ns)) => {
            push_joined(v, ns, ", ");
        },
        None => {},
    }
    assert(v@ =~= mid + target_text(n.output_to));
    push_str(v, "\n");
    match &n.model {
        Some(m) => {
            push_str(v, "      Model: ");
            push_str(v, m.as_str());
            push_str(v, "\n");
        },
        None => {},
    }
    assert(v@ =~= start + router_lines(*n));
}

fn push_short_use_case(v: &mut Vec<char>, u: &str)
    requires
        can_shorten(u@),
    ensures
        final(v)@ == old(v)@ + short_use_case(u@),
{
    if u.as_bytes().len() <= 60 {
        push_str(v, u);
    } else {
        let (head, _) = u.split_at(57);
        proof {
            vstd::utf8::encode_utf8_decode_utf8(head@);
            assert(encode_utf8(u@).subrange(0, 57) =~= encode_utf8(u@).take(57));
        }
        push_str(v, head);
        push_str(v, "...");
        assert(v@ =~= old(v)@ + short_use_case(u@));
    }
}

fn push_hidden_lines(v: &mut Vec<char>, n: &ArchitectureNode)
    requires
        match n.use_case {
            Some(u) => can_shorten(u@),
            None => true,
        },
    ensures
        final(v)@ == old(v)@ + hidden_lines(*n),
{
    let ghost start = v@;
    push_str(v, "    [");
    push_str(v, n.name.as_str());
    push_str(v, "] ");
    push_bind(v, n);
    push_str(v, "\n");
    match &n.use_case {
        Some(u) => {
            push_str(v, "      Use-case: ");
            push_short_use_case(v, u.as_str());
            push_str(v, "\n");
        },
        None => {},
    }
    assert(v@ =~= start + hidden_lines(*n));
}

fn push_output_lines(v: &mut Vec<char>, n: &ArchitectureNode)
    ensures
        final(v)@ == old(v)@ + output_lines(*n),
{
    let ghost start = v@;
    push_str(v, "    [");
    push_str(v, n.name.as_str());
    push_str(v, "] adapter: ");
    push_str(v, n.adapter.as_str());
    match &n.url {
        Some(u) => {
            push_str(v, " -> ");
            push_str(v, u.as_str());
        },
        None => {},
    }
    push_str(v, "\n");
    match &n.condition {
        Some(c) => {
            push_str(v, "      Condition: ");
            push_str(v, c.as_str());
            push_str(v, "\n");
        },
        None => {},
    }
    assert(v@ =~= start + output_lines(*n));
}

/// The highest layer any node names.
fn highest_layer(arch: &Vec<ArchitectureNode>) -> (m: u32)
    ensures
        m == max_layer(arch@),
{
    let mut m: u32 = 0;
    let n = arch.len();
    for i in 0..n
        invariant
            n == arch@.len(),
            m == max_layer(arch@.take(i as int)),
    {
        proof {
            let t = arch@.take(i + 1);
            assert(t.drop_last() =~= arch@.take(i as int));
        }
        match arch[i].layer {
            Some(l) => {
                if l > m {
                    m = l;
                }
            },
            None => {},
        }
    }
    assert(arch@.take(n as int) =~= arch@);
    m
}

/// The models' lines, in key order.
fn push_model_lines(v: &mut Vec<char>, models: &StrMap<ModelDefinition>)
    ensures
        final(v)@ == old(v)@ + model_lines(*models, models.key_seq().len()),
{
    let ghost start = v@;
    let n = models.len();
    for i in 0..n
        invariant
            n == models.key_seq().len(),
            v@ == start + model_lines(*models, i as nat),
    {
        let k = models.key_at(i);
        let d = models.val_at(i);
        let ghost before = v@;
        push_str(v, "  - ");
        push_str(v, k.as_str());
        push_str(v, " [");
        push_str(v, d.type_label());
        push_str(v, "]\n");
        assert(v@ =~= start + model_lines(*models, (i + 1) as nat));
    }
}

/// The sections of hidden layers `1..=max`.
#[verifier::loop_isolation(false)]
fn push_hidden_sections(v: &mut Vec<char>, c: &Composition, max: u32)
    requires
        use_cases_fit(c.architecture@),
    ensures
        final(v)@ == old(v)@ + hidden_sections(c.architecture@, max as nat),
{
    let ghost arch = c.architecture@;
    let ghost start = v@;
    let mut layer: u64 = 1;
    assert(hidden_sections(arch, 0) =~= Seq::<char>::empty());
    while layer <= max as u64
        invariant
            1 <= layer <= max as u64 + 1,
            v@ == start + hidden_sections(arch, (layer - 1) as nat),
        decreases max as u64 + 1 - layer,
    {
        let l = layer as u32;
        let nodes = c.nodes_in_layer(l);
        let ghost before = v@;
        if nodes.len() > 0 {
            push_str(v, "\n  Layer ");
            push_decimal(v, l as u64);
            push_str(v, " (Hidden):\n");
            let ghost head = v@;
            let ghost ns = deref_nodes(nodes@);
            assert(ns == layer_nodes(arch, l));
            let k = nodes.len();
            for j in 0..k
                invariant
                    k == nodes@.len(),
                    ns == deref_nodes(nodes@),
                    ns == layer_nodes(arch, l),
                    v@ == head + concat_nodes(ns.take(j as int), |n: ArchitectureNode| hidden_lines(n)),
            {
                let node = nodes[j];
                proof {
                    assert(ns[j as int] == *node);
                    assert(ns.contains(*node));
                    let f = |n: ArchitectureNode| n.layer == Some(l);
                    arch.lemma_filter_contains_rev(f, *node);
                    arch.lemma_filter_pred(f, j as int);
                    let w = choose|w: int| 0 <= w < arch.len() && arch[w] == *node;
                    assert(arch[w] == *node);
                    let t = ns.take(j + 1);
                    assert(t.drop_last() =~= ns.take(j as int));
                }
                push_hidden_lines(v, node);
            }
            assert(ns.take(k as int) =~= ns);
            assert(v@ =~= before + hidden_section(arch, l));
        } else {
            assert(deref_nodes(nodes@).len() == 0);
            assert(v@ =~= before + hidden_section(arch, l));
        }
        layer = layer + 1;
    }
}

/// Format the dry-run report: the models, each layer's nodes, the output nodes, and
/// the validation verdict.
pub fn format_dry_run(composition: &Composition, args: &Args) -> (s: String)
    requires
        use_cases_fit(composition.architecture@),
    ensures
        s@ == dry_run_text(*composition, args.composition_file@),
{
    let ghost arch = composition.architecture@;
    let mut v: Vec<char> = Vec::new();
    push_str(&mut v, "llmnet v0.1.0 - Dry Run Mode\n\n");
    push_str(&mut v, "Composition: ");
    push_str(&mut v, args.composition_file.as_str());
    push_str(&mut v, "\n\n");
    push_str(&mut v, "Models (");
    let count = composition.models.len();
    push_decimal(&mut v, count as u64);
    push_str(&mut v, "):\n");
    push_model_lines(&mut v, &composition.models);
    push_str(&mut v, "\n");
    push_str(&mut v, "Pipeline Architecture:\n");
    let max = highest_layer(&composition.architecture);
    push_str(&mut v, "  Layer 0 (Input/Router):\n");
    let routers = composition.nodes_in_layer(0);
    let ghost head = v@;
    let ghost rs = deref_nodes(routers@);
    let k = routers.len();
    for j in 0..k
        invariant
            k == routers@.len(),
            rs == deref_nodes(routers@),
            v@ == head + concat_nodes(rs.take(j as int), |n: ArchitectureNode| router_lines(n)),
    {
        proof {
            let t = rs.take(j + 1);
            assert(t.drop_last() =~= rs.take(j as int));
        }
        push_router_lines(&mut v, routers[j]);
    }
    assert(rs.take(k as int) =~= rs);
    push_hidden_sections(&mut v, composition, max);
    let ghost before_out = v@;
    let mut sinks: Vec<&ArchitectureNode> = Vec::new();
    let ghost f = |n: ArchitectureNode| n.adapter@ == "output"@ || n.adapter@ == "ws"@;
    let n = composition.architecture.len();
    for i in 0..n
        invariant
            n == arch.len(),
            arch == composition.architecture@,
            f == (|n: ArchitectureNode| n.adapter@ == "output"@ || n.adapter@ == "ws"@),
            deref_nodes(sinks@) == arch.take(i as int).filter(f),
    {
        let node = &composition.architecture[i];
        proof {
            let t = arch.take(i + 1);
            assert(t.drop_last() =~= arch.take(i as int));
            assert(t.last() == *node);
            reveal(Seq::filter);
        }
        if crate::text::str_eq(node.adapter.as_str(), "output") || crate::text::str_eq(
            node.adapter.as_str(),
            "ws",
        ) {
            sinks.push(node);
        }
        assert(deref_nodes(sinks@) =~= arch.take(i + 1).filter(f));
    }
    assert(arch.take(n as int) =~= arch);
    let ghost ss = deref_nodes(sinks@);
    if sinks.len() > 0 {
        push_str(&mut v, "\n  Output Layer:\n");
        let ghost head2 = v@;
        let m = sinks.len();
        for j in 0..m
            invariant
                m == sinks@.len(),
                ss == deref_nodes(sinks@),
                v@ == head2 + concat_nodes(ss.take(j as int), |n: ArchitectureNode| output_lines(n)),
        {
            proof {
                let t = ss.take(j + 1);
                assert(t.drop_last() =~= ss.take(j as int));
            }
            push_output_lines(&mut v, sinks[j]);
        }
        assert(ss.take(m as int) =~= ss);
    }
    assert(v@ =~= before_out + output_section(arch));
    push_str(&mut v, "\nValidation: PASSED\n");
    push_str(&mut v, "Ready to start pipeline. Remove --dry-run to execute.\n");
    assert(v@ =~= dry_run_text(*composition, args.composition_file@));
    string_of(&v)
}

} // verus!
