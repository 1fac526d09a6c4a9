//! Command lines of OpenAI-compatible model servers: the parts the runners share.
use vstd::prelude::*;

use crate::json::{JsonValue, JsonView};
use crate::strmap::StrMap;
use crate::text::{
    chars_of, decimal, push_all, push_decimal, push_str, replace_char, replace_char_exec, str_eq,
    str_views, string_of, to_string,
};

verus! {

/// How a parameter key becomes a command-line flag.
#[derive(Debug, Clone, Copy, PartialEq, Eq, Structural)]
pub enum FlagStyle {
    /// `--` and the key, with `_` written as `-`.
    Plain,
    /// As `Plain`, but with llama-server's own names for its common parameters.
    LlamaServer,
}

/// `--` and the key, with `_` written as `-`.
pub open spec fn dashed_flag(key: Seq<char>) -> Seq<char> {
    "--"@ + replace_char(key, '_', '-')
}

/// The flag for a parameter key.
pub open spec fn flag_name(style: FlagStyle, key: Seq<char>) -> Seq<char> {
    match style {
        FlagStyle::Plain => dashed_flag(key),
        FlagStyle::LlamaServer => if key == "n_ctx"@ || key == "ctx_size"@ {
            "--ctx-size"@
        } else if key == "n_gpu_layers"@ || key == "ngl"@ {
            "--n-gpu-layers"@
        } else if key == "n_threads"@ || key == "threads"@ {
            "--threads"@
        } else if key == "n_batch"@ {
            "--batch-size"@
        } else if key == "flash_attn"@ || key == "fa"@ {
            "--flash-attn"@
        } else {
            dashed_flag(key)
        },
    }
}

/// The arguments one parameter adds: its flag alone when it is `true`, its flag and
/// value when it is a number or a string, nothing otherwise.
pub open spec fn param_args(flag: Seq<char>, value: JsonView) -> Seq<Seq<char>> {
    match value {
        JsonView::Bool(b) => if b {
            seq![flag]
        } else {
            Seq::empty()
        },
        JsonView::Number(n) => seq![flag, n],
        JsonView::String(s) => seq![flag, s],
        _ => Seq::empty(),
    }
}

/// The arguments of the first `n` parameters, in key order.
pub open spec fn params_args_upto(
    style: FlagStyle,
    keys: Seq<Seq<char>>,
    m: Map<Seq<char>, JsonValue>,
    n: nat,
) -> Seq<Seq<char>>
    decreases n,
{
    if n == 0 || n > keys.len() {
        Seq::empty()
    } else {
        params_args_upto(style, keys, m, (n - 1) as nat) + param_args(
            flag_name(style, keys[n - 1]),
            m[keys[n - 1]]@,
        )
    }
}

/// The arguments of all parameters, in key order.
pub open spec fn params_args(style: FlagStyle, params: StrMap<JsonValue>) -> Seq<Seq<char>> {
    params_args_upto(style, params.key_seq(), params@, params.key_seq().len())
}

/// `--model M --host H --port P`, then the parameters.
pub open spec fn server_args(
    model: Seq<char>,
    host: Seq<char>,
    port: u16,
    style: FlagStyle,
    params: StrMap<JsonValue>,
) -> Seq<Seq<char>> {
    seq!["--model"@, model, "--host"@, host, "--port"@, decimal(port as nat)] + params_args(
        style,
        params,
    )
}

/// The parts joined with `sep` between each two.
pub open spec fn join(parts: Seq<Seq<char>>, sep: Seq<char>) -> Seq<char>
    decreases parts.len(),
{
    if parts.len() == 0 {
        Seq::empty()
    } else if parts.len() == 1 {
        parts[0]
    } else {
        join(parts.drop_last(), sep) + sep + parts.last()
    }
}

/// `http://HOST:PORT/v1`.
pub open spec fn v1_endpoint(host: Seq<char>, port: u16) -> Seq<char> {
    "http://"@ + host + ":"@ + decimal(port as nat) + "/v1"@
}

/// A map of strings by the text of its values.
pub open spec fn text_map(m: Map<Seq<char>, String>) -> Map<Seq<char>, Seq<char>> {
    m.map_values(|v: String| v@)
}

/// The flag for a parameter key.
pub(crate) fn flag_of(style: FlagStyle, key: &str) -> (r: String)
    ensures
        r@ == flag_name(style, key@),
{
    match style {
        FlagStyle::LlamaServer => {
            if str_eq(key, "n_ctx") || str_eq(key, "ctx_size") {
                return to_string("--ctx-size");
            } else if str_eq(key, "n_gpu_layers") || str_eq(key, "ngl") {
                return to_string("--n-gpu-layers");
            } else if str_eq(key, "n_threads") || str_eq(key, "threads") {
                return to_string("--threads");
            } else if str_eq(key, "n_batch") {
                return to_string("--batch-size");
            } else if str_eq(key, "flash_attn") || str_eq(key, "fa") {
                return to_string("--flash-attn");
            }
        },
        FlagStyle::Plain => {},
    }
    let mut v: Vec<char> = Vec::new();
    push_str(&mut v, "--");
    let k = chars_of(key);
    let d = replace_char_exec(&k, '_', '-');
    push_all(&mut v, &d);
    proof {
        assert(v@ =~= dashed_flag(key@));
    }
    string_of(&v)
}

/// The decimal text of a port.
pub(crate) fn port_text(port: u16) -> (r: String)
    ensures
        r@ == decimal(port as nat),
{
    let mut v: Vec<char> = Vec::new();
    push_decimal(&mut v, port as u64);
    assert(v@ =~= decimal(port as nat));
    string_of(&v)
}

/// Appends `--model M --host H --port P` and the parameters' arguments to `args`.
pub(crate) fn push_server_args(
    args: &mut Vec<String>,
    model: &str,
    host: &str,
    port: u16,
    style: FlagStyle,
    params: &StrMap<JsonValue>,
)
    ensures
        str_views(final(args)@) == str_views(old(args)@) + server_args(model@, host@, port, style, *params),
{
    let ghost start = str_views(args@);
    args.push(to_string("--model"));
    args.push(to_string(model));
    args.push(to_string("--host"));
    args.push(to_string(host));
    args.push(to_string("--port"));
    args.push(port_text(port));
    let ghost head = seq!["--model"@, model@, "--host"@, host@, "--port"@, decimal(port as nat)];
    assert(str_views(args@) =~= start + head);
    let n = params.len();
    let ghost keys = params.key_seq();
    for i in 0..n
        invariant
            n == keys.len(),
            keys == params.key_seq(),
            forall|j: int| 0 <= j < n ==> params@.contains_key(#[trigger] keys[j]),
            str_views(args@) == start + head + params_args_upto(style, keys, params@, i as nat),
    {
        let key = params.key_at(i);
        let value = params.val_at(i);
        let flag = flag_of(style, key.as_str());
        let ghost before = str_views(args@);
        match value {
            JsonValue::Bool(b) => {
                if *b {
                    args.push(flag);
                }
            },
            JsonValue::Number(t) => {
                args.push(flag);
                args.push(t.clone());
            },
            JsonValue::String(s) => {
                args.push(flag);
                args.push(s.clone());
            },
            _ => {},
        }
        proof {
            assert(params_args_upto(style, keys, params@, (i + 1) as nat) == params_args_upto(
                style,
                keys,
                params@,
                i as nat,
            ) + param_args(flag_name(style, keys[i as int]), params@[keys[i as int]]@));
            assert(str_views(args@) =~= before + param_args(
                flag_name(style, keys[i as int]),
                params@[keys[i as int]]@,
            ));
        }
    }
    proof {
        assert(start + head + params_args(style, *params) =~= start + (head + params_args(
            style,
            *params,
        )));
    }
}

/// The parts joined with `sep` between each two.
pub(crate) fn join_strings(parts: &Vec<String>, sep: &str) -> (r: String)
    ensures
        r@ == join(str_views(parts@), sep@),
{
    let ghost ps = str_views(parts@);
    let mut v: Vec<char> = Vec::new();
    let n = parts.len();
    for i in 0..n
        invariant
            n == parts@.len(),
            ps == str_views(parts@),
            v@ == join(ps.take(i as int), sep@),
    {
        if i > 0 {
            push_str(&mut v, sep);
        }
        push_str(&mut v, parts[i].as_str());
        proof {
            let t = ps.take(i + 1);
            assert(t.drop_last() =~= ps.take(i as int));
            assert(t.last() == ps[i as int]);
            if i == 0 {
                assert(v@ =~= t[0]);
            }
        }
    }
    assert(ps.take(n as int) =~= ps);
    string_of(&v)
}

/// `http://HOST:PORT/v1`.
pub(crate) fn v1_endpoint_url(host: &str, port: u16) -> (r: String)
    ensures
        r@ == v1_endpoint(host@, port),
{
    let mut v: Vec<char> = Vec::new();
    push_str(&mut v, "http://");
    push_str(&mut v, host);
    push_str(&mut v, ":");
    push_decimal(&mut v, port as u64);
    push_str(&mut v, "/v1");
    assert(v@ =~= v1_endpoint(host@, port));
    string_of(&v)
}

} // verus!
