//! Function definitions that hooks call.
use vstd::prelude::*;

use crate::config::secrets::{string_map_view, subst_from, subst_json, SecretsManager};
use crate::json::{json_text, push_json, JsonValue, JsonView};
use crate::runtime::hooks::{first_keys, var_views};
use crate::strmap::StrMap;
use crate::text::{chars_of, occurs_at, occurs_at_exec, push_all, push_str, string_of};

verus! {

/// HTTP methods for REST functions
#[derive(Debug, Clone, Copy, PartialEq, Eq, Structural)]
pub enum HttpMethod {
    Get,
    Post,
    Put,
    Patch,
    Delete,
}

impl Default for HttpMethod {
    fn default() -> (m: Self)
        ensures
            m == HttpMethod::Get,
    {
        HttpMethod::Get
    }
}

/// Errors during function execution
#[derive(Debug)]
pub enum FunctionError {
    RestError(String),
    ShellError(String),
    WebsocketError(String),
    GrpcError(String),
    Timeout(u64),
    NotFound(String),
}

/// Function type configuration
#[derive(Debug, Clone)]
pub enum FunctionType {
    /// HTTP REST call
    Rest {
        method: HttpMethod,
        url: String,
        headers: StrMap<String>,
        body: Option<JsonValue>,
        timeout: u64,
    },
    /// Shell command execution
    Shell {
        command: String,
        args: Vec<String>,
        env: StrMap<String>,
        cwd: Option<String>,
        timeout: u64,
    },
    /// WebSocket message
    Websocket { url: String, message: Option<JsonValue>, headers: StrMap<String> },
    /// gRPC call
    Grpc {
        address: String,
        service: String,
        method: String,
        request: Option<JsonValue>,
        timeout: u64,
    },
}

/// Seconds a function may take unless configured otherwise.
pub fn default_timeout() -> (n: u64)
    ensures
        n == 30,
{
    30
}

/// Result of function execution
#[derive(Debug, Clone)]
pub struct FunctionResult {
    pub success: bool,
    pub output: Option<JsonValue>,
    pub error: Option<String>,
    pub duration_ms: u64,
}

impl FunctionResult {
    /// A successful run with its output.
    pub fn success(output: Option<JsonValue>, duration_ms: u64) -> (r: Self)
        ensures
            r.success,
            r.output == output,
            r.error is None,
            r.duration_ms == duration_ms,
    {
        FunctionResult { success: true, output, error: None, duration_ms }
    }

    /// A failed run with its error.
    pub fn failure(error: String, duration_ms: u64) -> (r: Self)
        ensures
            !r.success,
            r.output is None,
            r.error == Some(error),
            r.duration_ms == duration_ms,
    {
        FunctionResult { success: false, output: None, error: Some(error), duration_ms }
    }
}

/// `s[pos..].replace(p, r)`: each occurrence of `p`, from left to right and not
/// overlapping, replaced by `r`.
pub open spec fn replace_from(s: Seq<char>, p: Seq<char>, r: Seq<char>, pos: int) -> Seq<char>
    decreases s.len() - pos,
{
    if pos < 0 || pos >= s.len() {
        seq![]
    } else if p.len() > 0 && occurs_at(s, p, pos) {
        r + replace_from(s, p, r, pos + p.len())
    } else {
        seq![s[pos]] + replace_from(s, p, r, pos + 1)
    }
}

/// The text a variable's value stands for: a string as it is, null as `null`,
/// anything else as its JSON text.
pub open spec fn value_text(v: JsonView) -> Seq<char> {
    match v {
        JsonView::String(t) => t,
        JsonView::Null => "null"@,
        other => json_text(other),
    }
}

/// `template` with `$KEY` replaced by the value of each of the first `n`
/// variables, one variable after the other.
pub open spec fn substituted(template: Seq<char>, keys: Seq<Seq<char>>, vals: Seq<JsonValue>, n: nat) -> Seq<char>
    decreases n,
{
    if n == 0 || n > keys.len() || n > vals.len() {
        template
    } else {
        replace_from(
            substituted(template, keys, vals, (n - 1) as nat),
            seq!['$'] + keys[n - 1],
            value_text(vals[n - 1]@),
            0,
        )
    }
}

fn replace_all(s: &Vec<char>, p: &Vec<char>, r: &Vec<char>) -> (out: Vec<char>)
    requires
        p@.len() > 0,
    ensures
        out@ == replace_from(s@, p@, r@, 0),
{
    let mut out: Vec<char> = Vec::new();
    let mut pos: usize = 0;
    let n = s.len();
    while pos < n
        invariant
            n == s@.len(),
            pos <= n,
            p@.len() > 0,
            replace_from(s@, p@, r@, 0) == out@ + replace_from(s@, p@, r@, pos as int),
        decreases n - pos,
    {
        if occurs_at_exec(s, p, pos) {
            push_all(&mut out, r);
            pos = pos + p.len();
        } else {
            out.push(s[pos]);
            pos = pos + 1;
        }
    }
    assert(replace_from(s@, p@, r@, pos as int) =~= Seq::<char>::empty());
    assert(out@ =~= replace_from(s@, p@, r@, 0));
    out
}

/// Substitute variables in a template string: each `$KEY` becomes the variable's
/// value, the variables taken in order.
pub fn substitute_variables(template: &str, variables: &StrMap<JsonValue>) -> (r: String)
    ensures
        r@ == substituted(template@, variables.key_seq(), variables.val_seq(), variables.key_seq().len()),
{
    let mut cur = chars_of(template);
    let n = variables.len();
    for i in 0..n
        invariant
            n == variables.key_seq().len(),
            n == variables.val_seq().len(),
            cur@ == substituted(template@, variables.key_seq(), variables.val_seq(), i as nat),
    {
        let k = variables.key_at(i);
        let v = variables.val_at(i);
        let mut pat: Vec<char> = Vec::new();
        pat.push('$');
        push_str(&mut pat, k.as_str());
        let mut rep: Vec<char> = Vec::new();
        match v {
            JsonValue::String(t) => push_str(&mut rep, t.as_str()),
            JsonValue::Null => push_str(&mut rep, "null"),
            other => push_json(&mut rep, other),
        }
        assert(rep@ =~= value_text(variables.val_seq()[i as int]@));
        cur = replace_all(&cur, &pat, &rep);
    }
    string_of(&cur)
}

/// The values of a string map with the variables substituted into each.
pub fn substitute_variables_in_map(map: &StrMap<String>, variables: &StrMap<JsonValue>) -> (r: StrMap<String>)
    ensures
        string_map_view(r@) == Map::new(
            |k: Seq<char>| map@.contains_key(k),
            |k: Seq<char>| substituted(map@[k]@, variables.key_seq(), variables.val_seq(), variables.key_seq().len()),
        ),
{
    let ghost ks = map.key_seq();
    let ghost want = Map::new(
        |k: Seq<char>| map@.contains_key(k),
        |k: Seq<char>| substituted(map@[k]@, variables.key_seq(), variables.val_seq(), variables.key_seq().len()),
    );
    let n = map.len();
    let mut out: StrMap<String> = StrMap::new();
    for i in 0..n
        invariant
            n == ks.len(),
            ks == map.key_seq(),
            ks.no_duplicates(),
            map@.dom() == ks.to_set(),
            forall|j: int| 0 <= j < ks.len() ==> map@.contains_key(#[trigger] ks[j]) && map@[ks[j]]
                == map.val_seq()[j],
            string_map_view(out@) == want.restrict(first_keys(ks, i as int)),
            want == Map::new(
                |k: Seq<char>| map@.contains_key(k),
                |k: Seq<char>| substituted(
                    map@[k]@,
                    variables.key_seq(),
                    variables.val_seq(),
                    variables.key_seq().len(),
                ),
            ),
    {
        let k = map.key_at(i);
        let v = map.val_at(i);
        let ghost before = out@;
        let sv = substitute_variables(v.as_str(), variables);
        let kc = k.clone();
        let _ = out.insert(kc, sv);
        proof {
            assert(string_map_view(out@) =~= string_map_view(before).insert(ks[i as int], sv@));
            assert(first_keys(ks, i + 1) =~= first_keys(ks, i as int).insert(ks[i as int]));
            assert(*v == map@[ks[i as int]]);
            assert(want.contains_key(ks[i as int]));
            assert(want[ks[i as int]] == sv@);
            assert(string_map_view(out@) =~= want.restrict(first_keys(ks, i + 1)));
        }
    }
    proof {
        assert(first_keys(ks, n as int) =~= ks.to_set());
        assert(string_map_view(out@) =~= want);
    }
    out
}

/// A JSON value with the variables substituted into its strings and its objects' keys.
pub open spec fn vars_json(v: JsonView, keys: Seq<Seq<char>>, vals: Seq<JsonValue>) -> JsonView
    decreases v,
{
    match v {
        JsonView::String(t) => JsonView::String(substituted(t, keys, vals, keys.len())),
        JsonView::Array(a) => JsonView::Array(
            Seq::new(
                a.len(),
                |i: int|
                    if 0 <= i < a.len() {
                        vars_json(a[i], keys, vals)
                    } else {
                        JsonView::Null
                    },
            ),
        ),
        JsonView::Object(es) => JsonView::Object(
            Seq::new(
                es.len(),
                |i: int|
                    if 0 <= i < es.len() {
                        (substituted(es[i].0, keys, vals, keys.len()), vars_json(es[i].1, keys, vals))
                    } else {
                        (Seq::empty(), JsonView::Null)
                    },
            ),
        ),
        other => other,
    }
}

/// Substitute variables in a JSON value recursively
#[verifier::loop_isolation(false)]
pub fn substitute_variables_in_value(value: &JsonValue, variables: &StrMap<JsonValue>) -> (r: JsonValue)
    ensures
        r@ == vars_json(value@, variables.key_seq(), variables.val_seq()),
    decreases value,
{
    let ghost ks = variables.key_seq();
    let ghost vs = variables.val_seq();
    let _ = variables.len();
    match value {
        JsonValue::String(t) => JsonValue::String(substitute_variables(t.as_str(), variables)),
        JsonValue::Array(a) => {
            let mut out: Vec<JsonValue> = Vec::new();
            let n = a.len();
            for i in 0..n
                invariant
                    n == a@.len(),
                    out@.len() == i,
                    forall|j: int| 0 <= j < i ==> #[trigger] out@[j]@ == vars_json(a@[j]@, ks, vs),
            {
                proof {
                    assert(decreases_to!(*value => (*value)->Array_0));
                    assert(decreases_to!(*a => a@));
                    assert(decreases_to!(a@ => a@[i as int]));
                }
                out.push(substitute_variables_in_value(&a[i], variables));
            }
            let r = JsonValue::Array(out);
            assert(r@ == vars_json(value@, ks, vs)) by {
                let want = vars_json(value@, ks, vs);
                assert forall|j: int| 0 <= j < n implies r@->Array_0[j] == want->Array_0[j] by {
                    assert(out@[j]@ == vars_json(a@[j]@, ks, vs));
                    assert(value@->Array_0[j] == a@[j]@);
                }
                assert(r@->Array_0 =~= want->Array_0);
            }
            r
        },
        JsonValue::Object(es) => {
            let mut out: Vec<(String, JsonValue)> = Vec::new();
            let n = es.len();
            for i in 0..n
                invariant
                    n == es@.len(),
                    out@.len() == i,
                    forall|j: int|
                        0 <= j < i ==> (#[trigger] out@[j]).0@ == substituted(es@[j].0@, ks, vs, ks.len())
                            && out@[j].1@ == vars_json(es@[j].1@, ks, vs),
            {
                proof {
                    assert(decreases_to!(*value => (*value)->Object_0));
                    assert(decreases_to!(*es => es@));
                    assert(decreases_to!(es@ => es@[i as int]));
                    assert(decreases_to!(es@[i as int] => es@[i as int].1));
                }
                let k = substitute_variables(es[i].0.as_str(), variables);
                let x = substitute_variables_in_value(&es[i].1, variables);
                out.push((k, x));
            }
            let r = JsonValue::Object(out);
            assert(r@ == vars_json(value@, ks, vs)) by {
                let want = vars_json(value@, ks, vs);
                assert forall|j: int| 0 <= j < n implies r@->Object_0[j] == want->Object_0[j] by {
                    assert(value@->Object_0[j] == (es@[j].0@, es@[j].1@));
                }
                assert(r@->Object_0 =~= want->Object_0);
            }
            r
        },
        JsonValue::Null => JsonValue::Null,
        JsonValue::Bool(b) => JsonValue::Bool(*b),
        JsonValue::Number(t) => JsonValue::Number(t.clone()),
    }
}

/// A template with the variables substituted, then the secrets.
pub fn substitute_all(secrets: &SecretsManager, template: &str, variables: &StrMap<JsonValue>) -> (r: String)
    ensures
        r@ == subst_from(
            substituted(template@, variables.key_seq(), variables.val_seq(), variables.key_seq().len()),
            0,
            secrets.stored(),
        ),
{
    let with_vars = substitute_variables(template, variables);
    secrets.substitute(with_vars.as_str())
}

/// A JSON value with the variables substituted, then the secrets.
pub fn substitute_all_value(secrets: &SecretsManager, value: &JsonValue, variables: &StrMap<JsonValue>) -> (r: JsonValue)
    ensures
        r@ == subst_json(vars_json(value@, variables.key_seq(), variables.val_seq()), secrets.stored()),
{
    let with_vars = substitute_variables_in_value(value, variables);
    secrets.substitute_value(&with_vars)
}

} // verus!
