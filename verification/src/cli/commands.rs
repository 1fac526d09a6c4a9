//! Context commands of the command-line interface.
use vstd::prelude::*;

use crate::context::{
    add_context, http_url, opt_view, remove_context, set_current_context, Config, Context,
    ContextError,
};
use crate::text::{
    chars_of, lemma_lex_refl, lemma_lex_total, lemma_lex_trans, lex_le, lex_le_exec, push_decimal,
    push_str, str_eq, string_of,
};

verus! {

/// Declaration of `reqwest::Error` for use in signatures.
#[verifier::external_type_specification]
#[verifier::external_body]
pub struct ExReqwestError(reqwest::Error);

/// Declaration of `serde_json::Error` for use in signatures.
#[verifier::external_type_specification]
#[verifier::external_body]
pub struct ExJsonError(serde_json::Error);

/// Errors that can occur during command execution
#[derive(Debug)]
pub enum CommandError {
    Context(ContextError),
    Config(String),
    Http(reqwest::Error),
    Io(std::io::Error),
    Json(serde_json::Error),
    Server(String),
    NotConnected,
}

/// Info about a context for display
#[derive(Debug, Clone)]
pub struct ContextInfo {
    pub name: String,
    pub url: String,
    pub is_current: bool,
}

/// Result of validating a composition
#[derive(Debug)]
pub struct ValidationResult {
    pub valid: bool,
    pub models: usize,
    pub nodes: usize,
    pub error: Option<String>,
}

/// A listed context as plain values: name, URL, whether it is the current one.
pub open spec fn info_view(c: ContextInfo) -> (Seq<char>, Seq<char>, bool) {
    (c.name@, c.url@, c.is_current)
}

/// The views of a list of context infos.
pub open spec fn info_views(s: Seq<ContextInfo>) -> Seq<(Seq<char>, Seq<char>, bool)> {
    Seq::new(s.len(), |i: int| info_view(s[i]))
}

/// The listing of configured context `name`.
pub open spec fn configured_info(config: Config, name: Seq<char>) -> (Seq<char>, Seq<char>, bool) {
    (name, config.contexts@[name].url@, opt_view(config.current_context) == Some(name))
}

/// The listing of the built-in "local" context, which is current when nothing else is.
pub open spec fn local_info(config: Config) -> (Seq<char>, Seq<char>, bool) {
    (
        "local"@,
        http_url(config.local.bind_addr@, config.local.port as nat),
        config.current_context is None || opt_view(config.current_context) == Some("local"@),
    )
}

/// Every context that `context_list` shows: the configured ones and the built-in "local".
pub open spec fn listed_infos(config: Config) -> Seq<(Seq<char>, Seq<char>, bool)> {
    Seq::new(
        config.contexts.key_seq().len(),
        |i: int| configured_info(config, config.contexts.key_seq()[i]),
    ).push(local_info(config))
}

/// A listing sorted by name.
pub open spec fn sorted_by_name(s: Seq<(Seq<char>, Seq<char>, bool)>) -> bool {
    forall|i: int, j: int| 0 <= i < j < s.len() ==> lex_le(#[trigger] s[i].0, #[trigger] s[j].0)
}

/// The listing entry for the configured context at position `i`.
fn configured_entry(config: &Config, i: usize) -> (c: ContextInfo)
    requires
        i < config.contexts.key_seq().len(),
    ensures
        info_view(c) == configured_info(*config, config.contexts.key_seq()[i as int]),
{
    let n = config.contexts.len();
    let name = config.contexts.key_at(i);
    let ctx = config.contexts.val_at(i);
    let is_current = match &config.current_context {
        Some(cur) => str_eq(cur.as_str(), name.as_str()),
        None => false,
    };
    ContextInfo { name: name.clone(), url: ctx.url.clone(), is_current }
}

/// Inserts `e` into the sorted list `out` after every entry whose name is not greater.
fn insert_sorted(out: &mut Vec<ContextInfo>, e: ContextInfo) -> (p: usize)
    requires
        sorted_by_name(info_views(old(out)@)),
    ensures
        p <= old(out)@.len(),
        final(out)@ == old(out)@.insert(p as int, e),
        sorted_by_name(info_views(final(out)@)),
        forall|k: int| 0 <= k < p ==> lex_le(#[trigger] old(out)@[k].name@, e.name@),
        forall|k: int| p <= k < old(out)@.len() ==> !lex_le(#[trigger] old(out)@[k].name@, e.name@),
{
    let ghost s = info_views(out@);
    let key = chars_of(e.name.as_str());
    let n = out.len();
    let mut p: usize = 0;
    while p < n
        invariant
            n == out@.len(),
            p <= n,
            s == info_views(out@),
            key@ == e.name@,
            sorted_by_name(s),
            forall|k: int| 0 <= k < p ==> lex_le(#[trigger] out@[k].name@, e.name@),
        ensures
            p <= n,
            forall|k: int| 0 <= k < p ==> lex_le(#[trigger] out@[k].name@, e.name@),
            p < n ==> !lex_le(out@[p as int].name@, e.name@),
        decreases n - p,
    {
        let cur = chars_of(out[p].name.as_str());
        if !lex_le_exec(&cur, &key) {
            break;
        }
        p = p + 1;
    }
    proof {
        assert forall|k: int| p <= k < n implies !lex_le(#[trigger] out@[k].name@, e.name@) by {
            if lex_le(out@[k].name@, e.name@) {
                assert(s[p as int].0 == out@[p as int].name@);
                assert(s[k].0 == out@[k].name@);
                if p < k {
                    lemma_lex_trans(out@[p as int].name@, out@[k].name@, e.name@);
                }
            }
        }
    }
    let ghost before = out@;
    out.insert(p, e);
    proof {
        let t = info_views(out@);
        assert forall|i: int, j: int| 0 <= i < j < t.len() implies lex_le(
            #[trigger] t[i].0,
            #[trigger] t[j].0,
        ) by {
            assert(t[i].0 == out@[i].name@);
            assert(t[j].0 == out@[j].name@);
            if j < p {
                assert(s[i].0 == before[i].name@ && s[j].0 == before[j].name@);
            } else if j == p {
                assert(out@[i] == before[i]);
            } else if i < p {
                assert(out@[i] == before[i]);
                assert(out@[j] == before[j - 1]);
                lemma_lex_total(before[j - 1].name@, e.name@);
                lemma_lex_trans(before[i].name@, e.name@, before[j - 1].name@);
            } else if i == p {
                assert(out@[j] == before[j - 1]);
                lemma_lex_total(before[j - 1].name@, e.name@);
            } else {
                assert(s[i - 1].0 == before[i - 1].name@ && s[j - 1].0 == before[j - 1].name@);
            }
        }
    }
    p
}

/// List all contexts, sorted by name, with the built-in "local" context among them.
pub fn context_list(config: &Config) -> (r: Vec<ContextInfo>)
    ensures
        info_views(r@).to_multiset() == listed_infos(*config).to_multiset(),
        sorted_by_name(info_views(r@)),
        forall|i: int, j: int|
            0 <= i < j < r@.len() && r@[i].name@ == r@[j].name@ ==> info_view(
                #[trigger] r@[j],
            ) == local_info(*config) && #[trigger] r@[i].name@ == "local"@,
{
    broadcast use vstd::seq_lib::group_to_multiset_ensures;

    let n = config.contexts.len();
    let ghost ks = config.contexts.key_seq();
    let ghost conf = Seq::new(ks.len(), |i: int| configured_info(*config, ks[i]));
    let mut out: Vec<ContextInfo> = Vec::new();
    assert(info_views(out@) =~= Seq::<(Seq<char>, Seq<char>, bool)>::empty());
    assert(conf.take(0) =~= Seq::<(Seq<char>, Seq<char>, bool)>::empty());
    for i in 0..n
        invariant
            n == ks.len(),
            ks == config.contexts.key_seq(),
            ks.no_duplicates(),
            conf == Seq::new(ks.len(), |k: int| configured_info(*config, ks[k])),
            out@.len() == i,
            info_views(out@).to_multiset() == conf.take(i as int).to_multiset(),
            sorted_by_name(info_views(out@)),
            forall|a: int, b: int| 0 <= a < b < out@.len() ==> #[trigger] out@[a].name@ != #[trigger] out@[b].name@,
            forall|a: int| 0 <= a < out@.len() ==> ks.take(i as int).contains(#[trigger] out@[a].name@),
    {
        let e = configured_entry(config, i);
        let ghost before = out@;
        let ghost ev = info_view(e);
        let p = insert_sorted(&mut out, e);
        proof {
            assert(info_views(out@) =~= info_views(before).insert(p as int, ev));
            vstd::seq_lib::to_multiset_insert(info_views(before), p as int, ev);
            assert(conf.take(i + 1) =~= conf.take(i as int).push(conf[i as int]));
            vstd::seq_lib::to_multiset_build(conf.take(i as int), conf[i as int]);
            assert(out@[p as int].name@ == ks[i as int]);
            assert(ks.take(i + 1) =~= ks.take(i as int).push(ks[i as int]));
            assert forall|a: int| 0 <= a < out@.len() implies ks.take(i + 1).contains(
                #[trigger] out@[a].name@,
            ) by {
                if a < p {
                    assert(out@[a] == before[a]);
                    assert(ks.take(i as int).contains(before[a].name@));
                } else if a > p {
                    assert(out@[a] == before[a - 1]);
                    assert(ks.take(i as int).contains(before[a - 1].name@));
                } else {
                    assert(ks.take(i + 1)[i as int] == ks[i as int]);
                }
            }
            assert forall|a: int, b: int| 0 <= a < b < out@.len() implies #[trigger] out@[a].name@
                != #[trigger] out@[b].name@ by {
                if a != p && b != p {
                    let a0 = if a < p { a } else { a - 1 };
                    let b0 = if b < p { b } else { b - 1 };
                    assert(out@[a] == before[a0]);
                    assert(out@[b] == before[b0]);
                } else {
                    let o = if a == p { b } else { a };
                    let o0 = if o < p { o } else { o - 1 };
                    assert(out@[o] == before[o0]);
                    assert(ks.take(i as int).contains(before[o0].name@));
                    let k = choose|k: int| 0 <= k < i && ks.take(i as int)[k] == before[o0].name@;
                    assert(ks[k] != ks[i as int]);
                }
            }
        }
    }
    assert(conf.take(n as int) =~= conf);
    let mut url: Vec<char> = Vec::new();
    push_str(&mut url, "http://");
    push_str(&mut url, config.local.bind_addr.as_str());
    push_str(&mut url, ":");
    push_decimal(&mut url, config.local.port as u64);
    let is_current = match &config.current_context {
        Some(cur) => str_eq(cur.as_str(), "local"),
        None => true,
    };
    let local = ContextInfo { name: String::from_str("local"), url: string_of(&url), is_current };
    let ghost before = out@;
    let ghost lv = info_view(local);
    assert(lv == local_info(*config));
    let p = insert_sorted(&mut out, local);
    proof {
        assert(info_views(out@) =~= info_views(before).insert(p as int, lv));
        vstd::seq_lib::to_multiset_insert(info_views(before), p as int, lv);
        assert(listed_infos(*config) =~= conf.push(lv));
        assert forall|i: int, j: int|
            0 <= i < j < out@.len() && out@[i].name@ == out@[j].name@ implies info_view(
            #[trigger] out@[j],
        ) == local_info(*config) && #[trigger] out@[i].name@ == "local"@ by {
            if i != p && j != p {
                let i0 = if i < p { i } else { i - 1 };
                let j0 = if j < p { j } else { j - 1 };
                assert(out@[i] == before[i0]);
                assert(out@[j] == before[j0]);
            } else if i == p {
                assert(out@[j] == before[j - 1]);
                lemma_lex_refl(out@[j].name@);
            }
        }
    }
    out
}

/// Get current context name and URL
pub fn context_current(config: &Config) -> (r: Result<(String, String), CommandError>)
    ensures
        match r {
            Ok((name, url)) => name@ == config.current_name() && (config.current_url_spec()
                == Some(url@)),
            Err(e) => config.current_url_spec() is None && (e matches CommandError::Context(
                ContextError::ContextNotFound(n),
            ) && n@ == config.current_name()),
        },
{
    let name: String = match &config.current_context {
        Some(s) => s.clone(),
        None => String::from_str("local"),
    };
    match config.current_url() {
        Ok(url) => Ok((name, url)),
        Err(e) => Err(CommandError::Context(e)),
    }
}

/// Switch to a context
pub fn context_use(config: &mut Config, name: &str) -> (r: Result<(), CommandError>)
    ensures
        r is Ok <==> (old(config).contexts@.contains_key(name@) || crate::context::is_builtin(name@)),
        r is Ok ==> opt_view(final(config).current_context) == Some(name@),
        r matches Err(e) ==> (e matches CommandError::Context(ContextError::ContextNotFound(n))
            && n@ == name@),
        r is Err ==> final(config).current_context == old(config).current_context,
        final(config).contexts == old(config).contexts,
        final(config).local == old(config).local,
{
    match set_current_context(config, name) {
        Ok(()) => Ok(()),
        Err(e) => Err(CommandError::Context(e)),
    }
}

/// Add a new context
pub fn context_add(config: &mut Config, name: &str, url: &str, api_key: Option<&str>) -> (r: Result<
    (),
    CommandError,
>)
    ensures
        r is Ok,
        final(config).contexts@.contains_key(name@),
        final(config).contexts@ == old(config).contexts@.insert(name@, final(config).contexts@[name@]),
        final(config).contexts@[name@].name@ == name@,
        final(config).contexts@[name@].url@ == url@,
        opt_view(final(config).contexts@[name@].api_key) == match api_key {
            Some(k) => Some(k@),
            None => None,
        },
        final(config).contexts@[name@].description is None,
        final(config).current_context == old(config).current_context,
        final(config).local == old(config).local,
{
    let mut ctx = Context::new(name, url);
    match api_key {
        Some(key) => {
            ctx = ctx.with_api_key(key);
        },
        None => {},
    }
    add_context(config, ctx);
    Ok(())
}

/// Delete a context; says whether it existed.
pub fn context_delete(config: &mut Config, name: &str) -> (r: Result<bool, CommandError>)
    ensures
        r matches Ok(b) && b == old(config).contexts@.contains_key(name@),
        final(config).contexts@ == old(config).contexts@.remove(name@),
        opt_view(old(config).current_context) == Some(name@) ==> final(config).current_context is None,
        opt_view(old(config).current_context) != Some(name@) ==> final(config).current_context
            == old(config).current_context,
        final(config).local == old(config).local,
{
    let removed = remove_context(config, name);
    Ok(removed.is_some())
}

/// Where the control plane of the current context is reached.
#[derive(Debug, Clone)]
pub struct ControlTarget {
    /// Base URL of the control plane
    pub base_url: String,
    /// API key sent as a bearer token, if the context has one
    pub api_key: Option<String>,
}

/// The API key of the current context, when it is a configured context with one.
pub open spec fn current_api_key(config: Config) -> Option<Seq<char>> {
    match config.current_context {
        Some(n) => if config.contexts@.contains_key(n@) {
            opt_view(config.contexts@[n@].api_key)
        } else {
            None
        },
        None => None,
    }
}

/// The control plane of the current context: its URL and API key; an error when
/// the current context is unknown.
pub fn control_target(config: &Config) -> (r: Result<ControlTarget, CommandError>)
    ensures
        match config.current_url_spec() {
            Some(u) => r matches Ok(t) && t.base_url@ == u && opt_view(t.api_key) == current_api_key(*config),
            None => r matches Err(CommandError::Context(ContextError::ContextNotFound(n))) && n@
                == config.current_name(),
        },
{
    let url = match config.current_url() {
        Ok(u) => u,
        Err(e) => return Err(CommandError::Context(e)),
    };
    let api_key = match &config.current_context {
        Some(n) => match config.contexts.get(n.as_str()) {
            Some(ctx) => match &ctx.api_key {
                Some(k) => Some(k.clone()),
                None => None,
            },
            None => None,
        },
        None => None,
    };
    Ok(ControlTarget { base_url: url, api_key })
}

/// The API path of a pipeline list: all pipelines, or those of one namespace.
pub fn pipelines_path(namespace: Option<&str>) -> (p: String)
    ensures
        p@ == match namespace {
            Some(ns) => "/v1/namespaces/"@ + ns@ + "/pipelines"@,
            None => "/v1/pipelines"@,
        },
{
    match namespace {
        Some(ns) => {
            let mut v: Vec<char> = Vec::new();
            push_str(&mut v, "/v1/namespaces/");
            push_str(&mut v, ns);
            push_str(&mut v, "/pipelines");
            string_of(&v)
        },
        None => String::from_str("/v1/pipelines"),
    }
}

/// The API path of one pipeline.
pub fn pipeline_path(namespace: &str, name: &str) -> (p: String)
    ensures
        p@ == "/v1/namespaces/"@ + namespace@ + "/pipelines/"@ + name@,
{
    let mut v: Vec<char> = Vec::new();
    push_str(&mut v, "/v1/namespaces/");
    push_str(&mut v, namespace);
    push_str(&mut v, "/pipelines/");
    push_str(&mut v, name);
    string_of(&v)
}

/// The error a failed control-plane answer reports: its `error` text, else
/// "Unknown error".
pub fn server_error_message(body: &crate::json::JsonValue) -> (m: String)
    ensures
        m@ == match crate::cli::display::member(body@, "error"@) {
            Some(crate::json::JsonView::String(t)) => t,
            _ => "Unknown error"@,
        },
{
    match crate::cli::display::json_field(body, "error") {
        Some(crate::json::JsonValue::String(t)) => t.clone(),
        _ => String::from_str("Unknown error"),
    }
}

} // verus!
