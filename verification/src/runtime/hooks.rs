//! Hooks around node processing: which hook runs next, with what variables, and
//! what its outcome does to the data.
//!
//! The caller runs the functions; an observe hook is started without waiting,
//! a transform hook's outcome is handed back to `after_transform`.
use vstd::prelude::*;

use crate::config::architecture::{FailureAction, HookConfig, HookMode};
use crate::config::composition::{first_from, lemma_first_from};
use crate::config::functions::{FunctionResult, FunctionType};
use crate::json::{
    copy_json, entry_of, entry_views, is_truthy, object_get, truthy, JsonValue, JsonView,
};
use crate::runtime::node::{split_in_two_exec, trim_char, trim_char_exec};
use crate::strmap::StrMap;
use crate::text::{
    chars_eq, chars_of, contains, contains_exec, find_char, has_char, has_char_exec,
    is_ws, lead_ws, lemma_find_char, occurs_at, push_str, slice_chars, string_of, trail_ws, trim,
    trim_chars,
};
use crate::runtime::node::{is_first_occ, split_in_two};

verus! {

/// Errors during hook execution
#[derive(Debug)]
pub enum HookError {
    FunctionNotFound(String),
    ExecutionFailed(String),
    Aborted(String),
    ConditionError(String),
}

/// Hook execution context with variables
#[derive(Debug, Clone)]
pub struct HookContext {
    pub node_name: String,
    pub prev_node: Option<String>,
    pub request_id: String,
    /// When the context was made, as RFC 3339 text
    pub timestamp: String,
    pub custom_vars: StrMap<JsonValue>,
}

/// The content of a map of variables.
pub open spec fn var_views(m: Map<Seq<char>, JsonValue>) -> Map<Seq<char>, JsonView> {
    Map::new(|k: Seq<char>| m.contains_key(k), |k: Seq<char>| m[k]@)
}

/// The variables a hook function sees: NODE, REQUEST_ID, TIMESTAMP and INPUT,
/// PREV_NODE and OUTPUT when known, then the custom variables over them.
pub open spec fn hook_variables(ctx: HookContext, input: JsonView, output: Option<JsonView>) -> Map<Seq<char>, JsonView> {
    let m = Map::<Seq<char>, JsonView>::empty().insert("NODE"@, JsonView::String(ctx.node_name@)).insert(
        "REQUEST_ID"@,
        JsonView::String(ctx.request_id@),
    ).insert("TIMESTAMP"@, JsonView::String(ctx.timestamp@)).insert("INPUT"@, input);
    let m = match ctx.prev_node {
        Some(p) => m.insert("PREV_NODE"@, JsonView::String(p@)),
        None => m,
    };
    let m = match output {
        Some(o) => m.insert("OUTPUT"@, o),
        None => m,
    };
    m.union_prefer_right(var_views(ctx.custom_vars@))
}

/// The first `i` keys of a key sequence, as a set.
pub open spec fn first_keys(ks: Seq<Seq<char>>, i: int) -> Set<Seq<char>> {
    Set::new(|k: Seq<char>| exists|j: int| 0 <= j < i && ks[j] == k)
}

impl HookContext {
    /// A context for `node_name` and `request_id`, made at `timestamp`.
    pub fn new(node_name: &str, request_id: &str, timestamp: &str) -> (c: Self)
        ensures
            c.node_name@ == node_name@,
            c.prev_node is None,
            c.request_id@ == request_id@,
            c.timestamp@ == timestamp@,
            c.custom_vars@ == Map::<Seq<char>, JsonValue>::empty(),
    {
        HookContext {
            node_name: String::from_str(node_name),
            prev_node: None,
            request_id: String::from_str(request_id),
            timestamp: String::from_str(timestamp),
            custom_vars: StrMap::new(),
        }
    }

    /// Build variables map for function execution
    pub fn build_variables(&self, input: &JsonValue, output: Option<&JsonValue>) -> (r: StrMap<JsonValue>)
        ensures
            var_views(r@) == hook_variables(
                *self,
                input@,
                match output {
                    Some(o) => Some(o@),
                    None => None,
                },
            ),
    {
        let mut vars: StrMap<JsonValue> = StrMap::new();
        let _ = vars.insert(String::from_str("NODE"), JsonValue::String(self.node_name.clone()));
        let _ = vars.insert(String::from_str("REQUEST_ID"), JsonValue::String(self.request_id.clone()));
        let _ = vars.insert(String::from_str("TIMESTAMP"), JsonValue::String(self.timestamp.clone()));
        let _ = vars.insert(String::from_str("INPUT"), copy_json(input));
        match &self.prev_node {
            Some(p) => {
                let _ = vars.insert(String::from_str("PREV_NODE"), JsonValue::String(p.clone()));
            },
            None => {},
        }
        match output {
            Some(o) => {
                let _ = vars.insert(String::from_str("OUTPUT"), copy_json(o));
            },
            None => {},
        }
        let ghost base = var_views(vars@);
        let n = self.custom_vars.len();
        let ghost ks = self.custom_vars.key_seq();
        for i in 0..n
            invariant
                n == ks.len(),
                ks == self.custom_vars.key_seq(),
                forall|j: int| 0 <= j < ks.len() ==> self.custom_vars@.contains_key(#[trigger] ks[j])
                    && self.custom_vars@[ks[j]] == self.custom_vars.val_seq()[j],
                self.custom_vars@.dom() == ks.to_set(),
                var_views(vars@) == base.union_prefer_right(
                    var_views(self.custom_vars@).restrict(first_keys(ks, i as int)),
                ),
        {
            let k = self.custom_vars.key_at(i);
            let v = self.custom_vars.val_at(i);
            let ghost before = vars@;
            let c = copy_json(v);
            let ghost cv = c;
            let key = k.clone();
            let _ = vars.insert(key, c);
            proof {
                assert(vars@ == before.insert(ks[i as int], cv));
                assert(var_views(vars@) =~= var_views(before).insert(ks[i as int], v@));
                assert(var_views(self.custom_vars@)[ks[i as int]] == v@);
                assert(first_keys(ks, i + 1) =~= first_keys(ks, i as int).insert(ks[i as int]));
                assert(var_views(vars@) =~= base.union_prefer_right(
                    var_views(self.custom_vars@).restrict(first_keys(ks, i + 1)),
                ));
            }
        }
        proof {
            assert(first_keys(ks, n as int) =~= ks.to_set());
            assert(var_views(self.custom_vars@).restrict(first_keys(ks, n as int)) =~= var_views(self.custom_vars@));
            assert(var_views(vars@) =~= hook_variables(
                *self,
                input@,
                match output {
                    Some(o) => Some(o@),
                    None => None,
                },
            ));
        }
        vars
    }
}

/// `s.split(c)`: the parts between occurrences of `c`.
pub open spec fn split_on(s: Seq<char>, c: char) -> Seq<Seq<char>>
    decreases s.len(),
{
    let i = find_char(s, c);
    if i >= s.len() {
        seq![s]
    } else {
        seq![s.take(i as int)] + split_on(s.skip((i + 1) as int), c)
    }
}

fn split_on_exec(s: &Vec<char>, c: char) -> (r: Vec<Vec<char>>)
    ensures
        crate::text::views(r@) == split_on(s@, c),
    decreases s@.len(),
{
    let i = crate::text::find_char_exec(s, c);
    let n = s.len();
    if i >= n {
        let mut r: Vec<Vec<char>> = Vec::new();
        r.push(slice_chars(s, 0, n));
        assert(s@.subrange(0, n as int) =~= s@);
        assert(crate::text::views(r@) =~= seq![s@]);
        r
    } else {
        let head = slice_chars(s, 0, i);
        let rest = slice_chars(s, i + 1, n);
        assert(rest@ =~= s@.skip(i + 1));
        assert(head@ =~= s@.take(i as int));
        let tail = split_on_exec(&rest, c);
        let mut r: Vec<Vec<char>> = Vec::new();
        r.push(head);
        let m = tail.len();
        for k in 0..m
            invariant
                m == tail@.len(),
                crate::text::views(r@) == seq![s@.take(i as int)] + crate::text::views(tail@).take(k as int),
        {
            let part = slice_chars(&tail[k], 0, tail[k].len());
            assert(part@ =~= tail@[k as int]@);
            let ghost prev = crate::text::views(r@);
            r.push(part);
            assert(crate::text::views(r@) =~= prev.push(tail@[k as int]@));
            assert(crate::text::views(tail@).take(k + 1) =~= crate::text::views(tail@).take(k as int).push(
                tail@[k as int]@,
            ));
            assert(crate::text::views(r@) =~= seq![s@.take(i as int)] + crate::text::views(tail@).take(k + 1));
        }
        assert(crate::text::views(tail@).take(m as int) =~= crate::text::views(tail@));
        r
    }
}

/// A variable's content, if it is set.
pub open spec fn lookup_view(vars: Map<Seq<char>, JsonView>, k: Seq<char>) -> Option<JsonView> {
    if vars.contains_key(k) {
        Some(vars[k])
    } else {
        None
    }
}

/// Follows a path of object keys from a value.
pub open spec fn follow(cur: Option<JsonView>, rest: Seq<Seq<char>>) -> Option<JsonView>
    decreases rest.len(),
{
    if rest.len() == 0 {
        cur
    } else {
        match cur {
            Some(JsonView::Object(es)) => follow(entry_of(es, rest[0]), rest.drop_first()),
            _ => None,
        }
    }
}

/// How a value compares to the text of a condition: strings by text, booleans
/// against `true`/`false`, numbers by their printed text; other values and
/// missing ones do not compare.
pub open spec fn equals_text(v: Option<JsonView>, right: Seq<char>) -> Option<bool> {
    match v {
        Some(JsonView::String(s)) => Some(s == right),
        Some(JsonView::Bool(b)) => Some((right == "true"@ && b) || (right == "false"@ && !b)),
        Some(JsonView::Number(n)) => Some(n == right),
        _ => None,
    }
}

/// The variable and value text of a `$VAR <op> value` condition, the value
/// stripped of whitespace, double quotes and single quotes.
pub open spec fn compare_parts(c: Seq<char>, op: Seq<char>) -> Option<(Seq<char>, Seq<char>)> {
    match split_in_two(c, op) {
        Some((a, b)) => {
            let left = trim(a);
            if left.len() > 0 && left[0] == '$' {
                Some((left.skip(1), trim_char(trim_char(trim(b), '"'), '\'')))
            } else {
                None
            }
        },
        None => None,
    }
}

/// Whether a hook condition holds for the variables: `$VAR` or `$VAR.a.b` is set
/// to a truthy value, `$VAR == value` compares equal, `$VAR != value` does not
/// compare equal (a missing or other value differs from everything), and any
/// other non-empty text holds.
pub open spec fn hook_condition(c: Seq<char>, vars: Map<Seq<char>, JsonView>) -> bool {
    if c.len() > 0 && c[0] == '$' && !has_char(c, ' ') {
        let parts = split_on(c.skip(1), '.');
        match follow(lookup_view(vars, parts[0]), parts.drop_first()) {
            Some(v) => truthy(v),
            None => false,
        }
    } else if contains(c, "=="@) {
        match compare_parts(c, "=="@) {
            Some((n, right)) => match equals_text(lookup_view(vars, n), right) {
                Some(x) => x,
                None => false,
            },
            None => false,
        }
    } else if contains(c, "!="@) {
        match compare_parts(c, "!="@) {
            Some((n, right)) => match equals_text(lookup_view(vars, n), right) {
                Some(x) => !x,
                None => true,
            },
            None => false,
        }
    } else {
        c.len() > 0
    }
}

/// A `$VAR != value` condition holds when the variable is not set: a missing
/// variable differs from every value. `VAR` is any non-empty name without
/// whitespace, `!`, `=` or `.`, and the value any text without `!` or `=`.
pub proof fn lemma_missing_variable_differs(
    name: Seq<char>,
    value: Seq<char>,
    vars: Map<Seq<char>, JsonView>,
)
    requires
        name.len() > 0,
        forall|j: int| 0 <= j < name.len() ==> !is_ws(#[trigger] name[j]) && name[j] != '!'
            && name[j] != '=',
        forall|j: int| 0 <= j < value.len() ==> #[trigger] value[j] != '!' && value[j] != '=',
        !vars.contains_key(name),
    ensures
        hook_condition(seq!['$'] + name + seq![' ', '!', '=', ' '] + value, vars),
{
    let c = seq!['$'] + name + seq![' ', '!', '=', ' '] + value;
    let l = name.len() as int;
    let ne = "!="@;
    let eq = "=="@;
    reveal_strlit("!=");
    reveal_strlit("==");
    assert(c[0] == '$');
    assert(c[l + 1] == ' ');
    assert(has_char(c, ' '));
    assert forall|j: int| 0 <= j < c.len() && #[trigger] c[j] == '!' implies j == l + 2 by {
        if 1 <= j <= l {
            assert(c[j] == name[j - 1]);
        } else if j > l + 4 - 1 {
            assert(c[j] == value[j - l - 4]);
        }
    }
    assert forall|j: int| 0 <= j < c.len() && #[trigger] c[j] == '=' implies j == l + 3 by {
        if 1 <= j <= l {
            assert(c[j] == name[j - 1]);
        } else if j > l + 3 {
            assert(c[j] == value[j - l - 4]);
        }
    }
    assert(occurs_at(c, ne, l + 2)) by {
        assert(c.subrange(l + 2, l + 4) =~= ne);
    }
    assert forall|j: int| j != l + 2 implies !#[trigger] occurs_at(c, ne, j) by {
        if occurs_at(c, ne, j) {
            assert(c.subrange(j, j + 2)[0] == c[j]);
        }
    }
    assert(is_first_occ(c, ne, l + 2));
    assert forall|j: int| !#[trigger] occurs_at(c, eq, j) by {
        if occurs_at(c, eq, j) {
            assert(c.subrange(j, j + 2)[0] == c[j]);
            assert(c.subrange(j, j + 2)[1] == c[j + 1]);
        }
    }
    assert(!contains(c, eq));
    assert(contains(c, ne));
    let a = c.take(l + 2);
    let b = c.skip(l + 4);
    assert(split_in_two(c, ne) == Some((a, b))) by {
        let k = choose|k: int| is_first_occ(c, ne, k);
        assert(k == l + 2);
    }
    assert(lead_ws(a) == 0);
    let core = seq!['$'] + name;
    assert(a =~= core.push(' '));
    assert(a.drop_last() =~= core);
    assert(!is_ws(core.last())) by {
        assert(core.last() == name[l - 1]);
    }
    assert(a.last() == ' ');
    assert((' ' as u32) == 32);
    assert(is_ws(a.last()));
    assert(trail_ws(core) == 0);
    assert(trail_ws(a) == 1);
    assert(a.skip(0) =~= a);
    assert(trim(a) =~= core);
    assert(core.skip(1) =~= name);
}

proof fn lemma_object_view(v: JsonValue)
    requires
        v is Object,
    ensures
        v@ == JsonView::Object(entry_views(v->Object_0@)),
{
    assert(v@->Object_0 =~= entry_views(v->Object_0@));
}

/// The value of a variable, if set.
fn lookup_var<'a>(vars: &'a StrMap<JsonValue>, k: &Vec<char>) -> (r: Option<&'a JsonValue>)
    ensures
        match r {
            Some(v) => lookup_view(var_views(vars@), k@) == Some(v@),
            None => lookup_view(var_views(vars@), k@) is None,
        },
{
    let ks = string_of(k);
    vars.get(ks.as_str())
}

fn equals_text_exec(v: Option<&JsonValue>, right: &Vec<char>) -> (r: Option<bool>)
    ensures
        r == equals_text(
            match v {
                Some(x) => Some(x@),
                None => None,
            },
            right@,
        ),
{
    proof {
        reveal_strlit("true");
        reveal_strlit("false");
    }
    match v {
        Some(JsonValue::String(s)) => Some(chars_eq(&chars_of(s.as_str()), right)),
        Some(JsonValue::Bool(b)) => {
            let t = chars_eq(right, &chars_of("true"));
            let f = chars_eq(right, &chars_of("false"));
            Some((t && *b) || (f && !*b))
        },
        Some(JsonValue::Number(n)) => Some(chars_eq(&chars_of(n.as_str()), right)),
        _ => None,
    }
}

fn compare_parts_exec(c: &Vec<char>, op: &str) -> (r: Option<(Vec<char>, Vec<char>)>)
    ensures
        match r {
            Some((n, v)) => compare_parts(c@, op@) == Some((n@, v@)),
            None => compare_parts(c@, op@) is None,
        },
{
    match split_in_two_exec(c, &chars_of(op)) {
        Some((a, b)) => {
            let left = trim_chars(&a);
            if left.len() > 0 && left[0] == '$' {
                let name = slice_chars(&left, 1, left.len());
                assert(name@ =~= left@.skip(1));
                let right = trim_char_exec(&trim_char_exec(&trim_chars(&b), '"'), '\'');
                Some((name, right))
            } else {
                None
            }
        },
        None => None,
    }
}

/// Executor for hooks: the functions they may call.
#[derive(Debug, Clone)]
pub struct HookExecutor {
    pub functions: StrMap<FunctionType>,
}

impl HookExecutor {
    pub fn new(functions: StrMap<FunctionType>) -> (e: Self)
        ensures
            e.functions == functions,
    {
        HookExecutor { functions }
    }

    /// Evaluate a condition expression
    #[verifier::loop_isolation(false)]
    pub fn evaluate_condition(&self, condition: &str, variables: &StrMap<JsonValue>) -> (b: bool)
        ensures
            b == hook_condition(condition@, var_views(variables@)),
    {
        let c = chars_of(condition);
        if c.len() > 0 && c[0] == '$' && !has_char_exec(&c, ' ') {
            let path = slice_chars(&c, 1, c.len());
            assert(path@ =~= c@.skip(1));
            let parts = split_on_exec(&path, '.');
            proof {
                reveal_with_fuel(split_on, 2);
                crate::text::lemma_find_char_bounds(path@, '.');
            }
            assert(split_on(path@, '.').len() >= 1);
            assert(crate::text::views(parts@).len() == parts@.len());
            assert(parts@.len() > 0);
            let ghost pv = crate::text::views(parts@);
            let mut cur: Option<&JsonValue> = lookup_var(variables, &parts[0]);
            let np = parts.len();
            let mut i: usize = 1;
            assert(pv.skip(1) =~= pv.drop_first());
            while i < np
                invariant
                    1 <= i <= np,
                    np == parts@.len(),
                    pv == crate::text::views(parts@),
                    follow(lookup_view(var_views(variables@), pv[0]), pv.drop_first()) == follow(
                        match cur {
                            Some(x) => Some(x@),
                            None => None,
                        },
                        pv.skip(i as int),
                    ),
                decreases np - i,
            {
                proof {
                    assert(pv.skip(i as int)[0] == pv[i as int]);
                    assert(pv.skip(i as int).drop_first() =~= pv.skip(i + 1));
                }
                match cur {
                    Some(JsonValue::Object(es)) => {
                        proof {
                            lemma_object_view(*cur->0);
                        }
                        let key = string_of(&parts[i]);
                        cur = object_get(es, key.as_str());
                    },
                    _ => {
                        return false;
                    },
                }
                i = i + 1;
            }
            assert(pv.skip(np as int) =~= Seq::<Seq<char>>::empty());
            match cur {
                Some(v) => is_truthy(v),
                None => false,
            }
        } else if contains_exec(&c, &chars_of("==")) {
            match compare_parts_exec(&c, "==") {
                Some((n, right)) => match equals_text_exec(lookup_var(variables, &n), &right) {
                    Some(x) => x,
                    None => false,
                },
                None => false,
            }
        } else if contains_exec(&c, &chars_of("!=")) {
            match compare_parts_exec(&c, "!=") {
                Some((n, right)) => match equals_text_exec(lookup_var(variables, &n), &right) {
                    Some(x) => !x,
                    None => true,
                },
                None => false,
            }
        } else {
            c.len() > 0
        }
    }
}

/// What a transform does to the data: an object output is merged into object
/// data, entries of the output standing over those of the data; any other output
/// replaces the data.
pub open spec fn transformed(current: JsonView, transform: JsonView) -> JsonView {
    match (current, transform) {
        (JsonView::Object(a), JsonView::Object(b)) => JsonView::Object(a + b),
        _ => transform,
    }
}

/// What to do next with the hooks of a node.
#[derive(Debug)]
pub enum HookStep<'a> {
    /// Every hook has been considered; the data is the result.
    Done,
    /// Run the hook at `index`: call `function` with `variables`, in the hook's mode.
    Run { index: usize, mode: HookMode, function: &'a FunctionType, variables: StrMap<JsonValue> },
}

/// The variables the hooks of a run see.
pub open spec fn step_variables(context: HookContext, data: JsonView, input: Option<JsonView>) -> Map<Seq<char>, JsonView> {
    hook_variables(
        context,
        match input {
            Some(i) => i,
            None => data,
        },
        Some(data),
    )
}

/// The hooks whose condition holds (or who have none).
pub open spec fn hook_applies(hooks: Seq<HookConfig>, vars: Map<Seq<char>, JsonView>) -> spec_fn(int) -> bool {
    |j: int| match hooks[j].condition {
        Some(c) => hook_condition(c@, vars),
        None => true,
    }
}

/// The text of a failed function's error.
pub open spec fn error_text(e: Option<String>) -> Seq<char> {
    match e {
        Some(s) => s@,
        None => "Unknown error"@,
    }
}

impl HookExecutor {
    /// Apply transform output to data: objects merge, anything else replaces.
    pub fn apply_transform(&self, current: JsonValue, transform: JsonValue) -> (r: JsonValue)
        ensures
            r@ == transformed(current@, transform@),
    {
        match (current, transform) {
            (JsonValue::Object(a), JsonValue::Object(b)) => {
                let ghost av = entry_views(a@);
                let ghost bv = entry_views(b@);
                proof {
                    lemma_object_view(JsonValue::Object(a));
                    lemma_object_view(JsonValue::Object(b));
                }
                let mut out = a;
                let n = b.len();
                for i in 0..n
                    invariant
                        n == b@.len(),
                        bv == entry_views(b@),
                        entry_views(out@) == av + bv.take(i as int),
                {
                    let k = b[i].0.clone();
                    let v = copy_json(&b[i].1);
                    let ghost prev = out@;
                    out.push((k, v));
                    assert(entry_views(out@) =~= entry_views(prev).push(bv[i as int]));
                    assert(bv.take(i + 1) =~= bv.take(i as int).push(bv[i as int]));
                }
                assert(bv.take(n as int) =~= bv);
                let r = JsonValue::Object(out);
                proof {
                    lemma_object_view(r);
                }
                r
            },
            (_, t) => t,
        }
    }
}

impl HookExecutor {
    /// The next hook to run from position `start` on: hooks whose condition does
    /// not hold are passed over; the first other one runs, unless its function is
    /// not defined.
    #[verifier::loop_isolation(false)]
    pub fn next_hook<'a>(
        &'a self,
        hooks: &Vec<HookConfig>,
        start: usize,
        data: &JsonValue,
        input_for_context: Option<&JsonValue>,
        context: &HookContext,
    ) -> (r: Result<HookStep<'a>, HookError>)
        ensures
            ({
                let vars = step_variables(
                    *context,
                    data@,
                    match input_for_context {
                        Some(i) => Some(i@),
                        None => None,
                    },
                );
                match first_from(start as int, hooks@.len() as int, hook_applies(hooks@, vars)) {
                    None => r matches Ok(HookStep::Done),
                    Some(j) => {
                        let name = hooks@[j].function@;
                        if self.functions@.contains_key(name) {
                            r matches Ok(HookStep::Run { index, mode, function, variables }) && index == j
                                && mode == hooks@[j].mode && *function == self.functions@[name]
                                && var_views(variables@) == vars
                        } else {
                            r matches Err(HookError::FunctionNotFound(f)) && f@ == name
                        }
                    },
                }
            }),
    {
        let ctx_input: &JsonValue = match input_for_context {
            Some(i) => i,
            None => data,
        };
        let vars = context.build_variables(ctx_input, Some(data));
        let ghost vv = var_views(vars@);
        let ghost p = hook_applies(hooks@, vv);
        let n = hooks.len();
        if start >= n {
            assert(first_from(start as int, n as int, p) is None);
            return Ok(HookStep::Done);
        }
        let mut j = start;
        while j < n
            invariant
                start <= j <= n,
                n == hooks@.len(),
                p == hook_applies(hooks@, vv),
                vv == var_views(vars@),
                forall|x: int| start <= x < j ==> !#[trigger] p(x),
            decreases n - j,
        {
            let hook = &hooks[j];
            let applies = match &hook.condition {
                Some(c) => self.evaluate_condition(c.as_str(), &vars),
                None => true,
            };
            if applies {
                proof {
                    lemma_first_from(start as int, n as int, p, j as int);
                }
                match self.functions.get(hook.function.as_str()) {
                    Some(f) => {
                        return Ok(HookStep::Run { index: j, mode: hook.mode, function: f, variables: vars });
                    },
                    None => {
                        return Err(HookError::FunctionNotFound(hook.function.clone()));
                    },
                }
            }
            j = j + 1;
        }
        proof {
            lemma_first_from(start as int, n as int, p, n as int);
        }
        Ok(HookStep::Done)
    }

    /// What a transform hook's outcome does: an executor error fails the hooks,
    /// a successful run transforms the data with its output, a failed run is
    /// passed over or aborts, as the hook says.
    pub fn after_transform(&self, hook: &HookConfig, data: JsonValue, outcome: Result<FunctionResult, String>) -> (r: Result<JsonValue, HookError>)
        ensures
            match outcome {
                Err(e) => r matches Err(HookError::ExecutionFailed(m)) && m@ == e@,
                Ok(res) => if res.success {
                    r matches Ok(v) && v@ == match res.output {
                        Some(o) => transformed(data@, o@),
                        None => data@,
                    }
                } else {
                    match hook.on_failure {
                        FailureAction::Continue => r matches Ok(v) && v@ == data@,
                        FailureAction::Abort => r matches Err(HookError::Aborted(m)) && m@ == "Hook '"@
                            + hook.function@ + "' failed: "@ + error_text(res.error),
                    }
                },
            },
    {
        match outcome {
            Err(e) => Err(HookError::ExecutionFailed(e)),
            Ok(res) => {
                if res.success {
                    match res.output {
                        Some(o) => Ok(self.apply_transform(data, o)),
                        None => Ok(data),
                    }
                } else {
                    match hook.on_failure {
                        FailureAction::Continue => Ok(data),
                        FailureAction::Abort => {
                            let mut m: Vec<char> = Vec::new();
                            push_str(&mut m, "Hook '");
                            push_str(&mut m, hook.function.as_str());
                            push_str(&mut m, "' failed: ");
                            match &res.error {
                                Some(e) => push_str(&mut m, e.as_str()),
                                None => push_str(&mut m, "Unknown error"),
                            }
                            Err(HookError::Aborted(string_of(&m)))
                        },
                    }
                }
            },
        }
    }
}

impl HookExecutor {
    /// What follows the run of the hook at `index`: the run continues at the next
    /// hook. An observe hook is started without waiting, so the data goes on
    /// unchanged whatever it answers (`outcome` may be `None`); a transform hook's
    /// outcome decides as `after_transform` does.
    pub fn after_hook(
        &self,
        hook: &HookConfig,
        index: usize,
        data: JsonValue,
        outcome: Option<Result<FunctionResult, String>>,
    ) -> (r: Result<(usize, JsonValue), HookError>)
        requires
            index < usize::MAX,
            hook.mode == HookMode::Transform ==> outcome is Some,
        ensures
            hook.mode == HookMode::Observe ==> (r matches Ok((next, v)) && next == index + 1 && v@
                == data@),
            hook.mode == HookMode::Transform ==> match outcome {
                Some(Err(e)) => r matches Err(HookError::ExecutionFailed(m)) && m@ == e@,
                Some(Ok(res)) => if res.success {
                    r matches Ok((next, v)) && next == index + 1 && v@ == match res.output {
                        Some(o) => transformed(data@, o@),
                        None => data@,
                    }
                } else {
                    match hook.on_failure {
                        FailureAction::Continue => r matches Ok((next, v)) && next == index + 1 && v@
                            == data@,
                        FailureAction::Abort => r matches Err(HookError::Aborted(m)) && m@ == "Hook '"@
                            + hook.function@ + "' failed: "@ + error_text(res.error),
                    }
                },
                None => false,
            },
    {
        match hook.mode {
            HookMode::Observe => Ok((index + 1, data)),
            HookMode::Transform => match outcome {
                Some(o) => match self.after_transform(hook, data, o) {
                    Ok(v) => Ok((index + 1, v)),
                    Err(e) => Err(e),
                },
                None => Err(HookError::ExecutionFailed(String::new())),
            },
        }
    }
}

} // verus!
