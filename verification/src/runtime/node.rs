//! Runtime nodes and the evaluation plan of their condition expressions.
//!
//! A condition is one of:
//! - `$VarName` - the variable exists and is non-empty
//! - `$VarName == "value"` - string equality
//! - `$VarName != "value"` - string inequality
//! - `$VarName > value`, `<`, `>=`, `<=` - numeric comparison
//!
//! Everything but the numeric comparison of two decimal texts is decided here;
//! for a numeric condition the plan lists, in the order they are tried, the
//! comparisons whose operands were found, and the first of them whose operands
//! both read as numbers decides. A condition that nothing decides passes.
use vstd::prelude::*;

use crate::config::architecture::{ArchitectureNode, OutputTarget};
use crate::config::models::ModelDefinition;
use crate::json::{JsonValue, JsonView};
use crate::strmap::StrMap;
use crate::text::{
    chars_of, decimal, opt_text, find_from, has_char, has_char_exec, occurs_at, push_decimal, push_str,
    slice_chars, str_eq, string_of, trim, trim_chars,
};

verus! {

/// Adapter type for a runtime node
#[derive(Debug, Clone, PartialEq, Eq)]
pub enum AdapterType {
    OpenAiApi,
    Output,
    WebSocket { url: String },
}

/// A numeric comparison operator.
#[derive(Debug, Clone, Copy, PartialEq, Eq, Structural)]
pub enum NumericOp {
    Ge,
    Le,
    Gt,
    Lt,
}

/// A numeric comparison still to be made: the variable's value against the literal.
#[derive(Debug, Clone)]
pub struct NumericCheck {
    pub op: NumericOp,
    pub value: String,
    pub literal: String,
}

/// What a condition comes to before any number is read.
#[derive(Debug, Clone)]
pub enum ConditionPlan {
    /// The condition is decided.
    Decided(bool),
    /// The first of these comparisons whose operands both read as numbers decides;
    /// when none does, the condition passes.
    Numeric(Vec<NumericCheck>),
}

/// The text of an operator.
pub open spec fn op_text(op: NumericOp) -> Seq<char> {
    match op {
        NumericOp::Ge => ">="@,
        NumericOp::Le => "<="@,
        NumericOp::Gt => ">"@,
        NumericOp::Lt => "<"@,
    }
}

/// `i` is the first occurrence of `p` in `s`.
pub open spec fn is_first_occ(s: Seq<char>, p: Seq<char>, i: int) -> bool {
    occurs_at(s, p, i) && forall|j: int| 0 <= j < i ==> !occurs_at(s, p, j)
}

/// `s.splitn(2, p)` when `p` occurs: the parts before and after its first occurrence.
pub open spec fn split_first(s: Seq<char>, p: Seq<char>) -> Option<(Seq<char>, Seq<char>)> {
    if exists|i: int| is_first_occ(s, p, i) {
        let i = choose|i: int| is_first_occ(s, p, i);
        Some((s.take(i), s.skip(i + p.len())))
    } else {
        None
    }
}

/// `s.split(p)` yields exactly two parts: `p` occurs once, counting non-overlapping
/// occurrences from the left.
pub open spec fn split_in_two(s: Seq<char>, p: Seq<char>) -> Option<(Seq<char>, Seq<char>)> {
    if exists|i: int| is_first_occ(s, p, i) {
        let i = choose|i: int| is_first_occ(s, p, i);
        if forall|j: int| j >= i + p.len() ==> !occurs_at(s, p, j) {
            Some((s.take(i), s.skip(i + p.len())))
        } else {
            None
        }
    } else {
        None
    }
}

/// Number of leading `c` characters.
pub open spec fn lead_char(s: Seq<char>, c: char) -> nat
    decreases s.len(),
{
    if s.len() > 0 && s[0] == c {
        1 + lead_char(s.drop_first(), c)
    } else {
        0
    }
}

/// Number of trailing `c` characters.
pub open spec fn trail_char(s: Seq<char>, c: char) -> nat
    decreases s.len(),
{
    if s.len() > 0 && s.last() == c {
        1 + trail_char(s.drop_last(), c)
    } else {
        0
    }
}

/// `s.trim_matches(c)`.
pub open spec fn trim_char(s: Seq<char>, c: char) -> Seq<char> {
    let t = s.skip(lead_char(s, c) as int);
    t.take(t.len() - trail_char(t, c))
}

/// The variable a `$Name` operand names.
pub open spec fn var_name(part: Seq<char>) -> Option<Seq<char>> {
    if part.len() > 0 && part[0] == '$' {
        Some(part.skip(1))
    } else {
        None
    }
}

/// The variable and the unquoted value of a `$Var <p> "value"` condition.
pub open spec fn string_test(c: Seq<char>, p: Seq<char>) -> Option<(Seq<char>, Seq<char>)> {
    match split_in_two(c, p) {
        Some((a, b)) => match var_name(trim(a)) {
            Some(n) => Some((n, trim_char(trim(b), '"'))),
            None => None,
        },
        None => None,
    }
}

/// The comparison for `op`, when it applies and its variable is set:
/// (variable value, literal).
pub open spec fn numeric_check(c: Seq<char>, op: NumericOp, vars: Map<Seq<char>, String>) -> Option<
    (Seq<char>, Seq<char>),
> {
    if op == NumericOp::Gt && split_first(c, ">="@) is Some {
        None
    } else if op == NumericOp::Lt && split_first(c, "<="@) is Some {
        None
    } else {
        match split_first(c, op_text(op)) {
            Some((a, b)) => match var_name(trim(a)) {
                Some(n) => if vars.contains_key(n) {
                    Some((vars[n]@, trim(b)))
                } else {
                    None
                },
                None => None,
            },
            None => None,
        }
    }
}

/// The comparisons that apply, in the order `>=`, `<=`, `>`, `<`.
pub open spec fn numeric_checks(c: Seq<char>, vars: Map<Seq<char>, String>) -> Seq<(NumericOp, Seq<char>, Seq<char>)> {
    one_check(c, NumericOp::Ge, vars) + one_check(c, NumericOp::Le, vars) + one_check(c, NumericOp::Gt, vars)
        + one_check(c, NumericOp::Lt, vars)
}

/// The comparison for `op` as a list of zero or one entries.
pub open spec fn one_check(c: Seq<char>, op: NumericOp, vars: Map<Seq<char>, String>) -> Seq<(NumericOp, Seq<char>, Seq<char>)> {
    match numeric_check(c, op, vars) {
        Some((v, l)) => seq![(op, v, l)],
        None => Seq::empty(),
    }
}

/// The view of a list of numeric checks.
pub open spec fn checks_view(v: Seq<NumericCheck>) -> Seq<(NumericOp, Seq<char>, Seq<char>)> {
    Seq::new(v.len(), |i: int| (v[i].op, v[i].value@, v[i].literal@))
}

/// The decided outcome of a condition, if it is decided without reading numbers.
pub open spec fn decided(c0: Seq<char>, vars: Map<Seq<char>, String>) -> Option<bool> {
    let c = trim(c0);
    if c.len() > 0 && c[0] == '$' && !has_char(c, ' ') {
        let n = c.skip(1);
        Some(vars.contains_key(n) && vars[n]@.len() > 0)
    } else if string_test(c, "=="@) is Some {
        let (n, v) = string_test(c, "=="@)->0;
        Some(vars.contains_key(n) && vars[n]@ == v)
    } else if string_test(c, "!="@) is Some {
        let (n, v) = string_test(c, "!="@)->0;
        Some(!vars.contains_key(n) || vars[n]@ != v)
    } else {
        None
    }
}

/// Index where `p` first occurs in `s`, if it does.
fn first_occ_exec(s: &Vec<char>, p: &Vec<char>) -> (r: Option<usize>)
    ensures
        match r {
            Some(i) => is_first_occ(s@, p@, i as int),
            None => forall|i: int| !is_first_occ(s@, p@, i),
        },
{
    let r = find_from(s, p, 0);
    proof {
        match r {
            Some(i) => {},
            None => {
                assert forall|i: int| !is_first_occ(s@, p@, i) by {
                    if i >= 0 {
                    }
                }
            },
        }
    }
    r
}

proof fn lemma_first_occ_unique(s: Seq<char>, p: Seq<char>, i: int, j: int)
    requires
        is_first_occ(s, p, i),
        is_first_occ(s, p, j),
    ensures
        i == j,
{
    if i < j {
        assert(!occurs_at(s, p, i));
    } else if j < i {
        assert(!occurs_at(s, p, j));
    }
}

/// `s.splitn(2, p)` when `p` occurs.
fn split_first_exec(s: &Vec<char>, p: &Vec<char>) -> (r: Option<(Vec<char>, Vec<char>)>)
    ensures
        match r {
            Some((a, b)) => split_first(s@, p@) == Some((a@, b@)),
            None => split_first(s@, p@) is None,
        },
{
    match first_occ_exec(s, p) {
        Some(i) => {
            proof {
                let k = choose|k: int| is_first_occ(s@, p@, k);
                lemma_first_occ_unique(s@, p@, i as int, k);
            }
            let sl = s.len();
            assert(i + p@.len() <= sl);
            let a = slice_chars(s, 0, i);
            let b = slice_chars(s, i + p.len(), sl);
            proof {
                assert(a@ =~= s@.take(i as int));
                assert(b@ =~= s@.skip(i + p@.len()));
            }
            Some((a, b))
        },
        None => None,
    }
}

/// `s.split(p)` when it yields exactly two parts.
pub(crate) fn split_in_two_exec(s: &Vec<char>, p: &Vec<char>) -> (r: Option<(Vec<char>, Vec<char>)>)
    ensures
        match r {
            Some((a, b)) => split_in_two(s@, p@) == Some((a@, b@)),
            None => split_in_two(s@, p@) is None,
        },
{
    match first_occ_exec(s, p) {
        Some(i) => {
            proof {
                let k = choose|k: int| is_first_occ(s@, p@, k);
                lemma_first_occ_unique(s@, p@, i as int, k);
            }
            let sl = s.len();
            assert(i + p@.len() <= sl);
            let after = i + p.len();
            match find_from(s, p, after) {
                Some(j) => None,
                None => {
                    let a = slice_chars(s, 0, i);
                    let b = slice_chars(s, after, s.len());
                    proof {
                        assert(a@ =~= s@.take(i as int));
                        assert(b@ =~= s@.skip(i + p@.len()));
                    }
                    Some((a, b))
                },
            }
        },
        None => None,
    }
}

/// `s.trim_matches(c)`.
pub(crate) fn trim_char_exec(s: &Vec<char>, c: char) -> (r: Vec<char>)
    ensures
        r@ == trim_char(s@, c),
{
    let n = s.len();
    let mut a: usize = 0;
    while a < n && s[a] == c
        invariant
            n == s@.len(),
            a <= n,
            forall|j: int| 0 <= j < a ==> s@[j] == c,
        decreases n - a,
    {
        a = a + 1;
    }
    proof {
        lemma_lead_char(s@, c, a as int);
    }
    let t = slice_chars(s, a, n);
    proof {
        assert(t@ =~= s@.skip(a as int));
    }
    let m = t.len();
    let mut b: usize = m;
    while b > 0 && t[b - 1] == c
        invariant
            m == t@.len(),
            b <= m,
            forall|j: int| b <= j < m ==> t@[j] == c,
        decreases b,
    {
        b = b - 1;
    }
    proof {
        lemma_trail_char(t@, c, (m - b) as int);
    }
    slice_chars(&t, 0, b)
}

proof fn lemma_lead_char(s: Seq<char>, c: char, i: int)
    requires
        0 <= i <= s.len(),
        forall|j: int| 0 <= j < i ==> #[trigger] s[j] == c,
        i == s.len() || s[i] != c,
    ensures
        lead_char(s, c) == i,
    decreases i,
{
    if i > 0 {
        let t = s.drop_first();
        assert forall|j: int| 0 <= j < i - 1 implies #[trigger] t[j] == c by {
            assert(t[j] == s[j + 1]);
        }
        if i - 1 < t.len() {
            assert(t[i - 1] == s[i]);
        }
        lemma_lead_char(t, c, i - 1);
    }
}

proof fn lemma_trail_char(s: Seq<char>, c: char, k: int)
    requires
        0 <= k <= s.len(),
        forall|j: int| s.len() - k <= j < s.len() ==> #[trigger] s[j] == c,
        k == s.len() || s[s.len() - k - 1] != c,
    ensures
        trail_char(s, c) == k,
    decreases k,
{
    if k > 0 {
        let t = s.drop_last();
        assert forall|j: int| t.len() - (k - 1) <= j < t.len() implies #[trigger] t[j] == c by {
            assert(t[j] == s[j]);
        }
        if k - 1 < t.len() {
            assert(t[t.len() - (k - 1) - 1] == s[s.len() - k - 1]);
        }
        lemma_trail_char(t, c, k - 1);
    }
}

/// The variable named by a trimmed operand, if it is `$Name`.
fn var_name_exec(part: &Vec<char>) -> (r: Option<Vec<char>>)
    ensures
        match r {
            Some(n) => var_name(part@) == Some(n@),
            None => var_name(part@) is None,
        },
{
    if part.len() > 0 && part[0] == '$' {
        Some(slice_chars(part, 1, part.len()))
    } else {
        None
    }
}

/// `$Var <p> "value"`: the variable and the unquoted value.
fn string_test_exec(c: &Vec<char>, p: &str) -> (r: Option<(Vec<char>, Vec<char>)>)
    ensures
        match r {
            Some((n, v)) => string_test(c@, p@) == Some((n@, v@)),
            None => string_test(c@, p@) is None,
        },
{
    let pat = chars_of(p);
    match split_in_two_exec(c, &pat) {
        Some((a, b)) => {
            let ta = trim_chars(&a);
            match var_name_exec(&ta) {
                Some(n) => {
                    let tb = trim_chars(&b);
                    let v = trim_char_exec(&tb, '"');
                    Some((n, v))
                },
                None => None,
            }
        },
        None => None,
    }
}

/// Looks up a variable given by its characters.
fn lookup<'a>(vars: &'a StrMap<String>, n: &Vec<char>) -> (r: Option<&'a String>)
    ensures
        match r {
            Some(v) => vars@.contains_key(n@) && *v == vars@[n@],
            None => !vars@.contains_key(n@),
        },
{
    let name = string_of(n);
    vars.get(name.as_str())
}

/// The text of an operator.
fn op_str(op: NumericOp) -> (s: &'static str)
    ensures
        s@ == op_text(op),
{
    match op {
        NumericOp::Ge => ">=",
        NumericOp::Le => "<=",
        NumericOp::Gt => ">",
        NumericOp::Lt => "<",
    }
}

/// The comparison for `op`, when it applies and its variable is set.
fn numeric_check_exec(c: &Vec<char>, op: NumericOp, vars: &StrMap<String>) -> (r: Option<NumericCheck>)
    ensures
        match r {
            Some(k) => k.op == op && numeric_check(c@, op, vars@) == Some((k.value@, k.literal@)),
            None => numeric_check(c@, op, vars@) is None,
        },
{
    if op == NumericOp::Gt && split_first_exec(c, &chars_of(">=")).is_some() {
        return None;
    }
    if op == NumericOp::Lt && split_first_exec(c, &chars_of("<=")).is_some() {
        return None;
    }
    match split_first_exec(c, &chars_of(op_str(op))) {
        Some((a, b)) => {
            let ta = trim_chars(&a);
            match var_name_exec(&ta) {
                Some(n) => match lookup(vars, &n) {
                    Some(v) => {
                        let lit = trim_chars(&b);
                        Some(NumericCheck { op, value: v.clone(), literal: string_of(&lit) })
                    },
                    None => None,
                },
                None => None,
            }
        },
        None => None,
    }
}

fn push_check(checks: &mut Vec<NumericCheck>, c: &Vec<char>, op: NumericOp, vars: &StrMap<String>)
    ensures
        checks_view(final(checks)@) == checks_view(old(checks)@) + one_check(c@, op, vars@),
{
    let ghost before = checks@;
    match numeric_check_exec(c, op, vars) {
        Some(chk) => {
            checks.push(chk);
            assert(checks_view(checks@) =~= checks_view(before) + one_check(c@, op, vars@));
        },
        None => {
            assert(checks_view(checks@) =~= checks_view(before) + one_check(c@, op, vars@));
        },
    }
}

/// Plans the evaluation of a condition expression against variables.
///
/// `Decided` carries the outcome of the existence, equality and inequality forms;
/// `Numeric` lists the numeric comparisons to try, in order.
pub fn plan_condition(condition: &str, variables: &StrMap<String>) -> (r: ConditionPlan)
    ensures
        match decided(condition@, variables@) {
            Some(b) => r matches ConditionPlan::Decided(x) && x == b,
            None => r matches ConditionPlan::Numeric(v) && checks_view(v@) == numeric_checks(
                trim(condition@),
                variables@,
            ),
        },
{
    let raw = chars_of(condition);
    let c = trim_chars(&raw);
    if c.len() > 0 && c[0] == '$' && !has_char_exec(&c, ' ') {
        let n = slice_chars(&c, 1, c.len());
        proof {
            assert(n@ =~= c@.skip(1));
        }
        return match lookup(variables, &n) {
            Some(v) => ConditionPlan::Decided(!v.as_str().is_empty()),
            None => ConditionPlan::Decided(false),
        };
    }
    match string_test_exec(&c, "==") {
        Some((n, v)) => {
            return match lookup(variables, &n) {
                Some(x) => ConditionPlan::Decided(crate::text::chars_eq(&chars_of(x.as_str()), &v)),
                None => ConditionPlan::Decided(false),
            };
        },
        None => {},
    }
    match string_test_exec(&c, "!=") {
        Some((n, v)) => {
            return match lookup(variables, &n) {
                Some(x) => ConditionPlan::Decided(!crate::text::chars_eq(&chars_of(x.as_str()), &v)),
                None => ConditionPlan::Decided(true),
            };
        },
        None => {},
    }
    let mut checks: Vec<NumericCheck> = Vec::new();
    proof {
        assert(checks_view(checks@) =~= Seq::<(NumericOp, Seq<char>, Seq<char>)>::empty());
    }
    push_check(&mut checks, &c, NumericOp::Ge, variables);
    push_check(&mut checks, &c, NumericOp::Le, variables);
    push_check(&mut checks, &c, NumericOp::Gt, variables);
    push_check(&mut checks, &c, NumericOp::Lt, variables);
    proof {
        let e = Seq::<(NumericOp, Seq<char>, Seq<char>)>::empty();
        assert(e + one_check(c@, NumericOp::Ge, variables@) =~= one_check(c@, NumericOp::Ge, variables@));
    }
    ConditionPlan::Numeric(checks)
}

/// `a` is the adapter a node's adapter name selects: "output", "ws" (with the
/// node's URL, empty when it has none), anything else OpenAI API.
pub open spec fn adapter_matches(a: AdapterType, node: ArchitectureNode) -> bool {
    if node.adapter@ == "output"@ {
        a == AdapterType::Output
    } else if node.adapter@ == "ws"@ {
        a matches AdapterType::WebSocket { url } && url@ == match node.url {
            Some(u) => u@,
            None => Seq::<char>::empty(),
        }
    } else {
        a == AdapterType::OpenAiApi
    }
}

impl AdapterType {
    /// The adapter of an architecture node: "output", "ws" (with the node's URL,
    /// empty when it has none), anything else OpenAI API.
    pub fn from_node(node: &ArchitectureNode) -> (a: Self)
        ensures
            adapter_matches(a, *node),
    {
        if str_eq(node.adapter.as_str(), "output") {
            AdapterType::Output
        } else if str_eq(node.adapter.as_str(), "ws") {
            let url = match &node.url {
                Some(u) => u.clone(),
                None => String::new(),
            };
            AdapterType::WebSocket { url }
        } else {
            AdapterType::OpenAiApi
        }
    }
}

/// The content of an output target.
pub enum TargetView {
    Layers(Seq<u32>),
    Nodes(Seq<Seq<char>>),
}

/// The content of an optional output target.
pub open spec fn target_view(t: Option<OutputTarget>) -> Option<TargetView> {
    match t {
        Some(OutputTarget::Layers(ls)) => Some(TargetView::Layers(ls@)),
        Some(OutputTarget::Nodes(ns)) => Some(TargetView::Nodes(crate::text::str_views(ns@))),
        None => None,
    }
}

/// A copy of an optional output target.
pub fn copy_target(t: &Option<OutputTarget>) -> (r: Option<OutputTarget>)
    ensures
        target_view(r) == target_view(*t),
{
    match t {
        Some(OutputTarget::Layers(ls)) => {
            let mut out: Vec<u32> = Vec::new();
            let n = ls.len();
            for i in 0..n
                invariant
                    n == ls@.len(),
                    out@ == ls@.take(i as int),
            {
                out.push(ls[i]);
                assert(ls@.take(i + 1) =~= ls@.take(i as int).push(ls@[i as int]));
            }
            assert(ls@.take(n as int) =~= ls@);
            Some(OutputTarget::Layers(out))
        },
        Some(OutputTarget::Nodes(ns)) => {
            let mut out: Vec<String> = Vec::new();
            let n = ns.len();
            for i in 0..n
                invariant
                    n == ns@.len(),
                    crate::text::str_views(out@) == crate::text::str_views(ns@).take(i as int),
            {
                let ghost prev = crate::text::str_views(out@);
                out.push(ns[i].clone());
                assert(crate::text::str_views(out@) =~= prev.push(ns@[i as int]@));
                assert(crate::text::str_views(ns@).take(i + 1) =~= crate::text::str_views(ns@).take(i as int).push(
                    ns@[i as int]@,
                ));
            }
            assert(crate::text::str_views(ns@).take(n as int) =~= crate::text::str_views(ns@));
            Some(OutputTarget::Nodes(out))
        },
        None => None,
    }
}

/// A copy of an optional string.
fn copy_opt(o: &Option<String>) -> (r: Option<String>)
    ensures
        opt_text(r) == opt_text(*o),
{
    match o {
        Some(s) => Some(s.clone()),
        None => None,
    }
}

/// The value of a decimal digit.
pub open spec fn digit_value(c: char) -> nat {
    (c as u32 - '0' as u32) as nat
}

/// The number a run of decimal digits spells.
pub open spec fn digits_value(d: Seq<char>) -> nat
    decreases d.len(),
{
    if d.len() == 0 {
        0
    } else {
        digits_value(d.drop_last()) * 10 + digit_value(d.last())
    }
}

/// Every character is an ASCII digit.
pub open spec fn all_digits(d: Seq<char>) -> bool {
    forall|i: int| 0 <= i < d.len() ==> '0' <= #[trigger] d[i] <= '9'
}

/// `str::parse::<u16>`: an optional `+`, then one or more ASCII digits whose value
/// fits in 16 bits.
pub open spec fn parse_u16(s: Seq<char>) -> Option<u16> {
    let d = if s.len() > 0 && s[0] == '+' { s.skip(1) } else { s };
    if d.len() > 0 && all_digits(d) && digits_value(d) <= u16::MAX {
        Some(digits_value(d) as u16)
    } else {
        None
    }
}

/// Parses a port number.
#[verifier::loop_isolation(false)]
pub fn parse_port(s: &str) -> (r: Option<u16>)
    ensures
        r == parse_u16(s@),
{
    let c = chars_of(s);
    let start: usize = if c.len() > 0 && c[0] == '+' { 1 } else { 0 };
    let d = slice_chars(&c, start, c.len());
    assert(d@ =~= if s@.len() > 0 && s@[0] == '+' { s@.skip(1) } else { s@ });
    if d.len() == 0 {
        return None;
    }
    let mut v: u32 = 0;
    let n = d.len();
    for i in 0..n
        invariant
            n == d@.len(),
            v <= u16::MAX,
            all_digits(d@.take(i as int)),
            v == digits_value(d@.take(i as int)),
    {
        let ch = d[i];
        proof {
            let t = d@.take(i + 1);
            assert(t.drop_last() =~= d@.take(i as int));
            assert(t.last() == ch);
        }
        if !('0' <= ch && ch <= '9') {
            assert(!all_digits(d@)) by {
                assert(d@[i as int] == ch);
            }
            return None;
        }
        let x: u32 = (ch as u32) - ('0' as u32);
        let nv: u32 = v * 10 + x;
        if nv > 65535 {
            proof {
                assert(all_digits(d@.take(i + 1)));
                assert(digits_value(d@.take(i + 1)) == nv);
                lemma_digits_grow(d@, i as int + 1);
            }
            return None;
        }
        v = nv;
        assert(all_digits(d@.take(i + 1)));
    }
    assert(d@.take(n as int) =~= d@);
    Some(v as u16)
}

pub(crate) proof fn lemma_digits_grow(d: Seq<char>, k: int)
    requires
        0 < k <= d.len(),
        all_digits(d.take(k)),
    ensures
        digits_value(d) >= digits_value(d.take(k)) || !all_digits(d),
    decreases d.len() - k,
{
    if k < d.len() && all_digits(d) {
        assert(all_digits(d.take(k + 1)));
        lemma_digits_grow(d, k + 1);
        let t = d.take(k + 1);
        assert(t.drop_last() =~= d.take(k));
        assert(digits_value(t) == digits_value(d.take(k)) * 10 + digit_value(t.last()));
    } else if k == d.len() {
        assert(d.take(k) =~= d);
    }
}

/// Runtime representation of a node in the pipeline
#[derive(Debug, Clone)]
pub struct RuntimeNode {
    pub name: String,
    pub layer: u32,
    pub adapter: AdapterType,
    pub bind_addr: String,
    pub bind_port: u16,
    pub model_config: Option<ModelDefinition>,
    pub output_targets: Option<OutputTarget>,
    pub use_case: Option<String>,
    pub condition: Option<String>,
    pub extra_options: StrMap<JsonValue>,
}

/// The port a node binds: its configured port when that reads as a port number,
/// else 8080 plus its offset.
pub open spec fn node_port(bind_port: Option<String>, port_offset: u16) -> int {
    match bind_port {
        Some(p) => match parse_u16(p@) {
            Some(v) => v as int,
            None => 8080 + port_offset,
        },
        None => 8080 + port_offset,
    }
}

/// `r` is the runtime form of architecture node `node` placed at `port_offset`:
/// its layer (0 when unset), adapter, bind address (default `0.0.0.0`), port, targets,
/// use-case, condition and options.
pub open spec fn runtime_from(r: RuntimeNode, node: ArchitectureNode, port_offset: u16) -> bool {
    &&& r.name@ == node.name@
    &&& r.layer == match node.layer {
        Some(l) => l,
        None => 0u32,
    }
    &&& adapter_matches(r.adapter, node)
    &&& r.bind_addr@ == match node.bind_addr {
        Some(b) => b@,
        None => "0.0.0.0"@,
    }
    &&& r.bind_port == node_port(node.bind_port, port_offset)
    &&& target_view(r.output_targets) == target_view(node.output_to)
    &&& opt_text(r.use_case) == opt_text(node.use_case)
    &&& opt_text(r.condition) == opt_text(node.condition)
    &&& same_options(r.extra_options, node.extra_options)
}

/// Two option maps with the same keys, in the same order, and values of the same content.
pub open spec fn same_options(a: StrMap<JsonValue>, b: StrMap<JsonValue>) -> bool {
    &&& a.key_seq() == b.key_seq()
    &&& a.val_seq().len() == b.val_seq().len()
    &&& forall|i: int| 0 <= i < a.val_seq().len() ==> (#[trigger] a.val_seq()[i])@ == b.val_seq()[i]@
}

/// The `model_override` option when it is a string.
pub open spec fn override_of(opts: StrMap<JsonValue>) -> Option<Seq<char>> {
    if opts.key_seq().contains("model_override"@) {
        match opts.val_seq()[opts.pos("model_override"@)]@ {
            JsonView::String(s) => Some(s),
            _ => None,
        }
    } else {
        None
    }
}

/// The `model_override` option when it is a string.
pub fn option_override(opts: &StrMap<JsonValue>) -> (r: Option<String>)
    ensures
        opt_text(r) == override_of(*opts),
{
    let n = opts.len();
    match opts.find("model_override") {
        Some(i) => {
            proof {
                assert(opts.key_seq()[i as int] == "model_override"@);
                assert(opts.key_seq().contains("model_override"@));
            }
            match opts.val_at(i) {
                JsonValue::String(s) => Some(s.clone()),
                _ => None,
            }
        },
        None => {
            proof {
                if opts.key_seq().contains("model_override"@) {
                    let j = choose|j: int| 0 <= j < opts.key_seq().len() && opts.key_seq()[j] == "model_override"@;
                    assert(opts@.contains_key(opts.key_seq()[j]));
                }
            }
            None
        },
    }
}

impl RuntimeNode {
    /// Create from architecture node and model definition
    pub fn from_architecture(node: &ArchitectureNode, model_config: Option<ModelDefinition>, port_offset: u16) -> (r: Self)
        requires
            8080 + port_offset <= u16::MAX,
        ensures
            runtime_from(r, *node, port_offset),
            r.model_config == model_config,
    {
        let default_port: u16 = 8080 + port_offset;
        let bind_port = match &node.bind_port {
            Some(p) => match parse_port(p.as_str()) {
                Some(v) => v,
                None => default_port,
            },
            None => default_port,
        };
        let extra_options = node.extra_options.clone();
        proof {
            assert forall|i: int| 0 <= i < extra_options.val_seq().len() implies (
            #[trigger] extra_options.val_seq()[i])@ == node.extra_options.val_seq()[i]@ by {
                assert(cloned::<JsonValue>(node.extra_options.val_seq()[i], extra_options.val_seq()[i]));
            }
        }
        RuntimeNode {
            name: node.name.clone(),
            layer: match node.layer {
                Some(l) => l,
                None => 0,
            },
            adapter: AdapterType::from_node(node),
            bind_addr: String::from_str(node.effective_bind_addr()),
            bind_port,
            model_config,
            output_targets: copy_target(&node.output_to),
            use_case: copy_opt(&node.use_case),
            condition: copy_opt(&node.condition),
            extra_options,
        }
    }

    /// Get the model override from extra_options if specified
    pub fn model_override(&self) -> (r: Option<String>)
        ensures
            opt_text(r) == override_of(self.extra_options),
    {
        option_override(&self.extra_options)
    }

    /// Check if this node is the final output
    pub fn is_output(&self) -> (b: bool)
        ensures
            b == (self.adapter is Output),
    {
        match self.adapter {
            AdapterType::Output => true,
            _ => false,
        }
    }

    /// Check if this is a WebSocket output
    pub fn is_websocket(&self) -> (b: bool)
        ensures
            b == (self.adapter is WebSocket),
    {
        match self.adapter {
            AdapterType::WebSocket { .. } => true,
            _ => false,
        }
    }

    /// Get the socket address for binding
    pub fn socket_addr(&self) -> (s: String)
        ensures
            s@ == self.bind_addr@ + ":"@ + decimal(self.bind_port as nat),
    {
        let mut v: Vec<char> = Vec::new();
        push_str(&mut v, self.bind_addr.as_str());
        push_str(&mut v, ":");
        push_decimal(&mut v, self.bind_port as u64);
        string_of(&v)
    }
}

} // verus!
