//! Composition files: JSONC preprocessing and composition errors.
use vstd::prelude::*;

use crate::config::architecture::{ArchitectureNode, HookConfig, OutputTarget};
use crate::config::functions::FunctionType;
use crate::config::models::ModelDefinition;
use crate::config::secrets::SecretSource;
use crate::strmap::StrMap;
use crate::text::{chars_of, find_char, has_char, occurs_at, occurs_at_exec, str_eq, string_of};

verus! {

/// Errors that can occur during composition parsing and validation
#[derive(Debug, PartialEq)]
pub enum CompositionError {
    ParseError(String),
    UndefinedModel(String, String),
    UndefinedNode(String),
    NoRouterNode,
    NoOutputNode,
    DuplicateNodeName(String),
    UndefinedFunction(String, String),
}

/// Position of the first `*/` in `s`, or `s.len()` when there is none.
pub open spec fn block_end(s: Seq<char>) -> nat
    decreases s.len(),
{
    if s.len() < 2 {
        s.len()
    } else if s[0] == '*' && s[1] == '/' {
        0
    } else {
        1 + block_end(s.drop_first())
    }
}

/// The text left of `s` once comments are removed, given whether the scan is inside a
/// string literal and whether the previous character was an escaping backslash.
///
/// A `//` comment is dropped up to its newline, which is kept; a `/* */` comment is
/// dropped with its delimiters; comment markers inside strings are text.
pub open spec fn strip_comments(s: Seq<char>, in_string: bool, escape: bool) -> Seq<char>
    decreases s.len(),
{
    if s.len() == 0 {
        Seq::empty()
    } else {
        let c = s[0];
        let rest = s.drop_first();
        if escape {
            seq![c] + strip_comments(rest, in_string, false)
        } else if c == '\\' && in_string {
            seq![c] + strip_comments(rest, in_string, true)
        } else if c == '"' {
            seq![c] + strip_comments(rest, !in_string, false)
        } else if !in_string && c == '/' && rest.len() > 0 && rest[0] == '/' {
            let body = rest.drop_first();
            let e = find_char(body, '\n');
            if e < body.len() {
                seq!['\n'] + strip_comments(body.skip(e + 1 as int), in_string, false)
            } else {
                Seq::empty()
            }
        } else if !in_string && c == '/' && rest.len() > 0 && rest[0] == '*' {
            let body = rest.drop_first();
            let e = block_end(body);
            if e + 2 <= body.len() {
                strip_comments(body.skip(e + 2 as int), in_string, false)
            } else {
                Seq::empty()
            }
        } else {
            seq![c] + strip_comments(rest, in_string, false)
        }
    }
}

/// A `*/` starts at position `j` of `s`.
pub open spec fn closes_at(s: Seq<char>, j: int) -> bool {
    0 <= j && j + 1 < s.len() && s[j] == '*' && s[j + 1] == '/'
}

proof fn lemma_block_end(s: Seq<char>, i: int)
    requires
        0 <= i <= s.len(),
        forall|j: int| 0 <= j < i ==> !#[trigger] closes_at(s, j),
        i + 1 < s.len() ==> closes_at(s, i),
        i + 1 >= s.len() ==> i == s.len(),
    ensures
        block_end(s) == i,
    decreases i,
{
    if s.len() >= 2 && i > 0 {
        assert(!closes_at(s, 0));
        let t = s.drop_first();
        assert forall|j: int| 0 <= j < i - 1 implies !#[trigger] closes_at(t, j) by {
            if j + 1 < t.len() {
                assert(t[j] == s[j + 1] && t[j + 1] == s[j + 2]);
                assert(!closes_at(s, j + 1));
            }
        }
        if i - 1 + 1 < t.len() {
            assert(t[i - 1] == s[i] && t[i] == s[i + 1]);
            assert(closes_at(t, i - 1));
        }
        lemma_block_end(t, i - 1);
    } else if s.len() < 2 {
        assert(i == s.len());
    }
}

/// Strip C-style comments from JSONC content. Stripping again changes nothing, and
/// text with no `/` outside its string literals comes back as it is.
pub fn strip_jsonc_comments(input: &str) -> (r: String)
    ensures
        r@ == strip_comments(input@, false, false),
        strip_comments(r@, false, false) == r@,
        no_slash_outside_strings(input@, false, false) ==> r@ == input@,
{
    let s = chars_of(input);
    let n = s.len();
    let mut out: Vec<char> = Vec::new();
    let mut in_string = false;
    let mut escape_next = false;
    let mut i: usize = 0;
    proof {
        assert(s@.skip(0) =~= s@);
        assert(out@ + strip_comments(s@, false, false) =~= strip_comments(s@, false, false));
    }
    while i < n
        invariant
            n == s@.len(),
            i <= n,
            out@ + strip_comments(s@.skip(i as int), in_string, escape_next) == strip_comments(input@, false, false),
            s@ == input@,
        decreases n - i,
    {
        let ghost rest_all = s@.skip(i as int);
        let ghost before = out@;
        let c = s[i];
        proof {
            assert(rest_all[0] == c);
            assert(rest_all.drop_first() =~= s@.skip(i + 1));
        }
        if escape_next {
            out.push(c);
            escape_next = false;
            i = i + 1;
            proof {
                assert(out@ =~= before + seq![c]);
            }
        } else if c == '\\' && in_string {
            out.push(c);
            escape_next = true;
            i = i + 1;
            proof {
                assert(out@ =~= before + seq![c]);
            }
        } else if c == '"' {
            in_string = !in_string;
            out.push(c);
            i = i + 1;
            proof {
                assert(out@ =~= before + seq![c]);
            }
        } else if !in_string && c == '/' && i + 1 < n && s[i + 1] == '/' {
            let ghost body = s@.skip(i + 2);
            proof {
                assert(rest_all.drop_first()[0] == s@[i + 1]);
                assert(rest_all.drop_first().drop_first() =~= body);
            }
            let mut j = i + 2;
            while j < n && s[j] != '\n'
                invariant
                    n == s@.len(),
                    i + 2 <= j <= n,
                    forall|k: int| i + 2 <= k < j ==> s@[k] != '\n',
                decreases n - j,
            {
                j = j + 1;
            }
            proof {
                assert forall|k: int| 0 <= k < j - (i + 2) implies #[trigger] body[k] != '\n' by {
                    assert(body[k] == s@[k + i + 2]);
                }
                if j < n {
                    assert(body[j - (i + 2)] == s@[j as int]);
                }
                crate::text::lemma_find_char(body, '\n', j - (i + 2));
            }
            let ghost i0 = i;
            if j < n {
                out.push('\n');
                i = j + 1;
                proof {
                    assert(body.skip(j - (i0 + 2) + 1) =~= s@.skip(i as int));
                    assert(out@ =~= before + seq!['\n']);
                }
            } else {
                i = n;
                proof {
                    assert(s@.skip(n as int) =~= Seq::<char>::empty());
                }
            }
        } else if !in_string && c == '/' && i + 1 < n && s[i + 1] == '*' {
            let ghost body = s@.skip(i + 2);
            proof {
                assert(rest_all.drop_first()[0] == s@[i + 1]);
                assert(rest_all.drop_first().drop_first() =~= body);
            }
            let mut j = i + 2;
            while j < n && !(j + 1 < n && s[j] == '*' && s[j + 1] == '/')
                invariant
                    n == s@.len(),
                    i + 2 <= j <= n,
                    forall|k: int| i + 2 <= k < j ==> !#[trigger] closes_at(s@, k),
                decreases n - j,
            {
                j = j + 1;
            }
            proof {
                let e = if j < n { j - (i + 2) } else { body.len() as int };
                assert forall|k: int| 0 <= k < e implies !#[trigger] closes_at(body, k) by {
                    if k + 1 < body.len() {
                        assert(body[k] == s@[k + i + 2] && body[k + 1] == s@[k + i + 3]);
                        assert(!closes_at(s@, k + i + 2));
                    }
                }
                if j < n {
                    assert(body[j - (i + 2)] == s@[j as int] && body[j - (i + 2) + 1] == s@[j + 1]);
                    assert(closes_at(body, e));
                }
                lemma_block_end(body, e);
            }
            let ghost i0 = i;
            if j < n {
                i = j + 2;
                proof {
                    assert(body.skip(j - (i0 + 2) + 2) =~= s@.skip(i as int));
                }
            } else {
                i = n;
                proof {
                    assert(s@.skip(n as int) =~= Seq::<char>::empty());
                }
            }
        } else {
            out.push(c);
            i = i + 1;
            proof {
                assert(out@ =~= before + seq![c]);
            }
        }
    }
    proof {
        assert(s@.skip(n as int) =~= Seq::<char>::empty());
        assert(out@ + Seq::<char>::empty() =~= out@);
        lemma_strip_idempotent(input@, false, false);
        if no_slash_outside_strings(input@, false, false) {
            lemma_strip_without_comment_slash(input@, false, false);
        }
    }
    string_of(&out)
}

/// Text without any slash comes out of comment stripping unchanged.
pub proof fn lemma_strip_without_slash(s: Seq<char>, in_string: bool, escape: bool)
    requires
        !has_char(s, '/'),
    ensures
        strip_comments(s, in_string, escape) == s,
    decreases s.len(),
{
    if s.len() > 0 {
        let rest = s.drop_first();
        assert(!has_char(rest, '/')) by {
            if has_char(rest, '/') {
                let k = choose|k: int| 0 <= k < rest.len() && rest[k] == '/';
                assert(s[k + 1] == '/');
            }
        }
        assert(s[0] != '/');
        let c = s[0];
        let in2 = if escape { in_string } else if c == '\\' && in_string { in_string } else if c == '"' { !in_string } else { in_string };
        let esc2 = !escape && c == '\\' && in_string;
        lemma_strip_without_slash(rest, in2, esc2);
        assert(seq![c] + rest =~= s);
    }
}

/// Outside a string, text that does not start a comment keeps its first character.
proof fn lemma_strip_keeps_first(s: Seq<char>)
    requires
        s.len() > 0,
        s[0] != '/',
    ensures
        strip_comments(s, false, false).len() > 0,
        strip_comments(s, false, false)[0] == s[0],
{
}

/// Stripping comments twice gives what stripping once gives.
pub proof fn lemma_strip_idempotent(s: Seq<char>, in_string: bool, escape: bool)
    ensures
        strip_comments(strip_comments(s, in_string, escape), in_string, escape) == strip_comments(
            s,
            in_string,
            escape,
        ),
    decreases s.len(),
{
    if s.len() > 0 {
        let c = s[0];
        let rest = s.drop_first();
        let out = strip_comments(s, in_string, escape);
        if escape {
            lemma_strip_idempotent(rest, in_string, false);
            assert((seq![c] + strip_comments(rest, in_string, false)).drop_first() =~= strip_comments(rest, in_string, false));
        } else if c == '\\' && in_string {
            lemma_strip_idempotent(rest, in_string, true);
            assert((seq![c] + strip_comments(rest, in_string, true)).drop_first() =~= strip_comments(rest, in_string, true));
        } else if c == '"' {
            lemma_strip_idempotent(rest, !in_string, false);
            assert((seq![c] + strip_comments(rest, !in_string, false)).drop_first() =~= strip_comments(rest, !in_string, false));
        } else if !in_string && c == '/' && rest.len() > 0 && rest[0] == '/' {
            let body = rest.drop_first();
            let e = find_char(body, '\n');
            if e < body.len() {
                let after = body.skip(e + 1 as int);
                lemma_strip_idempotent(after, in_string, false);
                assert((seq!['\n'] + strip_comments(after, in_string, false)).drop_first() =~= strip_comments(after, in_string, false));
            }
        } else if !in_string && c == '/' && rest.len() > 0 && rest[0] == '*' {
            let body = rest.drop_first();
            let e = block_end(body);
            if e + 2 <= body.len() {
                lemma_strip_idempotent(body.skip(e + 2 as int), in_string, false);
            }
        } else {
            let tail = strip_comments(rest, in_string, false);
            lemma_strip_idempotent(rest, in_string, false);
            assert((seq![c] + tail).drop_first() =~= tail);
            if !in_string && c == '/' && rest.len() > 0 {
                lemma_strip_keeps_first(rest);
            }
        }
    }
}

/// No `/` stands outside a string literal of `s`, reading from the given scan state.
pub open spec fn no_slash_outside_strings(s: Seq<char>, in_string: bool, escape: bool) -> bool
    decreases s.len(),
{
    if s.len() == 0 {
        true
    } else {
        let c = s[0];
        let rest = s.drop_first();
        if escape {
            no_slash_outside_strings(rest, in_string, false)
        } else if c == '\\' && in_string {
            no_slash_outside_strings(rest, in_string, true)
        } else if c == '"' {
            no_slash_outside_strings(rest, !in_string, false)
        } else {
            (in_string || c != '/') && no_slash_outside_strings(rest, in_string, false)
        }
    }
}

/// Text with no `/` outside its string literals comes out of comment stripping unchanged.
pub proof fn lemma_strip_without_comment_slash(s: Seq<char>, in_string: bool, escape: bool)
    requires
        no_slash_outside_strings(s, in_string, escape),
    ensures
        strip_comments(s, in_string, escape) == s,
    decreases s.len(),
{
    if s.len() > 0 {
        let c = s[0];
        let rest = s.drop_first();
        let in2 = if escape { in_string } else if c == '\\' && in_string { in_string } else if c == '"' { !in_string } else { in_string };
        let esc2 = !escape && c == '\\' && in_string;
        lemma_strip_without_comment_slash(rest, in2, esc2);
        assert(seq![c] + rest =~= s);
    }
}

/// The complete composition file structure
#[derive(Debug, Clone)]
pub struct Composition {
    pub models: StrMap<ModelDefinition>,
    pub architecture: Vec<ArchitectureNode>,
    /// Secret sources for credential management
    pub secrets: StrMap<SecretSource>,
    /// Reusable function definitions for hooks
    pub functions: StrMap<FunctionType>,
}

/// The first index in `i..n` where `p` holds.
pub open spec fn first_from(i: int, n: int, p: spec_fn(int) -> bool) -> Option<int>
    decreases n - i,
{
    if i >= n {
        None
    } else if p(i) {
        Some(i)
    } else {
        first_from(i + 1, n, p)
    }
}

/// The first index below `n` where `p` holds.
pub open spec fn first_where(n: int, p: spec_fn(int) -> bool) -> Option<int> {
    first_from(0, n, p)
}

pub proof fn lemma_first_from(i: int, n: int, p: spec_fn(int) -> bool, k: int)
    requires
        0 <= i <= k <= n,
        forall|j: int| i <= j < k ==> !#[trigger] p(j),
        k < n ==> p(k),
    ensures
        first_from(i, n, p) == (if k < n { Some(k) } else { None::<int> }),
    decreases k - i,
{
    if i < k {
        lemma_first_from(i + 1, n, p, k);
    }
}

/// The names of the nodes, in order.
pub open spec fn node_names(arch: Seq<ArchitectureNode>) -> Seq<Seq<char>> {
    Seq::new(arch.len(), |i: int| arch[i].name@)
}

/// Node `j` repeats the name of an earlier node.
pub open spec fn repeats_name(arch: Seq<ArchitectureNode>, j: int) -> bool {
    exists|i: int| 0 <= i < j && arch[i].name@ == arch[j].name@
}

/// Node `i` refers to a model that is not defined.
pub open spec fn lacks_model(c: Composition, i: int) -> bool {
    match c.architecture@[i].model {
        Some(m) => !c.models@.contains_key(m@),
        None => false,
    }
}

/// Target `k` of a node-name list does not name a node.
pub open spec fn unknown_target(arch: Seq<ArchitectureNode>, ts: Seq<String>, k: int) -> bool {
    !node_names(arch).contains(ts[k]@)
}

/// The node-name targets of node `i`, if its output goes to named nodes.
pub open spec fn named_targets(n: ArchitectureNode) -> Seq<String> {
    match n.output_to {
        Some(OutputTarget::Nodes(ts)) => ts@,
        _ => Seq::empty(),
    }
}

/// Node `i` sends its output to a node that does not exist.
pub open spec fn has_unknown_target(arch: Seq<ArchitectureNode>, i: int) -> bool {
    exists|k: int| 0 <= k < named_targets(arch[i]).len() && unknown_target(arch, named_targets(arch[i]), k)
}

/// A hook calls a function that is not defined.
pub open spec fn unknown_hook(c: Composition, hs: Seq<HookConfig>, k: int) -> bool {
    !c.functions@.contains_key(hs[k].function@)
}

/// The hooks of a node: its pre-hooks, then its post-hooks.
pub open spec fn node_hook_list(n: ArchitectureNode) -> Seq<HookConfig> {
    n.hooks.pre@ + n.hooks.post@
}

/// Node `i` has a hook that calls an undefined function.
pub open spec fn has_unknown_hook(c: Composition, i: int) -> bool {
    exists|k: int| 0 <= k < node_hook_list(c.architecture@[i]).len() && unknown_hook(
        c,
        node_hook_list(c.architecture@[i]),
        k,
    )
}

/// The nodes that repeat an earlier name.
pub open spec fn dup_pred(arch: Seq<ArchitectureNode>) -> spec_fn(int) -> bool {
    |j: int| repeats_name(arch, j)
}

/// The nodes that refer to an undefined model.
pub open spec fn model_pred(c: Composition) -> spec_fn(int) -> bool {
    |i: int| lacks_model(c, i)
}

/// The nodes that send output to an undefined node.
pub open spec fn target_pred(arch: Seq<ArchitectureNode>) -> spec_fn(int) -> bool {
    |i: int| has_unknown_target(arch, i)
}

/// The targets of a list that name no node.
pub open spec fn unknown_target_pred(arch: Seq<ArchitectureNode>, ts: Seq<String>) -> spec_fn(int) -> bool {
    |k: int| unknown_target(arch, ts, k)
}

/// The nodes with a hook that calls an undefined function.
pub open spec fn hook_pred(c: Composition) -> spec_fn(int) -> bool {
    |i: int| has_unknown_hook(c, i)
}

/// The hooks of a list that call an undefined function.
pub open spec fn unknown_hook_pred(c: Composition, hs: Seq<HookConfig>) -> spec_fn(int) -> bool {
    |k: int| unknown_hook(c, hs, k)
}

/// What `validate_composition` answers: the first problem found, checking in turn
/// duplicate names, model references, output-to node references, the presence of
/// a layer-0 node and of an output node, and hook function references.
pub open spec fn validation_spec(c: Composition) -> Result<(), CompositionError> {
    let arch = c.architecture@;
    let n = arch.len() as int;
    match first_where(n, dup_pred(arch)) {
        Some(j) => Err(CompositionError::DuplicateNodeName(arch[j].name)),
        None => match first_where(n, model_pred(c)) {
            Some(i) => Err(CompositionError::UndefinedModel(arch[i].model->0, arch[i].name)),
            None => match first_where(n, target_pred(arch)) {
                Some(i) => {
                    let ts = named_targets(arch[i]);
                    let k = first_where(ts.len() as int, unknown_target_pred(arch, ts))->0;
                    Err(CompositionError::UndefinedNode(ts[k]))
                },
                None => if !(exists|i: int| 0 <= i < n && arch[i].layer == Some(0u32)) {
                    Err(CompositionError::NoRouterNode)
                } else if !(exists|i: int| 0 <= i < n && arch[i].adapter@ == "output"@) {
                    Err(CompositionError::NoOutputNode)
                } else {
                    match first_where(n, hook_pred(c)) {
                        Some(i) => {
                            let hs = node_hook_list(arch[i]);
                            let k = first_where(hs.len() as int, unknown_hook_pred(c, hs))->0;
                            Err(CompositionError::UndefinedFunction(hs[k].function, arch[i].name))
                        },
                        None => Ok(()),
                    }
                },
            },
        },
    }
}

/// Some position in `i..n` satisfies `p`, so the first is found, no later than it.
pub proof fn lemma_first_from_found(i: int, n: int, p: spec_fn(int) -> bool, w: int)
    requires
        i <= w < n,
        p(w),
    ensures
        first_from(i, n, p) matches Some(j) && i <= j <= w && p(j),
    decreases w - i,
{
    if !p(i) {
        lemma_first_from_found(i + 1, n, p, w);
    }
}

/// A composition where some node's pre-hook or post-hook calls a function the
/// composition does not define is never accepted.
pub proof fn lemma_undefined_hook_function_rejected(c: Composition, i: int, k: int, post: bool)
    requires
        0 <= i < c.architecture@.len(),
        post ==> 0 <= k < c.architecture@[i].hooks.post@.len(),
        !post ==> 0 <= k < c.architecture@[i].hooks.pre@.len(),
        !c.functions@.contains_key(
            (if post {
                c.architecture@[i].hooks.post@[k]
            } else {
                c.architecture@[i].hooks.pre@[k]
            }).function@,
        ),
    ensures
        validation_spec(c) is Err,
{
    let node = c.architecture@[i];
    let hs = node_hook_list(node);
    let w = if post { node.hooks.pre@.len() + k } else { k };
    assert(hs[w] == (if post { node.hooks.post@[k] } else { node.hooks.pre@[k] }));
    assert(unknown_hook(c, hs, w));
    assert(has_unknown_hook(c, i));
    lemma_first_from_found(0, c.architecture@.len() as int, hook_pred(c), i);
}

/// Whether some node is called `name`.
fn has_node_named(arch: &Vec<ArchitectureNode>, name: &str) -> (b: bool)
    ensures
        b == node_names(arch@).contains(name@),
{
    let n = arch.len();
    for i in 0..n
        invariant
            n == arch@.len(),
            forall|j: int| 0 <= j < i ==> arch@[j].name@ != name@,
    {
        if str_eq(arch[i].name.as_str(), name) {
            assert(node_names(arch@)[i as int] == name@);
            return true;
        }
    }
    proof {
        if node_names(arch@).contains(name@) {
            let j = choose|j: int| 0 <= j < node_names(arch@).len() && node_names(arch@)[j] == name@;
            assert(arch@[j].name@ == name@);
        }
    }
    false
}

/// The first target of a node-name list that names no node.
fn first_unknown_target(arch: &Vec<ArchitectureNode>, ts: &Vec<String>) -> (r: Option<usize>)
    ensures
        match r {
            Some(k) => k < ts@.len() && unknown_target(arch@, ts@, k as int) && first_where(
                ts@.len() as int,
                unknown_target_pred(arch@, ts@),
            ) == Some(k as int),
            None => forall|k: int| 0 <= k < ts@.len() ==> !unknown_target(arch@, ts@, k),
        },
{
    let n = ts.len();
    let ghost p = unknown_target_pred(arch@, ts@);
    for k in 0..n
        invariant
            n == ts@.len(),
            p == unknown_target_pred(arch@, ts@),
            forall|j: int| 0 <= j < k ==> !unknown_target(arch@, ts@, j),
    {
        if !has_node_named(arch, ts[k].as_str()) {
            proof {
                lemma_first_from(0, n as int, p, k as int);
            }
            return Some(k);
        }
    }
    None
}

/// The first hook of a list that calls an undefined function.
fn first_unknown_hook(c: &Composition, hs: &Vec<HookConfig>) -> (r: Option<usize>)
    ensures
        match r {
            Some(k) => k < hs@.len() && !c.functions@.contains_key(hs@[k as int].function@)
                && forall|j: int| 0 <= j < k ==> c.functions@.contains_key(#[trigger] hs@[j].function@),
            None => forall|j: int| 0 <= j < hs@.len() ==> c.functions@.contains_key(#[trigger] hs@[j].function@),
        },
{
    let n = hs.len();
    for k in 0..n
        invariant
            n == hs@.len(),
            forall|j: int| 0 <= j < k ==> c.functions@.contains_key(#[trigger] hs@[j].function@),
    {
        if !c.functions.contains_key(hs[k].function.as_str()) {
            return Some(k);
        }
    }
    None
}

/// Validate a composition for consistency.
#[verifier::rlimit(40)]
#[verifier::loop_isolation(false)]
pub fn validate_composition(composition: &Composition) -> (r: Result<(), CompositionError>)
    ensures
        r == validation_spec(*composition),
{
    let arch = &composition.architecture;
    let ghost a = arch@;
    let n = arch.len();
    // duplicate names
    let ghost pdup = dup_pred(a);
    for j in 0..n
        invariant
            n == a.len(),
            a == arch@,
            pdup == dup_pred(a),
            forall|x: int| 0 <= x < j ==> !repeats_name(a, x),
    {
        for i in 0..j
            invariant
                j < n,
                n == a.len(),
                a == arch@,
                forall|x: int| 0 <= x < i ==> a[x].name@ != a[j as int].name@,
        {
            if str_eq(arch[i].name.as_str(), arch[j].name.as_str()) {
                proof {
                    assert(repeats_name(a, j as int));
                    lemma_first_from(0, n as int, pdup, j as int);
                }
                return Err(CompositionError::DuplicateNodeName(arch[j].name.clone()));
            }
        }
    }
    proof {
        lemma_first_from(0, n as int, pdup, n as int);
    }
    // model references
    let ghost pm = model_pred(*composition);
    for i in 0..n
        invariant
            n == a.len(),
            a == arch@,
            pm == model_pred(*composition),
            forall|x: int| 0 <= x < i ==> !lacks_model(*composition, x),
    {
        match &arch[i].model {
            Some(m) => {
                if !composition.models.contains_key(m.as_str()) {
                    proof {
                        lemma_first_from(0, n as int, pm, i as int);
                    }
                    return Err(CompositionError::UndefinedModel(m.clone(), arch[i].name.clone()));
                }
            },
            None => {},
        }
    }
    proof {
        lemma_first_from(0, n as int, pm, n as int);
    }
    // output-to references
    let ghost pt = target_pred(a);
    for i in 0..n
        invariant
            n == a.len(),
            a == arch@,
            pt == target_pred(a),
            forall|x: int| 0 <= x < i ==> !has_unknown_target(a, x),
    {
        match &arch[i].output_to {
            Some(OutputTarget::Nodes(ts)) => {
                assert(named_targets(a[i as int]) == ts@);
                match first_unknown_target(arch, ts) {
                    Some(k) => {
                        proof {
                            assert(has_unknown_target(a, i as int));
                            lemma_first_from(0, n as int, pt, i as int);
                        }
                        return Err(CompositionError::UndefinedNode(ts[k].clone()));
                    },
                    None => {},
                }
            },
            _ => {
                assert(named_targets(a[i as int]) =~= Seq::<String>::empty());
            },
        }
    }
    proof {
        lemma_first_from(0, n as int, pt, n as int);
    }
    // a layer-0 node
    let mut has_router = false;
    for i in 0..n
        invariant
            n == a.len(),
            a == arch@,
            has_router == (exists|x: int| 0 <= x < i && a[x].layer == Some(0u32)),
    {
        if arch[i].layer == Some(0u32) {
            has_router = true;
        }
    }
    if !has_router {
        return Err(CompositionError::NoRouterNode);
    }
    // an output node
    let mut has_output = false;
    for i in 0..n
        invariant
            n == a.len(),
            a == arch@,
            has_output == (exists|x: int| 0 <= x < i && a[x].adapter@ == "output"@),
    {
        if arch[i].is_output() {
            has_output = true;
        }
    }
    if !has_output {
        return Err(CompositionError::NoOutputNode);
    }
    // hook function references
    let ghost ph = hook_pred(*composition);
    for i in 0..n
        invariant
            n == a.len(),
            a == arch@,
            ph == hook_pred(*composition),
            forall|x: int| 0 <= x < i ==> !has_unknown_hook(*composition, x),
    {
        let node = &arch[i];
        let ghost hs = node_hook_list(a[i as int]);
        let ghost pk = unknown_hook_pred(*composition, hs);
        match first_unknown_hook(composition, &node.hooks.pre) {
            Some(k) => {
                proof {
                    assert(hs[k as int] == node.hooks.pre@[k as int]);
                    assert forall|j: int| 0 <= j < k implies !#[trigger] pk(j) by {
                        assert(hs[j] == node.hooks.pre@[j]);
                    }
                    assert(unknown_hook(*composition, hs, k as int));
                    lemma_first_from(0, hs.len() as int, pk, k as int);
                    assert(has_unknown_hook(*composition, i as int));
                    lemma_first_from(0, n as int, ph, i as int);
                }
                return Err(CompositionError::UndefinedFunction(
                    node.hooks.pre[k].function.clone(),
                    node.name.clone(),
                ));
            },
            None => {},
        }
        match first_unknown_hook(composition, &node.hooks.post) {
            Some(k) => {
                let np = node.hooks.pre.len();
                proof {
                    assert(hs[np + k] == node.hooks.post@[k as int]);
                    assert forall|j: int| 0 <= j < np + k implies !#[trigger] pk(j) by {
                        if j < np {
                            assert(hs[j] == node.hooks.pre@[j]);
                        } else {
                            assert(hs[j] == node.hooks.post@[j - np]);
                        }
                    }
                    assert(unknown_hook(*composition, hs, np + k));
                    lemma_first_from(0, hs.len() as int, pk, np + k);
                    assert(has_unknown_hook(*composition, i as int));
                    lemma_first_from(0, n as int, ph, i as int);
                }
                return Err(CompositionError::UndefinedFunction(
                    node.hooks.post[k].function.clone(),
                    node.name.clone(),
                ));
            },
            None => {},
        }
        proof {
            assert forall|k: int| 0 <= k < hs.len() implies !unknown_hook(*composition, hs, k) by {
                if k < node.hooks.pre@.len() {
                    assert(hs[k] == node.hooks.pre@[k]);
                } else {
                    assert(hs[k] == node.hooks.post@[k - node.hooks.pre@.len()]);
                }
            }
        }
    }
    proof {
        lemma_first_from(0, n as int, ph, n as int);
    }
    Ok(())
}

/// The nodes a list of references points to.
pub open spec fn deref_nodes(s: Seq<&ArchitectureNode>) -> Seq<ArchitectureNode> {
    Seq::new(s.len(), |i: int| *s[i])
}

/// The index of the first node whose name is `name`.
pub open spec fn index_named(arch: Seq<ArchitectureNode>, name: Seq<char>) -> Option<int> {
    first_where(arch.len() as int, |i: int| arch[i].name@ == name)
}

impl Composition {
    /// Get all nodes in a specific layer
    pub fn nodes_in_layer(&self, layer: u32) -> (r: Vec<&ArchitectureNode>)
        ensures
            deref_nodes(r@) == self.architecture@.filter(|n: ArchitectureNode| n.layer == Some(layer)),
    {
        let ghost f = |n: ArchitectureNode| n.layer == Some(layer);
        let mut out: Vec<&ArchitectureNode> = Vec::new();
        let n = self.architecture.len();
        for i in 0..n
            invariant
                n == self.architecture@.len(),
                f == (|n: ArchitectureNode| n.layer == Some(layer)),
                deref_nodes(out@) == self.architecture@.take(i as int).filter(f),
        {
            let node = &self.architecture[i];
            proof {
                let t = self.architecture@.take(i + 1);
                assert(t.drop_last() =~= self.architecture@.take(i as int));
                assert(t.last() == *node);
                reveal(Seq::filter);
            }
            if node.layer == Some(layer) {
                out.push(node);
                assert(deref_nodes(out@) =~= self.architecture@.take(i + 1).filter(f));
            } else {
                assert(deref_nodes(out@) =~= self.architecture@.take(i + 1).filter(f));
            }
        }
        assert(self.architecture@.take(n as int) =~= self.architecture@);
        out
    }

    /// Get all output nodes
    pub fn output_nodes(&self) -> (r: Vec<&ArchitectureNode>)
        ensures
            deref_nodes(r@) == self.architecture@.filter(|n: ArchitectureNode| n.adapter@ == "output"@),
    {
        let ghost f = |n: ArchitectureNode| n.adapter@ == "output"@;
        let mut out: Vec<&ArchitectureNode> = Vec::new();
        let n = self.architecture.len();
        for i in 0..n
            invariant
                n == self.architecture@.len(),
                f == (|n: ArchitectureNode| n.adapter@ == "output"@),
                deref_nodes(out@) == self.architecture@.take(i as int).filter(f),
        {
            let node = &self.architecture[i];
            proof {
                let t = self.architecture@.take(i + 1);
                assert(t.drop_last() =~= self.architecture@.take(i as int));
                assert(t.last() == *node);
                reveal(Seq::filter);
            }
            if node.is_output() {
                out.push(node);
                assert(deref_nodes(out@) =~= self.architecture@.take(i + 1).filter(f));
            } else {
                assert(deref_nodes(out@) =~= self.architecture@.take(i + 1).filter(f));
            }
        }
        assert(self.architecture@.take(n as int) =~= self.architecture@);
        out
    }

    /// Get the router node (the first node in layer 0)
    pub fn router_node(&self) -> (r: Option<&ArchitectureNode>)
        ensures
            match first_where(self.architecture@.len() as int, |i: int| self.architecture@[i].layer == Some(0u32)) {
                Some(i) => r == Some(&self.architecture@[i]),
                None => r is None,
            },
    {
        let ghost p = |i: int| self.architecture@[i].layer == Some(0u32);
        let n = self.architecture.len();
        for i in 0..n
            invariant
                n == self.architecture@.len(),
                p == (|i: int| self.architecture@[i].layer == Some(0u32)),
                forall|j: int| 0 <= j < i ==> self.architecture@[j].layer != Some(0u32),
        {
            if self.architecture[i].layer == Some(0u32) {
                proof {
                    lemma_first_from(0, n as int, p, i as int);
                }
                return Some(&self.architecture[i]);
            }
        }
        proof {
            lemma_first_from(0, n as int, p, n as int);
        }
        None
    }

    /// Get a node by name (the first with that name)
    pub fn node_by_name(&self, name: &str) -> (r: Option<&ArchitectureNode>)
        ensures
            match index_named(self.architecture@, name@) {
                Some(i) => r == Some(&self.architecture@[i]),
                None => r is None,
            },
    {
        let ghost p = |i: int| self.architecture@[i].name@ == name@;
        let n = self.architecture.len();
        for i in 0..n
            invariant
                n == self.architecture@.len(),
                p == (|i: int| self.architecture@[i].name@ == name@),
                forall|j: int| 0 <= j < i ==> self.architecture@[j].name@ != name@,
        {
            if str_eq(self.architecture[i].name.as_str(), name) {
                proof {
                    lemma_first_from(0, n as int, p, i as int);
                }
                return Some(&self.architecture[i]);
            }
        }
        proof {
            lemma_first_from(0, n as int, p, n as int);
        }
        None
    }

    /// Get the model definition for a node
    pub fn model_for_node(&self, node: &ArchitectureNode) -> (r: Option<&ModelDefinition>)
        ensures
            match node.model {
                Some(m) => match r {
                    Some(d) => self.models@.contains_key(m@) && *d == self.models@[m@],
                    None => !self.models@.contains_key(m@),
                },
                None => r is None,
            },
    {
        match &node.model {
            Some(m) => self.models.get(m.as_str()),
            None => None,
        }
    }
}

} // verus!
