//! Secret sources and the parsing of `.env` content.
use vstd::prelude::*;

use crate::json::{JsonValue, JsonView};
use crate::runtime::hooks::first_keys;
use crate::strmap::StrMap;
use crate::text::{
    chars_eq, chars_of, ends_with, find_char, find_char_exec, lines, occurs_at, occurs_at_exec,
    push_all, push_str, slice_chars, split_lines, starts_with, string_of, trim, trim_chars, views,
};

verus! {

/// Secret source configuration
#[derive(Debug, Clone)]
pub enum SecretSource {
    /// Load from a .env file; an empty `variables` list loads all
    EnvFile { path: String, variables: Vec<String> },
    /// Load from system environment variable
    Env { variable: String },
    /// Load from HashiCorp Vault; the token comes from `token_env` (default VAULT_TOKEN)
    Vault { address: String, path: String, variables: Vec<String>, token_env: Option<String> },
}

/// Errors during secret operations
#[derive(Debug)]
pub enum SecretError {
    EnvFileRead(String),
    EnvFileParse(String),
    EnvVarNotFound(String),
    VaultError(String),
    SecretNotFound(String, String),
    InvalidReference(String),
}

/// Parsed secret reference
#[derive(Debug, Clone, PartialEq, Eq)]
pub struct SecretRef {
    pub secret_name: String,
    pub variable: String,
}

/// `v` without one pair of surrounding double or single quotes.
pub open spec fn unquote(v: Seq<char>) -> Seq<char> {
    if ((starts_with(v, seq!['"']) && ends_with(v, seq!['"'])) || (starts_with(v, seq!['\''])
        && ends_with(v, seq!['\'']))) && v.len() >= 2 {
        v.subrange(1, v.len() - 1)
    } else {
        v
    }
}

/// Effect of one `.env` line on the parsed variables.
pub open spec fn env_line(m: Map<Seq<char>, Seq<char>>, line: Seq<char>) -> Map<Seq<char>, Seq<char>> {
    let t = trim(line);
    if t.len() == 0 || t[0] == '#' {
        m
    } else {
        let p = find_char(t, '=');
        if p >= t.len() {
            m
        } else {
            let key = trim(t.take(p as int));
            let value = unquote(trim(t.skip(p + 1 as int)));
            if key.len() > 0 {
                m.insert(key, value)
            } else {
                m
            }
        }
    }
}

/// The variables of a sequence of `.env` lines; later lines win.
pub open spec fn env_lines(ls: Seq<Seq<char>>) -> Map<Seq<char>, Seq<char>>
    decreases ls.len(),
{
    if ls.len() == 0 {
        Map::empty()
    } else {
        env_line(env_lines(ls.drop_last()), ls.last())
    }
}

/// The map of string views of a string-valued map.
pub open spec fn string_map_view(m: Map<Seq<char>, String>) -> Map<Seq<char>, Seq<char>> {
    Map::new(|k: Seq<char>| m.contains_key(k), |k: Seq<char>| m[k]@)
}

fn unquote_exec(v: Vec<char>) -> (r: Vec<char>)
    ensures
        r@ == unquote(v@),
{
    let n = v.len();
    if n >= 2 && ((v[0] == '"' && v[n - 1] == '"') || (v[0] == '\'' && v[n - 1] == '\'')) {
        proof {
            assert(v@.take(1) =~= seq![v@[0]]);
            assert(v@.skip(n - 1) =~= seq![v@[n - 1]]);
        }
        slice_chars(&v, 1, n - 1)
    } else {
        proof {
            if v@.len() >= 2 {
                if starts_with(v@, seq!['"']) {
                    assert(v@.take(1)[0] == v@[0]);
                }
                if ends_with(v@, seq!['"']) {
                    assert(v@.skip(n - 1)[0] == v@[n - 1]);
                }
                if starts_with(v@, seq!['\'']) {
                    assert(v@.take(1)[0] == v@[0]);
                }
                if ends_with(v@, seq!['\'']) {
                    assert(v@.skip(n - 1)[0] == v@[n - 1]);
                }
            }
        }
        v
    }
}

/// Parse a .env file content into key-value pairs.
/// Handles KEY=VALUE format, # comments, quoted values.
pub fn parse_env_content(content: &str) -> (r: StrMap<String>)
    ensures
        string_map_view(r@) == env_lines(lines(content@)),
{
    let text = chars_of(content);
    let ls = split_lines(&text);
    let ghost all = views(ls@);
    let mut result: StrMap<String> = StrMap::new();
    let n = ls.len();
    proof {
        assert(all.take(0) =~= Seq::<Seq<char>>::empty());
        assert(string_map_view(result@) =~= Map::<Seq<char>, Seq<char>>::empty());
    }
    for i in 0..n
        invariant
            n == ls@.len(),
            all == views(ls@),
            string_map_view(result@) == env_lines(all.take(i as int)),
    {
        let line = trim_chars(&ls[i]);
        let ghost before = string_map_view(result@);
        proof {
            let t = all.take(i + 1);
            assert(t.drop_last() =~= all.take(i as int));
            assert(t.last() == ls@[i as int]@);
        }
        if line.len() == 0 || line[0] == '#' {
            // blank line or comment
        } else {
            let p = find_char_exec(&line, '=');
            if p < line.len() {
                let key_raw = slice_chars(&line, 0, p);
                let key = trim_chars(&key_raw);
                let val_raw = slice_chars(&line, p + 1, line.len());
                let val_t = trim_chars(&val_raw);
                let value = unquote_exec(val_t);
                proof {
                    assert(key_raw@ =~= line@.take(p as int));
                    assert(val_raw@ =~= line@.skip(p + 1));
                }
                if key.len() > 0 {
                    let ks = string_of(&key);
                    let vs = string_of(&value);
                    let _ = result.insert(ks, vs);
                    proof {
                        assert(string_map_view(result@) =~= before.insert(key@, value@));
                    }
                }
            }
        }
    }
    proof {
        assert(all.take(n as int) =~= all);
    }
    result
}

/// The names listed in `filter`.
pub open spec fn name_set(filter: Seq<String>) -> Set<Seq<char>> {
    Set::new(|k: Seq<char>| exists|i: int| 0 <= i < filter.len() && #[trigger] filter[i]@ == k)
}

/// The entries of `values` that `filter` keeps: all of them when it is empty, else those it names.
pub open spec fn filtered(values: Map<Seq<char>, String>, filter: Seq<String>) -> Map<Seq<char>, String> {
    if filter.len() == 0 {
        values
    } else {
        values.restrict(name_set(filter))
    }
}

fn listed(filter: &[String], k: &String) -> (b: bool)
    ensures
        b == name_set(filter@).contains(k@),
{
    let n = filter.len();
    for i in 0..n
        invariant
            n == filter@.len(),
            forall|j: int| 0 <= j < i ==> filter@[j]@ != k@,
    {
        let a = chars_of(filter[i].as_str());
        let b = chars_of(k.as_str());
        if chars_eq(&a, &b) {
            return true;
        }
    }
    false
}

/// Filter a map to only include specified keys.
/// If `filter` is empty, returns all entries.
pub fn filter_variables(values: StrMap<String>, filter: &[String]) -> (r: StrMap<String>)
    ensures
        r@ == filtered(values@, filter@),
{
    if filter.len() == 0 {
        return values;
    }
    let mut out: StrMap<String> = StrMap::new();
    let n = values.len();
    for i in 0..n
        invariant
            n == values.key_seq().len(),
            forall|j: int|
                0 <= j < n ==> values@.contains_key(#[trigger] values.key_seq()[j]) && values@[values.key_seq()[j]]
                    == values.val_seq()[j],
            values.key_seq().no_duplicates(),
            values@.dom() == values.key_seq().to_set(),
            out@ == values@.restrict(name_set(filter@)).restrict(values.key_seq().take(i as int).to_set()),
    {
        let k = values.key_at(i);
        let v = values.val_at(i);
        let ghost before = out@;
        let keep = listed(filter, k);
        if keep {
            let _ = out.insert(k.clone(), v.clone());
        }
        proof {
            let ks = values.key_seq();
            assert(ks.take(i + 1).to_set() =~= ks.take(i as int).to_set().insert(ks[i as int])) by {
                assert forall|x: Seq<char>| #[trigger] ks.take(i + 1).to_set().contains(x) == ks.take(i as int).to_set().insert(ks[i as int]).contains(x) by {
                    if ks.take(i + 1).to_set().contains(x) {
                        let j = choose|j: int| 0 <= j < i + 1 && #[trigger] ks.take(i + 1)[j] == x;
                        if j < i {
                            assert(ks.take(i as int)[j] == x);
                        }
                    }
                    if ks.take(i as int).to_set().contains(x) {
                        let j = choose|j: int| 0 <= j < i && #[trigger] ks.take(i as int)[j] == x;
                        assert(ks.take(i + 1)[j] == x);
                    }
                    if x == ks[i as int] {
                        assert(ks.take(i + 1)[i as int] == x);
                    }
                }
            }
            assert(out@ =~= values@.restrict(name_set(filter@)).restrict(ks.take(i + 1).to_set()));
        }
    }
    proof {
        let ks = values.key_seq();
        assert(ks.take(n as int) =~= ks);
        assert(out@ =~= values@.restrict(name_set(filter@)));
    }
    out
}

/// A character of a secret reference's part: an ASCII letter or digit or `_`,
/// and `-` where `dash` allows it.
pub open spec fn ref_char(c: char, dash: bool) -> bool {
    ('a' <= c <= 'z') || ('A' <= c <= 'Z') || ('0' <= c <= '9') || c == '_' || (dash && c == '-')
}

/// Length of the run of reference characters at position `i` of `s`.
pub open spec fn run_len(s: Seq<char>, i: int, dash: bool) -> nat
    decreases s.len() - i,
{
    if 0 <= i < s.len() && ref_char(s[i], dash) {
        1 + run_len(s, i + 1, dash)
    } else {
        0
    }
}

/// The secret reference `$secrets.NAME.VAR` that starts at position `i` of `s`:
/// its secret name (letters, digits, `_`, `-`), its variable (letters, digits,
/// `_`), each as long as it runs, and the position after it.
pub open spec fn ref_at(s: Seq<char>, i: int) -> Option<(Seq<char>, Seq<char>, int)> {
    if occurs_at(s, "$secrets."@, i) {
        let a = i + 9;
        let n = run_len(s, a, true);
        if n > 0 && a + n < s.len() && s[a + n] == '.' {
            let b = a + n + 1;
            let m = run_len(s, b, false);
            if m > 0 {
                Some((s.subrange(a, a + n), s.subrange(b, b + m), b + m))
            } else {
                None
            }
        } else {
            None
        }
    } else {
        None
    }
}

/// The references of `s` from position `pos` on, leftmost first and not overlapping.
pub open spec fn refs_from(s: Seq<char>, pos: int) -> Seq<(Seq<char>, Seq<char>)>
    decreases s.len() - pos,
{
    if pos < 0 || pos >= s.len() {
        seq![]
    } else {
        match ref_at(s, pos) {
            Some((n, v, e)) => if pos < e <= s.len() {
                seq![(n, v)] + refs_from(s, e)
            } else {
                seq![]
            },
            None => refs_from(s, pos + 1),
        }
    }
}

/// `s` from position `pos` on, each reference replaced by the value stored under
/// `NAME.VAR` (empty when there is none).
pub open spec fn subst_from(s: Seq<char>, pos: int, secrets: Map<Seq<char>, Seq<char>>) -> Seq<char>
    decreases s.len() - pos,
{
    if pos < 0 || pos >= s.len() {
        seq![]
    } else {
        match ref_at(s, pos) {
            Some((n, v, e)) => if pos < e <= s.len() {
                (if secrets.contains_key(n + "."@ + v) {
                    secrets[n + "."@ + v]
                } else {
                    seq![]
                }) + subst_from(s, e, secrets)
            } else {
                seq![]
            },
            None => seq![s[pos]] + subst_from(s, pos + 1, secrets),
        }
    }
}

proof fn lemma_run_len_shift(x: Seq<char>, y: Seq<char>, k: int, dash: bool)
    requires
        0 <= k,
    ensures
        run_len(x + y, x.len() + k, dash) == run_len(y, k, dash),
    decreases y.len() - k,
{
    if k < y.len() {
        assert((x + y)[x.len() + k] == y[k]);
        lemma_run_len_shift(x, y, k + 1, dash);
    }
}

proof fn lemma_ref_at_shift(x: Seq<char>, y: Seq<char>, j: int)
    requires
        0 <= j,
    ensures
        ref_at(x + y, x.len() + j) == match ref_at(y, j) {
            Some((n, v, e)) => Some((n, v, e + x.len())),
            None => None,
        },
{
    reveal_strlit("$secrets.");
    let s = x + y;
    let o = x.len() as int;
    let p = "$secrets."@;
    if j + p.len() <= y.len() {
        assert(s.subrange(o + j, o + j + p.len()) =~= y.subrange(j, j + p.len()));
    }
    assert(occurs_at(s, p, o + j) == occurs_at(y, p, j));
    if occurs_at(y, p, j) {
        let a = j + 9;
        lemma_run_len_shift(x, y, a, true);
        let n = run_len(y, a, true);
        if a + n < y.len() {
            assert(s[o + a + n] == y[a + n]);
            let b = a + n + 1;
            lemma_run_len_shift(x, y, b, false);
            let m = run_len(y, b, false);
            if m > 0 && n > 0 && y[a + n] == '.' {
                lemma_run_len_bound(y, a, true);
                lemma_run_len_bound(y, b, false);
                assert(s.subrange(o + a, o + a + n) =~= y.subrange(a, a + n));
                assert(s.subrange(o + b, o + b + m) =~= y.subrange(b, b + m));
            }
        }
    }
}

proof fn lemma_run_len_bound(s: Seq<char>, i: int, dash: bool)
    requires
        0 <= i,
    ensures
        i + run_len(s, i, dash) <= s.len() || run_len(s, i, dash) == 0,
    decreases s.len() - i,
{
    if 0 <= i < s.len() && ref_char(s[i], dash) {
        lemma_run_len_bound(s, i + 1, dash);
    }
}

proof fn lemma_subst_shift(x: Seq<char>, y: Seq<char>, j: int, m: Map<Seq<char>, Seq<char>>)
    requires
        0 <= j,
    ensures
        subst_from(x + y, x.len() + j, m) == subst_from(y, j, m),
    decreases y.len() - j,
{
    let s = x + y;
    let o = x.len() as int;
    if j < y.len() {
        lemma_ref_at_shift(x, y, j);
        assert(s[o + j] == y[j]);
        match ref_at(y, j) {
            Some((n, v, e)) => {
                if j < e <= y.len() {
                    lemma_subst_shift(x, y, e, m);
                }
            },
            None => {
                lemma_subst_shift(x, y, j + 1, m);
            },
        }
    }
}

proof fn lemma_run_len_exact(s: Seq<char>, i: int, dash: bool, k: int)
    requires
        0 <= i,
        0 <= k,
        i + k <= s.len(),
        forall|j: int| i <= j < i + k ==> ref_char(#[trigger] s[j], dash),
        i + k == s.len() || !ref_char(s[i + k], dash),
    ensures
        run_len(s, i, dash) == k,
    decreases k,
{
    if k > 0 {
        lemma_run_len_exact(s, i + 1, dash, k - 1);
    }
}

/// Text with no `$` holds no reference: substitution leaves it as it is.
pub proof fn lemma_subst_without_dollar(s: Seq<char>, pos: int, m: Map<Seq<char>, Seq<char>>)
    requires
        0 <= pos <= s.len(),
        forall|j: int| 0 <= j < s.len() ==> #[trigger] s[j] != '$',
    ensures
        subst_from(s, pos, m) == s.skip(pos),
    decreases s.len() - pos,
{
    reveal_strlit("$secrets.");
    if pos < s.len() {
        if occurs_at(s, "$secrets."@, pos) {
            assert(s.subrange(pos, pos + 9)[0] == s[pos]);
        }
        lemma_subst_without_dollar(s, pos + 1, m);
        assert(s.skip(pos) =~= seq![s[pos]] + s.skip(pos + 1));
    } else {
        assert(s.skip(pos) =~= Seq::<char>::empty());
    }
}

/// Substitution goes through a prefix without `$` unchanged and carries on with
/// the rest: `subst(x + y) == x + subst(y)`.
pub proof fn lemma_subst_plain_prefix(x: Seq<char>, y: Seq<char>, m: Map<Seq<char>, Seq<char>>)
    requires
        forall|j: int| 0 <= j < x.len() ==> #[trigger] x[j] != '$',
    ensures
        subst_from(x + y, 0, m) == x + subst_from(y, 0, m),
{
    lemma_plain_prefix_from(x, y, m, 0);
    assert(x.skip(0) =~= x);
}

proof fn lemma_plain_prefix_from(x: Seq<char>, y: Seq<char>, m: Map<Seq<char>, Seq<char>>, pos: int)
    requires
        0 <= pos <= x.len(),
        forall|j: int| 0 <= j < x.len() ==> #[trigger] x[j] != '$',
    ensures
        subst_from(x + y, pos, m) == x.skip(pos) + subst_from(y, 0, m),
    decreases x.len() - pos,
{
    reveal_strlit("$secrets.");
    let s = x + y;
    if pos < x.len() {
        assert(s[pos] == x[pos]);
        if occurs_at(s, "$secrets."@, pos) {
            assert(s.subrange(pos, pos + 9)[0] == s[pos]);
        }
        lemma_plain_prefix_from(x, y, m, pos + 1);
        assert(x.skip(pos) =~= seq![x[pos]] + x.skip(pos + 1));
    } else {
        lemma_subst_shift(x, y, 0, m);
        assert(x.skip(pos) =~= Seq::<char>::empty());
    }
}

/// A leading reference `$secrets.NAME.VAR` is replaced by the stored value (empty
/// when none is stored) and substitution carries on with the rest of the text,
/// which is not a part of the variable name: `subst(ref + y) == value + subst(y)`.
pub proof fn lemma_subst_leading_reference(
    name: Seq<char>,
    var: Seq<char>,
    y: Seq<char>,
    m: Map<Seq<char>, Seq<char>>,
)
    requires
        name.len() > 0,
        var.len() > 0,
        forall|j: int| 0 <= j < name.len() ==> ref_char(#[trigger] name[j], true),
        forall|j: int| 0 <= j < var.len() ==> ref_char(#[trigger] var[j], false),
        y.len() == 0 || !ref_char(y[0], false),
    ensures
        subst_from("$secrets."@ + name + "."@ + var + y, 0, m) == (if m.contains_key(name + "."@ + var) {
            m[name + "."@ + var]
        } else {
            seq![]
        }) + subst_from(y, 0, m),
{
    reveal_strlit("$secrets.");
    reveal_strlit(".");
    let r = "$secrets."@ + name + "."@ + var;
    let s = r + y;
    let a = 9int;
    let nl = name.len() as int;
    let b = a + nl + 1;
    let vl = var.len() as int;
    assert(s.subrange(0, 9) =~= "$secrets."@);
    assert(occurs_at(s, "$secrets."@, 0));
    assert forall|j: int| a <= j < a + nl implies ref_char(#[trigger] s[j], true) by {
        assert(s[j] == name[j - a]);
    }
    assert(s[a + nl] == '.');
    lemma_run_len_exact(s, a, true, nl);
    assert forall|j: int| b <= j < b + vl implies ref_char(#[trigger] s[j], false) by {
        assert(s[j] == var[j - b]);
    }
    if b + vl < s.len() {
        assert(s[b + vl] == y[0]);
    }
    lemma_run_len_exact(s, b, false, vl);
    assert(s.subrange(a, a + nl) =~= name);
    assert(s.subrange(b, b + vl) =~= var);
    assert(ref_at(s, 0) == Some((name, var, b + vl)));
    assert(r.len() == b + vl);
    lemma_subst_shift(r, y, 0, m);
}

/// The view of a secret reference.
pub open spec fn ref_view(r: SecretRef) -> (Seq<char>, Seq<char>) {
    (r.secret_name@, r.variable@)
}

fn ref_char_exec(c: char, dash: bool) -> (b: bool)
    ensures
        b == ref_char(c, dash),
{
    ('a' <= c && c <= 'z') || ('A' <= c && c <= 'Z') || ('0' <= c && c <= '9') || c == '_' || (dash
        && c == '-')
}

fn run_len_exec(s: &Vec<char>, i: usize, dash: bool) -> (n: usize)
    requires
        i <= s@.len(),
    ensures
        n == run_len(s@, i as int, dash),
        i + n <= s@.len(),
{
    let mut j = i;
    while j < s.len() && ref_char_exec(s[j], dash)
        invariant
            i <= j <= s@.len(),
            run_len(s@, i as int, dash) == (j - i) + run_len(s@, j as int, dash),
        decreases s@.len() - j,
    {
        j = j + 1;
    }
    j - i
}

fn ref_at_exec(s: &Vec<char>, pat: &Vec<char>, i: usize) -> (r: Option<(Vec<char>, Vec<char>, usize)>)
    requires
        pat@ == "$secrets."@,
        i <= s@.len(),
    ensures
        match ref_at(s@, i as int) {
            Some((n, v, e)) => r matches Some((a, b, f)) && a@ == n && b@ == v && f == e,
            None => r is None,
        },
        r matches Some((a, b, f)) ==> i < f <= s@.len(),
{
    proof {
        reveal_strlit("$secrets.");
    }
    assert(pat@.len() == 9);
    if !occurs_at_exec(s, pat, i) {
        return None;
    }
    let slen = s.len();
    assert(i + 9 <= slen);
    let a = i + 9;
    let n = run_len_exec(s, a, true);
    if n == 0 || a + n >= s.len() || s[a + n] != '.' {
        return None;
    }
    let b = a + n + 1;
    let m = run_len_exec(s, b, false);
    if m == 0 {
        return None;
    }
    Some((slice_chars(s, a, a + n), slice_chars(s, b, b + m), b + m))
}

/// Parse a secret reference like "$secrets.dgx-creds.DGX_API_KEY"
pub fn parse_secret_reference(s: &str) -> (r: Option<SecretRef>)
    ensures
        match ref_at(s@, 0) {
            Some((n, v, e)) => if e == s@.len() {
                r matches Some(x) && x.secret_name@ == n && x.variable@ == v
            } else {
                r is None
            },
            None => r is None,
        },
{
    let c = chars_of(s);
    let pat = chars_of("$secrets.");
    match ref_at_exec(&c, &pat, 0) {
        Some((n, v, e)) => if e == c.len() {
            Some(SecretRef { secret_name: string_of(&n), variable: string_of(&v) })
        } else {
            None
        },
        None => None,
    }
}

/// Find all secret references in a string
pub fn find_secret_references(s: &str) -> (r: Vec<SecretRef>)
    ensures
        r@.map_values(|x: SecretRef| ref_view(x)) == refs_from(s@, 0),
{
    let c = chars_of(s);
    let pat = chars_of("$secrets.");
    let mut out: Vec<SecretRef> = Vec::new();
    let mut pos: usize = 0;
    while pos < c.len()
        invariant
            pos <= c@.len(),
            c@ == s@,
            pat@ == "$secrets."@,
            refs_from(s@, 0) == out@.map_values(|x: SecretRef| ref_view(x)) + refs_from(s@, pos as int),
        decreases c@.len() - pos,
    {
        match ref_at_exec(&c, &pat, pos) {
            Some((n, v, e)) => {
                proof {
                    reveal_strlit("$secrets.");
                }
                assert(e > pos);
                let ghost before = out@;
                out.push(SecretRef { secret_name: string_of(&n), variable: string_of(&v) });
                assert(out@.map_values(|x: SecretRef| ref_view(x)) =~= before.map_values(
                    |x: SecretRef| ref_view(x),
                ).push((n@, v@)));
                pos = e;
            },
            None => {
                pos = pos + 1;
            },
        }
    }
    assert(refs_from(s@, pos as int) =~= Seq::<(Seq<char>, Seq<char>)>::empty());
    assert(out@.map_values(|x: SecretRef| ref_view(x)) =~= refs_from(s@, 0));
    out
}

/// The value under `NAME.VAR`, if any.
fn lookup_secret(secrets: &StrMap<String>, n: &Vec<char>, v: &Vec<char>) -> (r: Option<String>)
    ensures
        match r {
            Some(x) => string_map_view(secrets@).contains_key(n@ + "."@ + v@) && x@ == string_map_view(
                secrets@,
            )[n@ + "."@ + v@],
            None => !string_map_view(secrets@).contains_key(n@ + "."@ + v@),
        },
{
    let mut key: Vec<char> = Vec::new();
    push_all(&mut key, n);
    push_str(&mut key, ".");
    push_all(&mut key, v);
    let k = string_of(&key);
    match secrets.get(k.as_str()) {
        Some(x) => Some(x.clone()),
        None => None,
    }
}

/// Substitute secret references in a string using provided values
pub fn substitute_secrets(template: &str, secrets: &StrMap<String>) -> (r: String)
    ensures
        r@ == subst_from(template@, 0, string_map_view(secrets@)),
{
    let c = chars_of(template);
    let pat = chars_of("$secrets.");
    let ghost m = string_map_view(secrets@);
    let mut out: Vec<char> = Vec::new();
    let mut pos: usize = 0;
    while pos < c.len()
        invariant
            pos <= c@.len(),
            c@ == template@,
            pat@ == "$secrets."@,
            m == string_map_view(secrets@),
            subst_from(template@, 0, m) == out@ + subst_from(template@, pos as int, m),
        decreases c@.len() - pos,
    {
        match ref_at_exec(&c, &pat, pos) {
            Some((n, v, e)) => {
                proof {
                    reveal_strlit("$secrets.");
                }
                assert(e > pos);
                match lookup_secret(secrets, &n, &v) {
                    Some(x) => push_str(&mut out, x.as_str()),
                    None => {},
                }
                pos = e;
            },
            None => {
                out.push(c[pos]);
                pos = pos + 1;
            },
        }
    }
    assert(subst_from(template@, pos as int, m) =~= Seq::<char>::empty());
    assert(out@ =~= subst_from(template@, 0, m));
    string_of(&out)
}

/// A JSON value with the secret references of its strings, and of its objects'
/// keys, substituted.
pub open spec fn subst_json(v: JsonView, secrets: Map<Seq<char>, Seq<char>>) -> JsonView
    decreases v,
{
    match v {
        JsonView::String(t) => JsonView::String(subst_from(t, 0, secrets)),
        JsonView::Array(a) => JsonView::Array(
            Seq::new(
                a.len(),
                |i: int|
                    if 0 <= i < a.len() {
                        subst_json(a[i], secrets)
                    } else {
                        JsonView::Null
                    },
            ),
        ),
        JsonView::Object(es) => JsonView::Object(
            Seq::new(
                es.len(),
                |i: int|
                    if 0 <= i < es.len() {
                        (subst_from(es[i].0, 0, secrets), subst_json(es[i].1, secrets))
                    } else {
                        (Seq::empty(), JsonView::Null)
                    },
            ),
        ),
        other => other,
    }
}

/// Substitute secrets in a JSON value recursively
#[verifier::loop_isolation(false)]
pub fn substitute_secrets_in_value(value: &JsonValue, secrets: &StrMap<String>) -> (r: JsonValue)
    ensures
        r@ == subst_json(value@, string_map_view(secrets@)),
    decreases value,
{
    let ghost m = string_map_view(secrets@);
    match value {
        JsonValue::String(t) => JsonValue::String(substitute_secrets(t.as_str(), secrets)),
        JsonValue::Array(a) => {
            let mut out: Vec<JsonValue> = Vec::new();
            let n = a.len();
            for i in 0..n
                invariant
                    n == a@.len(),
                    out@.len() == i,
                    forall|j: int| 0 <= j < i ==> #[trigger] out@[j]@ == subst_json(a@[j]@, m),
            {
                proof {
                    assert(decreases_to!(*value => (*value)->Array_0));
                    assert(decreases_to!(*a => a@));
                    assert(decreases_to!(a@ => a@[i as int]));
                }
                out.push(substitute_secrets_in_value(&a[i], secrets));
            }
            let r = JsonValue::Array(out);
            assert(r@ == subst_json(value@, m)) by {
                let want = subst_json(value@, m);
                assert forall|j: int| 0 <= j < n implies r@->Array_0[j] == want->Array_0[j] by {
                    assert(out@[j]@ == subst_json(a@[j]@, m));
                    assert(value@->Array_0[j] == a@[j]@);
                }
                assert(r@->Array_0 =~= want->Array_0);
            }
            r
        },
        JsonValue::Object(es) => {
            let mut out: Vec<(String, JsonValue)> = Vec::new();
            let n = es.len();
            for i in 0..n
                invariant
                    n == es@.len(),
                    out@.len() == i,
                    forall|j: int|
                        0 <= j < i ==> (#[trigger] out@[j]).0@ == subst_from(es@[j].0@, 0, m)
                            && out@[j].1@ == subst_json(es@[j].1@, m),
            {
                proof {
                    assert(decreases_to!(*value => (*value)->Object_0));
                    assert(decreases_to!(*es => es@));
                    assert(decreases_to!(es@ => es@[i as int]));
                    assert(decreases_to!(es@[i as int] => es@[i as int].1));
                }
                let k = substitute_secrets(es[i].0.as_str(), secrets);
                let x = substitute_secrets_in_value(&es[i].1, secrets);
                out.push((k, x));
            }
            let r = JsonValue::Object(out);
            assert(r@ == subst_json(value@, m)) by {
                let want = subst_json(value@, m);
                assert forall|j: int| 0 <= j < n implies r@->Object_0[j] == want->Object_0[j] by {
                    assert(value@->Object_0[j] == (es@[j].0@, es@[j].1@));
                }
                assert(r@->Object_0 =~= want->Object_0);
            }
            r
        },
        JsonValue::Null => JsonValue::Null,
        JsonValue::Bool(b) => JsonValue::Bool(*b),
        JsonValue::Number(t) => JsonValue::Number(t.clone()),
    }
}

/// Manager for loaded secrets: values stored under `secret_name.variable`.
#[derive(Debug)]
pub struct SecretsManager {
    secrets: StrMap<String>,
}

/// The key a secret's variable is stored under.
pub open spec fn secret_key(secret_name: Seq<char>, variable: Seq<char>) -> Seq<char> {
    secret_name + "."@ + variable
}

fn secret_key_exec(secret_name: &str, variable: &str) -> (k: String)
    ensures
        k@ == secret_key(secret_name@, variable@),
{
    let mut v: Vec<char> = Vec::new();
    push_str(&mut v, secret_name);
    push_str(&mut v, ".");
    push_str(&mut v, variable);
    string_of(&v)
}

impl SecretsManager {
    /// The stored values, by key.
    pub closed spec fn stored(&self) -> Map<Seq<char>, Seq<char>> {
        string_map_view(self.secrets@)
    }

    pub fn new() -> (m: Self)
        ensures
            m.stored() == Map::<Seq<char>, Seq<char>>::empty(),
    {
        let m = SecretsManager { secrets: StrMap::new() };
        assert(m.stored() =~= Map::<Seq<char>, Seq<char>>::empty());
        m
    }

    /// Store a loaded value of `variable` of secret `secret_name`.
    pub fn store(&mut self, secret_name: &str, variable: &str, value: String)
        ensures
            final(self).stored() == old(self).stored().insert(secret_key(secret_name@, variable@), value@),
    {
        let k = secret_key_exec(secret_name, variable);
        let _ = self.secrets.insert(k, value);
        assert(self.stored() =~= old(self).stored().insert(secret_key(secret_name@, variable@), value@));
    }

    /// Resolve a secret by name and variable
    pub fn resolve(&self, secret_name: &str, variable: &str) -> (r: Option<String>)
        ensures
            match r {
                Some(v) => self.stored().contains_key(secret_key(secret_name@, variable@)) && v@
                    == self.stored()[secret_key(secret_name@, variable@)],
                None => !self.stored().contains_key(secret_key(secret_name@, variable@)),
            },
    {
        let k = secret_key_exec(secret_name, variable);
        match self.secrets.get(k.as_str()) {
            Some(v) => Some(v.clone()),
            None => None,
        }
    }

    /// All loaded secrets, by key.
    pub fn all_secrets(&self) -> (r: StrMap<String>)
        ensures
            string_map_view(r@) == self.stored(),
    {
        let n = self.secrets.len();
        let ghost ks = self.secrets.key_seq();
        let mut out: StrMap<String> = StrMap::new();
        for i in 0..n
            invariant
                n == ks.len(),
                ks == self.secrets.key_seq(),
                ks.no_duplicates(),
                self.secrets@.dom() == ks.to_set(),
                forall|j: int| 0 <= j < ks.len() ==> self.secrets@.contains_key(#[trigger] ks[j])
                    && self.secrets@[ks[j]] == self.secrets.val_seq()[j],
                string_map_view(out@) == string_map_view(self.secrets@).restrict(first_keys(ks, i as int)),
        {
            let k = self.secrets.key_at(i);
            let v = self.secrets.val_at(i);
            let ghost before = out@;
            let kc = k.clone();
            let vc = v.clone();
            assert(kc@ == ks[i as int]);
            assert(vc@ == self.secrets@[ks[i as int]]@);
            let _ = out.insert(kc, vc);
            proof {
                assert(string_map_view(out@) =~= string_map_view(before).insert(ks[i as int], vc@));
                assert(first_keys(ks, i + 1) =~= first_keys(ks, i as int).insert(ks[i as int]));
                assert(string_map_view(out@) =~= string_map_view(self.secrets@).restrict(
                    first_keys(ks, i + 1),
                ));
            }
        }
        proof {
            assert(first_keys(ks, n as int) =~= ks.to_set());
            assert(string_map_view(out@) =~= string_map_view(self.secrets@));
        }
        out
    }

    /// Substitute secret references in a string
    pub fn substitute(&self, template: &str) -> (r: String)
        ensures
            r@ == subst_from(template@, 0, self.stored()),
    {
        substitute_secrets(template, &self.secrets)
    }

    /// Substitute secret references in a JSON value
    pub fn substitute_value(&self, value: &JsonValue) -> (r: JsonValue)
        ensures
            r@ == subst_json(value@, self.stored()),
    {
        substitute_secrets_in_value(value, &self.secrets)
    }
}

} // verus!
