//! JSON values as the library reads them.
//!
//! A number is kept as the text `serde_json` prints for it; an object is its
//! entries, a later entry for a key standing over an earlier one, so that an object
//! means the map of its keys; printed, it shows each key once, in key order.
use vstd::prelude::*;

use crate::text::{lex_le, str_eq};

verus! {

/// A JSON value.
#[derive(Debug)]
pub enum JsonValue {
    Null,
    Bool(bool),
    /// A number, as its printed text.
    Number(String),
    String(String),
    Array(Vec<JsonValue>),
    Object(Vec<(String, JsonValue)>),
}

/// The mathematical content of a JSON value.
pub enum JsonView {
    Null,
    Bool(bool),
    Number(Seq<char>),
    String(Seq<char>),
    Array(Seq<JsonView>),
    Object(Seq<(Seq<char>, JsonView)>),
}

impl JsonValue {
    /// The content of the value.
    pub open spec fn json_view(&self) -> JsonView
        decreases self,
    {
        match self {
            JsonValue::Null => JsonView::Null,
            JsonValue::Bool(b) => JsonView::Bool(*b),
            JsonValue::Number(n) => JsonView::Number(n@),
            JsonValue::String(s) => JsonView::String(s@),
            JsonValue::Array(a) => JsonView::Array(
                Seq::new(
                    a@.len(),
                    |i: int|
                        if 0 <= i < a@.len() {
                            a@[i].json_view()
                        } else {
                            JsonView::Null
                        },
                ),
            ),
            JsonValue::Object(es) => JsonView::Object(
                Seq::new(
                    es@.len(),
                    |i: int|
                        if 0 <= i < es@.len() {
                            (es@[i].0@, es@[i].1.json_view())
                        } else {
                            (Seq::empty(), JsonView::Null)
                        },
                ),
            ),
        }
    }
}

impl View for JsonValue {
    type V = JsonView;

    open spec fn view(&self) -> JsonView {
        self.json_view()
    }
}

/// The entries of an object, by view.
pub open spec fn entry_views(es: Seq<(String, JsonValue)>) -> Seq<(Seq<char>, JsonView)> {
    Seq::new(es.len(), |i: int| (es[i].0@, es[i].1@))
}

/// The key-value map of an object's entries: the last entry for a key counts.
pub open spec fn entries_map(es: Seq<(Seq<char>, JsonView)>) -> Map<Seq<char>, JsonView>
    decreases es.len(),
{
    if es.len() == 0 {
        Map::empty()
    } else {
        entries_map(es.drop_last()).insert(es.last().0, es.last().1)
    }
}

/// What an object holds under key `k`.
pub open spec fn entry_of(es: Seq<(Seq<char>, JsonView)>, k: Seq<char>) -> Option<JsonView> {
    if entries_map(es).contains_key(k) {
        Some(entries_map(es)[k])
    } else {
        None
    }
}

/// The value an object holds under `k`: the last entry with that key.
pub fn object_get<'a>(es: &'a Vec<(String, JsonValue)>, k: &str) -> (r: Option<&'a JsonValue>)
    ensures
        match r {
            Some(v) => entry_of(entry_views(es@), k@) == Some(v@),
            None => entry_of(entry_views(es@), k@) is None,
        },
{
    let ghost ev = entry_views(es@);
    let mut i = es.len();
    assert(ev.take(ev.len() as int) =~= ev);
    while i > 0
        invariant
            i <= es@.len(),
            ev == entry_views(es@),
            entry_of(ev, k@) == entry_of(ev.take(i as int), k@),
        decreases i,
    {
        let j = i - 1;
        proof {
            let t = ev.take(i as int);
            assert(t.drop_last() =~= ev.take(j as int));
            assert(t.last() == ev[j as int]);
        }
        if str_eq(es[j].0.as_str(), k) {
            return Some(&es[j].1);
        }
        i = j;
    }
    proof {
        assert(ev.take(0) =~= Seq::<(Seq<char>, JsonView)>::empty());
    }
    None
}

/// A copy of `v`.
#[verifier::loop_isolation(false)]
pub fn copy_json(v: &JsonValue) -> (r: JsonValue)
    ensures
        r@ == v@,
    decreases v,
{
    match v {
        JsonValue::Null => JsonValue::Null,
        JsonValue::Bool(b) => JsonValue::Bool(*b),
        JsonValue::Number(n) => JsonValue::Number(n.clone()),
        JsonValue::String(s) => JsonValue::String(s.clone()),
        JsonValue::Array(a) => {
            let mut out: Vec<JsonValue> = Vec::new();
            let n = a.len();
            for i in 0..n
                invariant
                    n == a@.len(),
                    out@.len() == i,
                    forall|j: int| 0 <= j < i ==> #[trigger] out@[j]@ == a@[j]@,
            {
                proof {
                    assert(decreases_to!(*v => (*v)->Array_0));
                    assert(decreases_to!(*a => a@));
                    assert(decreases_to!(a@ => a@[i as int]));
                }
                out.push(copy_json(&a[i]));
            }
            let r = JsonValue::Array(out);
            assert(r@ == v@) by {
                assert forall|j: int| 0 <= j < n implies r@->Array_0[j] == v@->Array_0[j] by {
                    assert(out@[j]@ == a@[j]@);
                }
                assert(r@->Array_0 =~= v@->Array_0);
            }
            r
        },
        JsonValue::Object(es) => {
            let mut out: Vec<(String, JsonValue)> = Vec::new();
            let n = es.len();
            for i in 0..n
                invariant
                    n == es@.len(),
                    out@.len() == i,
                    forall|j: int| 0 <= j < i ==> (#[trigger] out@[j]).0@ == es@[j].0@ && out@[j].1@ == es@[j].1@,
            {
                proof {
                    assert(decreases_to!(*v => (*v)->Object_0));
                    assert(decreases_to!(*es => es@));
                    assert(decreases_to!(es@ => es@[i as int]));
                    assert(decreases_to!(es@[i as int] => es@[i as int].1));
                }
                let k = es[i].0.clone();
                let x = copy_json(&es[i].1);
                out.push((k, x));
                assert(out@[i as int].0@ == es@[i as int].0@ && out@[i as int].1@ == es@[i as int].1@);
            }
            let r = JsonValue::Object(out);
            assert(r@ == v@) by {
                assert forall|j: int| 0 <= j < n implies r@->Object_0[j] == v@->Object_0[j] by {
                    assert(out@[j].0@ == es@[j].0@ && out@[j].1@ == es@[j].1@);
                }
                assert(r@->Object_0 =~= v@->Object_0);
            }
            r
        },
    }
}

/// Copies of the values of a list.
pub fn copy_json_list(a: &Vec<JsonValue>) -> (r: Vec<JsonValue>)
    ensures
        r@.len() == a@.len(),
        forall|j: int| 0 <= j < a@.len() ==> #[trigger] r@[j]@ == a@[j]@,
{
    let mut out: Vec<JsonValue> = Vec::new();
    let n = a.len();
    for i in 0..n
        invariant
            n == a@.len(),
            out@.len() == i,
            forall|j: int| 0 <= j < i ==> #[trigger] out@[j]@ == a@[j]@,
    {
        out.push(copy_json(&a[i]));
    }
    out
}

/// Whether a value counts as set: true, a non-empty string, array or object, or
/// any number.
pub open spec fn truthy(v: JsonView) -> bool {
    match v {
        JsonView::Bool(b) => b,
        JsonView::Null => false,
        JsonView::String(s) => s.len() > 0,
        JsonView::Number(_) => true,
        JsonView::Array(a) => a.len() > 0,
        JsonView::Object(o) => o.len() > 0,
    }
}

/// Whether a value counts as set.
pub fn is_truthy(v: &JsonValue) -> (b: bool)
    ensures
        b == truthy(v@),
{
    match v {
        JsonValue::Bool(b) => *b,
        JsonValue::Null => false,
        JsonValue::String(s) => !s.as_str().is_empty(),
        JsonValue::Number(_) => true,
        JsonValue::Array(a) => a.len() > 0,
        JsonValue::Object(o) => o.len() > 0,
    }
}

/// A hexadecimal digit, lower case.
pub open spec fn hex_digit(d: u32) -> char {
    if d < 10 {
        ('0' as u32 + d) as char
    } else {
        ('a' as u32 + d - 10) as char
    }
}

/// How a character is written inside a JSON string: quote, backslash and control
/// characters escaped (the short forms where JSON has one, else `\u00XX`).
pub open spec fn escape_char(c: char) -> Seq<char> {
    if c == '"' {
        seq!['\\', '"']
    } else if c == '\\' {
        seq!['\\', '\\']
    } else if c == '\n' {
        seq!['\\', 'n']
    } else if c == '\r' {
        seq!['\\', 'r']
    } else if c == '\t' {
        seq!['\\', 't']
    } else if c == '\u{8}' {
        seq!['\\', 'b']
    } else if c == '\u{c}' {
        seq!['\\', 'f']
    } else if (c as u32) < 0x20 {
        seq!['\\', 'u', '0', '0', hex_digit((c as u32) / 16), hex_digit((c as u32) % 16)]
    } else {
        seq![c]
    }
}

/// The escaped characters of the first `n` characters of `s`.
pub open spec fn escaped(s: Seq<char>, n: nat) -> Seq<char>
    decreases n,
{
    if n == 0 || n > s.len() {
        seq![]
    } else {
        escaped(s, (n - 1) as nat) + escape_char(s[n - 1])
    }
}

/// A string as a JSON string literal.
pub open spec fn json_string(s: Seq<char>) -> Seq<char> {
    seq!['"'] + escaped(s, s.len()) + seq!['"']
}

/// `i` placed into `l`, a list of entry positions kept in increasing key order with
/// one position per key: it takes the place of the position of an equal key, else
/// goes before the first greater key.
pub open spec fn insert_index(l: Seq<int>, es: Seq<(Seq<char>, JsonView)>, i: int) -> Seq<int>
    decreases l.len(),
{
    if l.len() == 0 {
        seq![i]
    } else if es[l[0]].0 == es[i].0 {
        seq![i] + l.drop_first()
    } else if lex_le(es[i].0, es[l[0]].0) {
        seq![i] + l
    } else {
        seq![l[0]] + insert_index(l.drop_first(), es, i)
    }
}

/// The positions of the first `m` entries of an object to print: one per key (the
/// last entry of a key wins), in increasing key order, as a map of keys holds them.
pub open spec fn key_order(es: Seq<(Seq<char>, JsonView)>, m: nat) -> Seq<int>
    decreases m,
{
    if m == 0 {
        seq![]
    } else {
        insert_index(key_order(es, (m - 1) as nat), es, m - 1)
    }
}

/// A value as compact JSON text: no spaces; an object prints each key once, with
/// its last value, in increasing key order.
pub open spec fn json_text(v: JsonView) -> Seq<char>
    decreases v, 0nat,
{
    match v {
        JsonView::Null => "null"@,
        JsonView::Bool(b) => if b { "true"@ } else { "false"@ },
        JsonView::Number(t) => t,
        JsonView::String(t) => json_string(t),
        JsonView::Array(a) => seq!['['] + items_text(a, a.len()) + seq![']'],
        JsonView::Object(es) => seq!['{'] + entries_text(es, key_order(es, es.len()), key_order(es, es.len()).len())
            + seq!['}'],
    }
}

/// The first `n` items of an array, comma-separated.
pub open spec fn items_text(a: Seq<JsonView>, n: nat) -> Seq<char>
    decreases a, n,
{
    if n == 0 || n > a.len() {
        seq![]
    } else {
        items_text(a, (n - 1) as nat) + (if n > 1 { seq![','] } else { seq![] }) + json_text(a[n - 1])
    }
}

/// The entries at the first `n` positions of `ord`, comma-separated `"key":value`.
pub open spec fn entries_text(es: Seq<(Seq<char>, JsonView)>, ord: Seq<int>, n: nat) -> Seq<char>
    decreases es, n,
{
    if n == 0 || n > ord.len() {
        seq![]
    } else {
        let k = ord[n - 1];
        entries_text(es, ord, (n - 1) as nat) + (if n > 1 { seq![','] } else { seq![] }) + if 0 <= k
            < es.len() {
            json_string(es[k].0) + seq![':'] + json_text(es[k].1)
        } else {
            seq![]
        }
    }
}

/// Placing `i` keeps the positions below `bound`.
proof fn lemma_insert_index_range(l: Seq<int>, es: Seq<(Seq<char>, JsonView)>, i: int, bound: int)
    requires
        0 <= i < bound,
        forall|t: int| 0 <= t < l.len() ==> 0 <= #[trigger] l[t] < bound,
    ensures
        forall|t: int|
            0 <= t < insert_index(l, es, i).len() ==> 0 <= #[trigger] insert_index(l, es, i)[t] < bound,
    decreases l.len(),
{
    if l.len() > 0 {
        let r = l.drop_first();
        assert forall|t: int| 0 <= t < r.len() implies 0 <= #[trigger] r[t] < bound by {
            assert(r[t] == l[t + 1]);
        }
        lemma_insert_index_range(r, es, i, bound);
        let res = insert_index(l, es, i);
        assert forall|t: int| 0 <= t < res.len() implies 0 <= #[trigger] res[t] < bound by {
            if es[l[0]].0 == es[i].0 {
                if t > 0 {
                    assert(res[t] == r[t - 1]);
                }
            } else if lex_le(es[i].0, es[l[0]].0) {
                if t > 0 {
                    assert(res[t] == l[t - 1]);
                }
            } else {
                if t > 0 {
                    assert(res[t] == insert_index(r, es, i)[t - 1]);
                }
            }
        }
    }
}

/// The print order of the first `m` entries names positions below `m`.
proof fn lemma_key_order_range(es: Seq<(Seq<char>, JsonView)>, m: nat)
    ensures
        forall|t: int| 0 <= t < key_order(es, m).len() ==> 0 <= #[trigger] key_order(es, m)[t] < m,
    decreases m,
{
    if m > 0 {
        lemma_key_order_range(es, (m - 1) as nat);
        lemma_insert_index_range(key_order(es, (m - 1) as nat), es, m - 1, m as int);
    }
}

/// Placing `i` passes over a prefix of smaller, different keys.
proof fn lemma_insert_index_skip(l: Seq<int>, es: Seq<(Seq<char>, JsonView)>, i: int, j: int)
    requires
        0 <= j <= l.len(),
        forall|t: int| 0 <= t < j ==> es[#[trigger] l[t]].0 != es[i].0 && !lex_le(es[i].0, es[l[t]].0),
    ensures
        insert_index(l, es, i) == l.take(j) + insert_index(l.skip(j), es, i),
    decreases j,
{
    if j > 0 {
        let r = l.drop_first();
        assert forall|t: int| 0 <= t < j - 1 implies es[#[trigger] r[t]].0 != es[i].0 && !lex_le(es[i].0, es[r[t]].0) by {
            assert(r[t] == l[t + 1]);
        }
        lemma_insert_index_skip(r, es, i, j - 1);
        assert(r.skip(j - 1) =~= l.skip(j));
        assert(seq![l[0]] + r.take(j - 1) =~= l.take(j));
        assert(es[l[0]].0 != es[i].0 && !lex_le(es[i].0, es[l[0]].0));
    } else {
        assert(l.skip(0) =~= l);
    }
}

fn insert_index_exec(l: Vec<usize>, es: &Vec<(String, JsonValue)>, i: usize) -> (r: Vec<usize>)
    requires
        i < es@.len(),
        forall|t: int| 0 <= t < l@.len() ==> #[trigger] l@[t] < es@.len(),
    ensures
        r@.map_values(|x: usize| x as int) == insert_index(
            l@.map_values(|x: usize| x as int),
            entry_views(es@),
            i as int,
        ),
{
    let ghost ev = entry_views(es@);
    let ghost li = l@.map_values(|x: usize| x as int);
    let ki = crate::text::chars_of(es[i].0.as_str());
    let n = l.len();
    let mut j: usize = 0;
    while j < n
        invariant
            n == l@.len(),
            j <= n,
            ki@ == ev[i as int].0,
            ev == entry_views(es@),
            li == l@.map_values(|x: usize| x as int),
            i < es@.len(),
            forall|t: int| 0 <= t < l@.len() ==> #[trigger] l@[t] < es@.len(),
            forall|t: int| 0 <= t < j ==> ev[#[trigger] li[t]].0 != ev[i as int].0 && !lex_le(ev[i as int].0, ev[li[t]].0),
        ensures
            j <= n,
            j < n ==> (ev[li[j as int]].0 == ev[i as int].0 || lex_le(ev[i as int].0, ev[li[j as int]].0)),
            forall|t: int| 0 <= t < j ==> ev[#[trigger] li[t]].0 != ev[i as int].0 && !lex_le(ev[i as int].0, ev[li[t]].0),
        decreases n - j,
    {
        let kj = crate::text::chars_of(es[l[j]].0.as_str());
        assert(kj@ == ev[li[j as int]].0);
        if crate::text::chars_eq(&kj, &ki) || crate::text::lex_le_exec(&ki, &kj) {
            break;
        }
        j = j + 1;
    }
    proof {
        lemma_insert_index_skip(li, ev, i as int, j as int);
    }
    let mut r: Vec<usize> = Vec::new();
    for t in 0..j
        invariant
            j <= n,
            n == l@.len(),
            r@ == l@.take(t as int),
    {
        r.push(l[t]);
        assert(r@ =~= l@.take(t + 1));
    }
    r.push(i);
    let same = j < n && {
        let kj = crate::text::chars_of(es[l[j]].0.as_str());
        assert(kj@ == ev[li[j as int]].0);
        crate::text::chars_eq(&kj, &ki)
    };
    let from = if same { j + 1 } else { j };
    for t in from..n
        invariant
            from <= n,
            n == l@.len(),
            r@ == l@.take(j as int).push(i) + l@.subrange(from as int, t as int),
    {
        r.push(l[t]);
        assert(r@ =~= l@.take(j as int).push(i) + l@.subrange(from as int, t + 1));
    }
    proof {
        let rest = li.skip(j as int);
        if j < n {
            assert(rest[0] == li[j as int]);
            assert(rest.drop_first() =~= li.skip(j + 1));
        }
        assert(r@.map_values(|x: usize| x as int) =~= li.take(j as int) + insert_index(rest, ev, i as int));
    }
    r
}

/// The positions of an object's entries in print order.
fn key_order_exec(es: &Vec<(String, JsonValue)>) -> (r: Vec<usize>)
    ensures
        r@.map_values(|x: usize| x as int) == key_order(entry_views(es@), es@.len()),
        forall|t: int| 0 <= t < r@.len() ==> #[trigger] r@[t] < es@.len(),
{
    let n = es.len();
    let mut r: Vec<usize> = Vec::new();
    assert(r@.map_values(|x: usize| x as int) =~= key_order(entry_views(es@), 0));
    for i in 0..n
        invariant
            n == es@.len(),
            r@.map_values(|x: usize| x as int) == key_order(entry_views(es@), i as nat),
            forall|t: int| 0 <= t < r@.len() ==> #[trigger] r@[t] < i,
    {
        r = insert_index_exec(r, es, i);
        proof {
            lemma_key_order_range(entry_views(es@), (i + 1) as nat);
            assert forall|t: int| 0 <= t < r@.len() implies #[trigger] r@[t] < i + 1 by {
                assert(r@.map_values(|x: usize| x as int)[t] == r@[t] as int);
                assert(r@.map_values(|x: usize| x as int)[t] == key_order(entry_views(es@), (i + 1) as nat)[t]);
            }
        }
    }
    r
}

pub(crate) fn hex_char(d: u32) -> (c: char)
    requires
        d < 16,
    ensures
        c == hex_digit(d),
{
    match d {
        0 => '0',
        1 => '1',
        2 => '2',
        3 => '3',
        4 => '4',
        5 => '5',
        6 => '6',
        7 => '7',
        8 => '8',
        9 => '9',
        10 => 'a',
        11 => 'b',
        12 => 'c',
        13 => 'd',
        14 => 'e',
        15 => 'f',
        _ => 'f',
    }
}

fn push_escaped(out: &mut Vec<char>, s: &str)
    ensures
        final(out)@ == old(out)@ + json_string(s@),
{
    let cs = crate::text::chars_of(s);
    out.push('"');
    let ghost h = out@;
    let n = cs.len();
    for i in 0..n
        invariant
            n == cs@.len(),
            cs@ == s@,
            out@ == h + escaped(s@, i as nat),
    {
        let c = cs[i];
        let ghost before = out@;
        if c == '"' {
            out.push('\\');
            out.push('"');
        } else if c == '\\' {
            out.push('\\');
            out.push('\\');
        } else if c == '\n' {
            out.push('\\');
            out.push('n');
        } else if c == '\r' {
            out.push('\\');
            out.push('r');
        } else if c == '\t' {
            out.push('\\');
            out.push('t');
        } else if c == '\u{8}' {
            out.push('\\');
            out.push('b');
        } else if c == '\u{c}' {
            out.push('\\');
            out.push('f');
        } else if (c as u32) < 0x20 {
            out.push('\\');
            out.push('u');
            out.push('0');
            out.push('0');
            out.push(hex_char((c as u32) / 16));
            out.push(hex_char((c as u32) % 16));
        } else {
            out.push(c);
        }
        assert(out@ =~= before + escape_char(s@[i as int]));
        assert(out@ =~= h + escaped(s@, (i + 1) as nat));
    }
    out.push('"');
    assert(out@ =~= old(out)@ + json_string(s@));
}

/// Appends a value as compact JSON text.
#[verifier::loop_isolation(false)]
#[verifier::rlimit(60)]
pub fn push_json(out: &mut Vec<char>, v: &JsonValue)
    ensures
        final(out)@ == old(out)@ + json_text(v@),
    decreases v,
{
    match v {
        JsonValue::Null => crate::text::push_str(out, "null"),
        JsonValue::Bool(b) => if *b {
            crate::text::push_str(out, "true")
        } else {
            crate::text::push_str(out, "false")
        },
        JsonValue::Number(t) => crate::text::push_str(out, t.as_str()),
        JsonValue::String(t) => push_escaped(out, t.as_str()),
        JsonValue::Array(a) => {
            out.push('[');
            let ghost h = out@;
            let ghost av = v@->Array_0;
            let n = a.len();
            for i in 0..n
                invariant
                    n == a@.len(),
                    av == v@->Array_0,
                    av.len() == n,
                    forall|j: int| 0 <= j < n ==> av[j] == #[trigger] a@[j]@,
                    out@ == h + items_text(av, i as nat),
            {
                proof {
                    assert(decreases_to!(*v => (*v)->Array_0));
                    assert(decreases_to!(*a => a@));
                    assert(decreases_to!(a@ => a@[i as int]));
                }
                if i > 0 {
                    out.push(',');
                }
                push_json(out, &a[i]);
                assert(out@ =~= h + items_text(av, (i + 1) as nat));
            }
            out.push(']');
            assert(out@ =~= old(out)@ + json_text(v@));
        },
        JsonValue::Object(es) => {
            let order = key_order_exec(es);
            out.push('{');
            let ghost h = out@;
            let ghost ev = v@->Object_0;
            let ghost ord = order@.map_values(|x: usize| x as int);
            proof {
                assert(ev =~= entry_views(es@));
            }
            let n = order.len();
            for i in 0..n
                invariant
                    n == order@.len(),
                    ev == v@->Object_0,
                    ev.len() == es@.len(),
                    ord == order@.map_values(|x: usize| x as int),
                    ord == key_order(ev, ev.len()),
                    forall|t: int| 0 <= t < n ==> #[trigger] order@[t] < es@.len(),
                    forall|j: int| 0 <= j < es@.len() ==> ev[j] == (#[trigger] es@[j].0@, es@[j].1@),
                    out@ == h + entries_text(ev, ord, i as nat),
            {
                let k = order[i];
                proof {
                    assert(decreases_to!(*v => (*v)->Object_0));
                    assert(decreases_to!(*es => es@));
                    assert(decreases_to!(es@ => es@[k as int]));
                    assert(decreases_to!(es@[k as int] => es@[k as int].1));
                    assert(ord[i as int] == k as int);
                }
                if i > 0 {
                    out.push(',');
                }
                push_escaped(out, es[k].0.as_str());
                out.push(':');
                push_json(out, &es[k].1);
                assert(out@ =~= h + entries_text(ev, ord, (i + 1) as nat));
            }
            out.push('}');
            assert(out@ =~= old(out)@ + json_text(v@));
        },
    }
}

/// A value as compact JSON text.
pub fn json_to_string(v: &JsonValue) -> (s: String)
    ensures
        s@ == json_text(v@),
{
    let mut out: Vec<char> = Vec::new();
    push_json(&mut out, v);
    crate::text::string_of(&out)
}

impl Clone for JsonValue {
    /// A copy with the same content.
    fn clone(&self) -> (r: Self)
        ensures
            r@ == self@,
    {
        copy_json(self)
    }
}

/// Entries appended after an object's entries stand over them: the map of the
/// joined entries is the first map updated with the second.
pub proof fn lemma_merge_entries(a: Seq<(Seq<char>, JsonView)>, b: Seq<(Seq<char>, JsonView)>)
    ensures
        entries_map(a + b) == entries_map(a).union_prefer_right(entries_map(b)),
    decreases b.len(),
{
    if b.len() == 0 {
        assert(a + b =~= a);
        assert(entries_map(a).union_prefer_right(entries_map(b)) =~= entries_map(a));
    } else {
        lemma_merge_entries(a, b.drop_last());
        assert((a + b).drop_last() =~= a + b.drop_last());
        assert((a + b).last() == b.last());
        assert(entries_map(a + b) =~= entries_map(a).union_prefer_right(entries_map(b)));
    }
}

} // verus!
