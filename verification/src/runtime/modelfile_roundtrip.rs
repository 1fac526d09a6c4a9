//! Reading back a generated Modelfile gives the Modelfile that was written.
use vstd::prelude::*;

use super::ollama::{
    adapter_lines, body_text, directive_step, directive_word, empty_modelfile, generate_spec,
    init_state, opt_body_text, pair_lines, parse_spec, run, set_body, step, triple_quote,
    ModelfileView, ParseFailure, ParseState, Pending,
};
use crate::text::{
    all_ascii_upper, find_char, first_ws, has_char, is_ws, lemma_find_char, lemma_first_ws,
    lemma_lead_ws, lemma_trail_ws, lines, split_ws, starts_with, strip_cr, trim,
};

verus! {

/// Lines joined, each ended by a newline.
pub open spec fn joined(ls: Seq<Seq<char>>) -> Seq<char>
    decreases ls.len(),
{
    if ls.len() == 0 {
        Seq::empty()
    } else {
        ls[0] + seq!['\n'] + joined(ls.drop_first())
    }
}

proof fn lemma_joined_concat(a: Seq<Seq<char>>, b: Seq<Seq<char>>)
    ensures
        joined(a + b) == joined(a) + joined(b),
    decreases a.len(),
{
    if a.len() == 0 {
        assert(a + b =~= b);
        assert(joined(a) + joined(b) =~= joined(b));
    } else {
        lemma_joined_concat(a.drop_first(), b);
        assert((a + b).drop_first() =~= a.drop_first() + b);
        assert((a + b)[0] == a[0]);
        assert(joined(a + b) =~= joined(a) + joined(b));
    }
}

proof fn lemma_joined_push(a: Seq<Seq<char>>, l: Seq<char>)
    ensures
        joined(a.push(l)) == joined(a) + l + seq!['\n'],
{
    lemma_joined_concat(a, seq![l]);
    assert(a.push(l) =~= a + seq![l]);
    assert(seq![l].drop_first() =~= Seq::<Seq<char>>::empty());
    assert(joined(Seq::<Seq<char>>::empty()) =~= Seq::<char>::empty());
    assert(seq![l][0] == l);
    assert(joined(seq![l]) =~= l + seq!['\n']);
    assert(joined(a) + joined(seq![l]) =~= joined(a) + l + seq!['\n']);
}

/// A line that `str::lines` gives back unchanged.
pub open spec fn plain_line(l: Seq<char>) -> bool {
    !has_char(l, '\n') && strip_cr(l) == l
}

proof fn lemma_lines_joined(ls: Seq<Seq<char>>)
    requires
        forall|i: int| 0 <= i < ls.len() ==> plain_line(#[trigger] ls[i]),
    ensures
        lines(joined(ls)) == ls,
    decreases ls.len(),
{
    if ls.len() > 0 {
        let s = joined(ls);
        let l0 = ls[0];
        let rest = ls.drop_first();
        assert(plain_line(l0));
        assert forall|j: int| 0 <= j < l0.len() implies #[trigger] s[j] != '\n' by {
            assert(s[j] == l0[j]);
        }
        assert(s[l0.len() as int] == '\n');
        lemma_find_char(s, '\n', l0.len() as int);
        assert(s.take(l0.len() as int) =~= l0);
        assert(s.skip((l0.len() + 1) as int) =~= joined(rest));
        assert forall|i: int| 0 <= i < rest.len() implies plain_line(#[trigger] rest[i]) by {
            assert(rest[i] == ls[i + 1]);
        }
        lemma_lines_joined(rest);
        assert(lines(s) =~= seq![l0] + rest);
        assert(seq![l0] + rest =~= ls);
    } else {
        assert(joined(ls) =~= Seq::<char>::empty());
    }
}

proof fn lemma_run_concat(a: Seq<Seq<char>>, b: Seq<Seq<char>>, st: ParseState, n: nat)
    ensures
        run(a + b, st, n) == match run(a, st, n) {
            Ok(st1) => run(b, st1, n + a.len()),
            Err(e) => Err(e),
        },
    decreases a.len(),
{
    if a.len() == 0 {
        assert(a + b =~= b);
    } else {
        assert((a + b)[0] == a[0]);
        assert((a + b).drop_first() =~= a.drop_first() + b);
        match step(st, a[0], n + 1) {
            Ok(st2) => {
                lemma_run_concat(a.drop_first(), b, st2, n + 1);
            },
            Err(e) => {},
        }
    }
}

/// `t` has no whitespace at either end.
pub open spec fn trimmed(t: Seq<char>) -> bool {
    t.len() == 0 || (!is_ws(t[0]) && !is_ws(t.last()))
}

proof fn lemma_trim_trimmed(t: Seq<char>)
    requires
        trimmed(t),
    ensures
        trim(t) == t,
{
    if t.len() > 0 {
        lemma_lead_ws(t, 0);
        assert(t.skip(0) =~= t);
        lemma_trail_ws(t, 0);
        assert(t.take(t.len() as int) =~= t);
    } else {
        lemma_lead_ws(t, 0);
        lemma_trail_ws(t, 0);
        assert(t.skip(0) =~= t);
        assert(t.take(0) =~= t);
    }
}

/// A non-empty run of characters without whitespace.
pub open spec fn word(k: Seq<char>) -> bool {
    k.len() > 0 && forall|i: int| 0 <= i < k.len() ==> !is_ws(#[trigger] k[i])
}

/// `split_ws(a + " " + b)` for a word `a`.
proof fn lemma_split_word(a: Seq<char>, b: Seq<char>)
    requires
        word(a),
    ensures
        split_ws(a + seq![' '] + b) == (a, Some(b)),
{
    let s = a + seq![' '] + b;
    assert forall|j: int| 0 <= j < a.len() implies !is_ws(#[trigger] s[j]) by {
        assert(s[j] == a[j]);
    }
    assert(s[a.len() as int] == ' ');
    lemma_first_ws(s, a.len() as int);
    assert(s.take(a.len() as int) =~= a);
    assert(s.skip((a.len() + 1) as int) =~= b);
}

/// `split_ws(a)` for a word `a`.
proof fn lemma_split_whole_word(a: Seq<char>)
    requires
        word(a),
    ensures
        split_ws(a) == (a, Option::<Seq<char>>::None),
{
    lemma_first_ws(a, a.len() as int);
}

/// The directive words are distinct words of ASCII capitals.
proof fn lemma_directive_words()
    ensures
        word("FROM"@) && all_ascii_upper("FROM"@),
        word("PARAMETER"@) && all_ascii_upper("PARAMETER"@),
        word("SYSTEM"@) && all_ascii_upper("SYSTEM"@),
        word("TEMPLATE"@) && all_ascii_upper("TEMPLATE"@),
        word("ADAPTER"@) && all_ascii_upper("ADAPTER"@),
        word("LICENSE"@) && all_ascii_upper("LICENSE"@),
        word("MESSAGE"@) && all_ascii_upper("MESSAGE"@),
        "PARAMETER"@ != "FROM"@,
        "SYSTEM"@ != "FROM"@ && "SYSTEM"@ != "PARAMETER"@,
        "TEMPLATE"@ != "FROM"@ && "TEMPLATE"@ != "PARAMETER"@ && "TEMPLATE"@ != "SYSTEM"@,
        "ADAPTER"@ != "FROM"@ && "ADAPTER"@ != "PARAMETER"@ && "ADAPTER"@ != "SYSTEM"@ && "ADAPTER"@
            != "TEMPLATE"@,
        "LICENSE"@ != "FROM"@ && "LICENSE"@ != "PARAMETER"@ && "LICENSE"@ != "SYSTEM"@ && "LICENSE"@
            != "TEMPLATE"@ && "LICENSE"@ != "ADAPTER"@,
        "MESSAGE"@ != "FROM"@ && "MESSAGE"@ != "PARAMETER"@ && "MESSAGE"@ != "SYSTEM"@ && "MESSAGE"@
            != "TEMPLATE"@ && "MESSAGE"@ != "ADAPTER"@ && "MESSAGE"@ != "LICENSE"@,
{
    reveal_strlit("FROM");
    reveal_strlit("PARAMETER");
    reveal_strlit("SYSTEM");
    reveal_strlit("TEMPLATE");
    reveal_strlit("ADAPTER");
    reveal_strlit("LICENSE");
    reveal_strlit("MESSAGE");
    assert("FROM"@.len() == 4);
    assert("PARAMETER"@.len() == 9);
    assert("SYSTEM"@.len() == 6);
    assert("TEMPLATE"@.len() == 8);
    assert("ADAPTER"@.len() == 7 && "ADAPTER"@[0] == 'A');
    assert("LICENSE"@.len() == 7 && "LICENSE"@[0] == 'L');
    assert("MESSAGE"@.len() == 7 && "MESSAGE"@[0] == 'M');
}

/// A one-line value without whitespace at its ends.
pub open spec fn line_text(v: Seq<char>) -> bool {
    !has_char(v, '\n') && trimmed(v)
}

/// `DIRECTIVE value`.
pub open spec fn body_line(d: Seq<char>, v: Seq<char>) -> Seq<char> {
    d + seq![' '] + v
}

/// How a directive line with word `d` and value `v` is read: its trimmed text is
/// not blank, not a comment, has `d` as its word and `v` as its value.
proof fn lemma_line_parts(d: Seq<char>, v: Seq<char>)
    requires
        word(d),
        all_ascii_upper(d),
        trimmed(v),
    ensures
        trim(body_line(d, v)).len() > 0,
        trim(body_line(d, v))[0] != '#',
        directive_word(split_ws(trim(body_line(d, v))).0) == d,
        super::ollama::directive_value(trim(body_line(d, v))) == v,
        !has_char(v, '\n') ==> plain_line(body_line(d, v)),
{
    let l = body_line(d, v);
    assert(l[0] == d[0]);
    assert('A' <= d[0] <= 'Z');
    if v.len() == 0 {
        assert(l =~= d + seq![' ']);
        lemma_lead_ws(l, 0);
        assert(l[l.len() - 1] == ' ');
        assert(l[l.len() - 2] == d[d.len() - 1]);
        lemma_trail_ws(l, 1);
        assert(l.skip(0) =~= l);
        assert(l.take(l.len() - 1) =~= d);
        assert(trim(l) =~= d);
        lemma_split_whole_word(d);
        assert(!has_char(l, '\n') ==> plain_line(l)) by {
            assert(l.last() == ' ');
        }
    } else {
        assert(trimmed(l)) by {
            assert(l.last() == v.last());
        }
        lemma_trim_trimmed(l);
        lemma_split_word(d, v);
        lemma_trim_trimmed(v);
        if !has_char(v, '\n') {
            assert(!has_char(l, '\n')) by {
                if has_char(l, '\n') {
                    let i = choose|i: int| 0 <= i < l.len() && l[i] == '\n';
                    if i < d.len() {
                        assert(l[i] == d[i]);
                    } else if i > d.len() {
                        assert(l[i] == v[i - d.len() - 1]);
                    }
                }
            }
            assert(l.last() == v.last());
        }
    }
    if v.len() == 0 {
        assert(!has_char(d, '\n'));
    }
}

/// `DIRECTIVE key value`.
pub open spec fn pair_line(d: Seq<char>, p: (Seq<char>, Seq<char>)) -> Seq<char> {
    body_line(d, p.0 + seq![' '] + p.1)
}

/// One `DIRECTIVE key value` line per pair.
pub open spec fn pair_line_seq(d: Seq<char>, ps: Seq<(Seq<char>, Seq<char>)>) -> Seq<Seq<char>> {
    Seq::new(ps.len(), |i: int| pair_line(d, ps[i]))
}

/// A pair that a `DIRECTIVE key value` line gives back: the key is a word, the
/// value is one line, not empty, and does not end in whitespace.
pub open spec fn pair_fits(p: (Seq<char>, Seq<char>)) -> bool {
    word(p.0) && p.1.len() > 0 && !has_char(p.1, '\n') && !is_ws(p.1.last())
}

/// The key-value text of a fitting pair is one trimmed line.
proof fn lemma_pair_text(p: (Seq<char>, Seq<char>))
    requires
        pair_fits(p),
    ensures
        trimmed(p.0 + seq![' '] + p.1),
        !has_char(p.0 + seq![' '] + p.1, '\n'),
        split_ws(p.0 + seq![' '] + p.1) == (p.0, Some(p.1)),
{
    let v = p.0 + seq![' '] + p.1;
    assert(v[0] == p.0[0]);
    assert(v.last() == p.1.last());
    lemma_split_word(p.0, p.1);
    if has_char(v, '\n') {
        let i = choose|i: int| 0 <= i < v.len() && v[i] == '\n';
        if i < p.0.len() {
            assert(v[i] == p.0[i]);
        } else if i > p.0.len() {
            assert(v[i] == p.1[i - p.0.len() - 1]);
        }
    }
}

/// The parser state with `ps` appended to the parameters or to the messages.
pub open spec fn with_pairs(st: ParseState, params: bool, ps: Seq<(Seq<char>, Seq<char>)>) -> ParseState {
    if params {
        ParseState { mf: ModelfileView { parameters: st.mf.parameters + ps, ..st.mf }, ..st }
    } else {
        ParseState { mf: ModelfileView { messages: st.mf.messages + ps, ..st.mf }, ..st }
    }
}

proof fn lemma_run_pairs(params: bool, ps: Seq<(Seq<char>, Seq<char>)>, st: ParseState, n: nat)
    requires
        st.pending is None,
        forall|i: int| 0 <= i < ps.len() ==> pair_fits(#[trigger] ps[i]),
    ensures
        run(pair_line_seq(if params { "PARAMETER"@ } else { "MESSAGE"@ }, ps), st, n) == Ok::<
            ParseState,
            ParseFailure,
        >(with_pairs(st, params, ps)),
    decreases ps.len(),
{
    let d = if params {
        "PARAMETER"@
    } else {
        "MESSAGE"@
    };
    let ls = pair_line_seq(d, ps);
    lemma_directive_words();
    if ps.len() == 0 {
        assert(st.mf.parameters + ps =~= st.mf.parameters);
        assert(st.mf.messages + ps =~= st.mf.messages);
    } else {
        let p = ps[0];
        assert(pair_fits(p));
        lemma_pair_text(p);
        lemma_line_parts(d, p.0 + seq![' '] + p.1);
        let t = trim(ls[0]);
        assert(ls[0] == body_line(d, p.0 + seq![' '] + p.1));
        let st1 = with_pairs(st, params, seq![p]);
        assert(st.mf.parameters + seq![p] =~= st.mf.parameters.push(p));
        assert(st.mf.messages + seq![p] =~= st.mf.messages.push(p));
        assert(step(st, ls[0], n + 1) == Ok::<ParseState, ParseFailure>(st1));
        assert(ls.drop_first() =~= pair_line_seq(d, ps.drop_first()));
        assert forall|i: int| 0 <= i < ps.drop_first().len() implies pair_fits(#[trigger] ps.drop_first()[i]) by {
            assert(ps.drop_first()[i] == ps[i + 1]);
        }
        lemma_run_pairs(params, ps.drop_first(), st1, n + 1);
        if params {
            assert(st1.mf.parameters + ps.drop_first() =~= st.mf.parameters + ps);
            assert(with_pairs(st1, params, ps.drop_first()) == with_pairs(st, params, ps));
        } else {
            assert(st1.mf.messages + ps.drop_first() =~= st.mf.messages + ps);
            assert(with_pairs(st1, params, ps.drop_first()) == with_pairs(st, params, ps));
        }
    }
}

/// One `ADAPTER path` line per adapter.
pub open spec fn adapter_line_seq(ads: Seq<Seq<char>>) -> Seq<Seq<char>> {
    Seq::new(ads.len(), |i: int| body_line("ADAPTER"@, ads[i]))
}

/// A value a one-line directive gives back.
pub open spec fn value_fits(v: Seq<char>) -> bool {
    line_text(v) && v.len() > 0
}

proof fn lemma_run_adapters(ads: Seq<Seq<char>>, st: ParseState, n: nat)
    requires
        st.pending is None,
        forall|i: int| 0 <= i < ads.len() ==> value_fits(#[trigger] ads[i]),
    ensures
        run(adapter_line_seq(ads), st, n) == Ok::<ParseState, ParseFailure>(
            ParseState { mf: ModelfileView { adapters: st.mf.adapters + ads, ..st.mf }, ..st },
        ),
    decreases ads.len(),
{
    let ls = adapter_line_seq(ads);
    lemma_directive_words();
    if ads.len() == 0 {
        assert(st.mf.adapters + ads =~= st.mf.adapters);
    } else {
        let a = ads[0];
        assert(value_fits(a));
        lemma_line_parts("ADAPTER"@, a);
        let st1 = ParseState { mf: ModelfileView { adapters: st.mf.adapters.push(a), ..st.mf }, ..st };
        assert(step(st, ls[0], n + 1) == Ok::<ParseState, ParseFailure>(st1));
        assert(ls.drop_first() =~= adapter_line_seq(ads.drop_first()));
        assert forall|i: int| 0 <= i < ads.drop_first().len() implies value_fits(#[trigger] ads.drop_first()[i]) by {
            assert(ads.drop_first()[i] == ads[i + 1]);
        }
        lemma_run_adapters(ads.drop_first(), st1, n + 1);
        assert(st.mf.adapters.push(a) + ads.drop_first() =~= st.mf.adapters + ads);
    }
}

/// The directive word of a multi-line-capable field.
pub open spec fn body_word(k: Pending) -> Seq<char> {
    match k {
        Pending::System => "SYSTEM"@,
        Pending::Template => "TEMPLATE"@,
        Pending::License => "LICENSE"@,
    }
}

/// The line of an optional one-line body.
pub open spec fn opt_body_lines(d: Seq<char>, o: Option<Seq<char>>) -> Seq<Seq<char>> {
    match o {
        Some(v) => seq![body_line(d, v)],
        None => Seq::empty(),
    }
}

/// An optional body written on one line that reads back as itself.
pub open spec fn body_fits(o: Option<Seq<char>>) -> bool {
    match o {
        Some(v) => line_text(v) && !starts_with(v, triple_quote()),
        None => true,
    }
}

/// The parser state with an optional body set.
pub open spec fn with_body(st: ParseState, k: Pending, o: Option<Seq<char>>) -> ParseState {
    match o {
        Some(v) => ParseState { mf: set_body(st.mf, k, v), ..st },
        None => st,
    }
}

proof fn lemma_run_body(k: Pending, o: Option<Seq<char>>, st: ParseState, n: nat)
    requires
        st.pending is None,
        body_fits(o),
    ensures
        run(opt_body_lines(body_word(k), o), st, n) == Ok::<ParseState, ParseFailure>(with_body(st, k, o)),
{
    lemma_directive_words();
    match o {
        Some(v) => {
            let ls = opt_body_lines(body_word(k), o);
            lemma_line_parts(body_word(k), v);
            assert(step(st, ls[0], n + 1) == Ok::<ParseState, ParseFailure>(with_body(st, k, o)));
            assert(ls.drop_first() =~= Seq::<Seq<char>>::empty());
            assert(run(ls.drop_first(), with_body(st, k, o), n + 1) == Ok::<ParseState, ParseFailure>(
                with_body(st, k, o),
            ));
        },
        None => {},
    }
}

proof fn lemma_run_from(f: Seq<char>, st: ParseState, n: nat)
    requires
        st.pending is None,
        value_fits(f),
    ensures
        run(seq![body_line("FROM"@, f)], st, n) == Ok::<ParseState, ParseFailure>(
            ParseState { mf: ModelfileView { from: f, ..st.mf }, ..st },
        ),
{
    lemma_directive_words();
    let ls = seq![body_line("FROM"@, f)];
    lemma_line_parts("FROM"@, f);
    let st1 = ParseState { mf: ModelfileView { from: f, ..st.mf }, ..st };
    assert(step(st, ls[0], n + 1) == Ok::<ParseState, ParseFailure>(st1));
    assert(ls.drop_first() =~= Seq::<Seq<char>>::empty());
    assert(run(ls.drop_first(), st1, n + 1) == Ok::<ParseState, ParseFailure>(st1));
}

proof fn lemma_literals()
    ensures
        " "@ == seq![' '],
        "\n"@ == seq!['\n'],
        "FROM "@ == "FROM"@ + seq![' '],
        "ADAPTER "@ == "ADAPTER"@ + seq![' '],
{
    reveal_strlit(" ");
    reveal_strlit("\n");
    reveal_strlit("FROM ");
    reveal_strlit("FROM");
    reveal_strlit("ADAPTER ");
    reveal_strlit("ADAPTER");
    assert("FROM "@ =~= "FROM"@ + seq![' ']);
    assert("ADAPTER "@ =~= "ADAPTER"@ + seq![' ']);
}

proof fn lemma_pair_lines_text(d: Seq<char>, ps: Seq<(Seq<char>, Seq<char>)>)
    ensures
        pair_lines(d, ps) == joined(pair_line_seq(d, ps)),
    decreases ps.len(),
{
    lemma_literals();
    if ps.len() == 0 {
        assert(pair_line_seq(d, ps) =~= Seq::<Seq<char>>::empty());
    } else {
        let init = ps.drop_last();
        lemma_pair_lines_text(d, init);
        assert(pair_line_seq(d, ps) =~= pair_line_seq(d, init).push(pair_line(d, ps.last())));
        lemma_joined_push(pair_line_seq(d, init), pair_line(d, ps.last()));
        assert(pair_lines(d, ps) =~= joined(pair_line_seq(d, init)) + pair_line(d, ps.last()) + seq!['\n']);
    }
}

proof fn lemma_adapter_lines_text(ads: Seq<Seq<char>>)
    ensures
        adapter_lines(ads) == joined(adapter_line_seq(ads)),
    decreases ads.len(),
{
    lemma_literals();
    if ads.len() == 0 {
        assert(adapter_line_seq(ads) =~= Seq::<Seq<char>>::empty());
    } else {
        let init = ads.drop_last();
        lemma_adapter_lines_text(init);
        assert(adapter_line_seq(ads) =~= adapter_line_seq(init).push(body_line("ADAPTER"@, ads.last())));
        lemma_joined_push(adapter_line_seq(init), body_line("ADAPTER"@, ads.last()));
        assert(adapter_lines(ads) =~= joined(adapter_line_seq(init)) + body_line("ADAPTER"@, ads.last())
            + seq!['\n']);
    }
}

proof fn lemma_body_text(d: Seq<char>, o: Option<Seq<char>>)
    requires
        body_fits(o),
    ensures
        opt_body_text(d, o) == joined(opt_body_lines(d, o)),
{
    lemma_literals();
    match o {
        Some(v) => {
            lemma_joined_push(Seq::<Seq<char>>::empty(), body_line(d, v));
            assert(Seq::<Seq<char>>::empty().push(body_line(d, v)) =~= opt_body_lines(d, o));
            assert(joined(Seq::<Seq<char>>::empty()) =~= Seq::<char>::empty());
            assert(opt_body_text(d, o) =~= Seq::<char>::empty() + body_line(d, v) + seq!['\n']);
        },
        None => {
            assert(joined(Seq::<Seq<char>>::empty()) =~= Seq::<char>::empty());
        },
    }
}

/// A Modelfile whose every field is written on one line and reads back as
/// itself: the base model and adapter paths are one-line values without
/// surrounding whitespace, parameter and message keys are single words with
/// one-line values that do not end in whitespace, and the system prompt,
/// template and license, when present, are one-line values without surrounding
/// whitespace that do not open with triple quotes.
pub open spec fn one_line_modelfile(m: ModelfileView) -> bool {
    &&& value_fits(m.from)
    &&& forall|i: int| 0 <= i < m.parameters.len() ==> pair_fits(#[trigger] m.parameters[i])
    &&& body_fits(m.system)
    &&& body_fits(m.template)
    &&& forall|i: int| 0 <= i < m.adapters.len() ==> value_fits(#[trigger] m.adapters[i])
    &&& body_fits(m.license)
    &&& forall|i: int| 0 <= i < m.messages.len() ==> pair_fits(#[trigger] m.messages[i])
}

/// The lines `generate_modelfile` writes for a one-line Modelfile.
pub open spec fn generated_lines(m: ModelfileView) -> Seq<Seq<char>> {
    seq![body_line("FROM"@, m.from)] + pair_line_seq("PARAMETER"@, m.parameters) + opt_body_lines(
        "SYSTEM"@,
        m.system,
    ) + opt_body_lines("TEMPLATE"@, m.template) + adapter_line_seq(m.adapters) + opt_body_lines(
        "LICENSE"@,
        m.license,
    ) + pair_line_seq("MESSAGE"@, m.messages)
}

proof fn lemma_generated_text(m: ModelfileView)
    requires
        one_line_modelfile(m),
    ensures
        generate_spec(m) == joined(generated_lines(m)),
{
    lemma_literals();
    let f = seq![body_line("FROM"@, m.from)];
    let p = pair_line_seq("PARAMETER"@, m.parameters);
    let sy = opt_body_lines("SYSTEM"@, m.system);
    let te = opt_body_lines("TEMPLATE"@, m.template);
    let a = adapter_line_seq(m.adapters);
    let li = opt_body_lines("LICENSE"@, m.license);
    let me = pair_line_seq("MESSAGE"@, m.messages);
    lemma_joined_concat(f, p);
    lemma_joined_concat(f + p, sy);
    lemma_joined_concat(f + p + sy, te);
    lemma_joined_concat(f + p + sy + te, a);
    lemma_joined_concat(f + p + sy + te + a, li);
    lemma_joined_concat(f + p + sy + te + a + li, me);
    lemma_joined_push(Seq::<Seq<char>>::empty(), body_line("FROM"@, m.from));
    assert(Seq::<Seq<char>>::empty().push(body_line("FROM"@, m.from)) =~= f);
    assert(joined(Seq::<Seq<char>>::empty()) =~= Seq::<char>::empty());
    assert(joined(f) =~= "FROM "@ + m.from + "\n"@);
    lemma_pair_lines_text("PARAMETER"@, m.parameters);
    lemma_body_text("SYSTEM"@, m.system);
    lemma_body_text("TEMPLATE"@, m.template);
    lemma_adapter_lines_text(m.adapters);
    lemma_body_text("LICENSE"@, m.license);
    lemma_pair_lines_text("MESSAGE"@, m.messages);
}

proof fn lemma_generated_plain(m: ModelfileView)
    requires
        one_line_modelfile(m),
    ensures
        forall|i: int| 0 <= i < generated_lines(m).len() ==> plain_line(#[trigger] generated_lines(m)[i]),
{
    lemma_directive_words();
    let ls = generated_lines(m);
    assert forall|i: int| 0 <= i < ls.len() implies plain_line(#[trigger] ls[i]) by {
        let np = m.parameters.len() as int;
        let ns = opt_body_lines("SYSTEM"@, m.system).len() as int;
        let nt = opt_body_lines("TEMPLATE"@, m.template).len() as int;
        let na = m.adapters.len() as int;
        let nl = opt_body_lines("LICENSE"@, m.license).len() as int;
        if i == 0 {
            lemma_line_parts("FROM"@, m.from);
        } else if i < 1 + np {
            let q = m.parameters[i - 1];
            assert(pair_fits(q));
            lemma_pair_text(q);
            lemma_line_parts("PARAMETER"@, q.0 + seq![' '] + q.1);
        } else if i < 1 + np + ns {
            lemma_line_parts("SYSTEM"@, m.system->0);
        } else if i < 1 + np + ns + nt {
            lemma_line_parts("TEMPLATE"@, m.template->0);
        } else if i < 1 + np + ns + nt + na {
            assert(value_fits(m.adapters[i - 1 - np - ns - nt]));
            lemma_line_parts("ADAPTER"@, m.adapters[i - 1 - np - ns - nt]);
        } else if i < 1 + np + ns + nt + na + nl {
            lemma_line_parts("LICENSE"@, m.license->0);
        } else {
            let q = m.messages[i - 1 - np - ns - nt - na - nl];
            assert(pair_fits(q));
            lemma_pair_text(q);
            lemma_line_parts("MESSAGE"@, q.0 + seq![' '] + q.1);
        }
    }
}

/// Reading back what `generate_modelfile` writes for a Modelfile whose fields
/// each fit on one line (see `one_line_modelfile`) gives that Modelfile.
pub proof fn lemma_modelfile_roundtrip(m: ModelfileView)
    requires
        one_line_modelfile(m),
    ensures
        parse_spec(generate_spec(m)) == Ok::<ModelfileView, ParseFailure>(m),
{
    lemma_generated_text(m);
    lemma_generated_plain(m);
    lemma_lines_joined(generated_lines(m));
    let f = seq![body_line("FROM"@, m.from)];
    let p = pair_line_seq("PARAMETER"@, m.parameters);
    let sy = opt_body_lines("SYSTEM"@, m.system);
    let te = opt_body_lines("TEMPLATE"@, m.template);
    let a = adapter_line_seq(m.adapters);
    let li = opt_body_lines("LICENSE"@, m.license);
    let me = pair_line_seq("MESSAGE"@, m.messages);
    let st0 = init_state();
    let st1 = ParseState { mf: ModelfileView { from: m.from, ..st0.mf }, ..st0 };
    lemma_run_from(m.from, st0, 0);
    let st2 = with_pairs(st1, true, m.parameters);
    lemma_run_pairs(true, m.parameters, st1, f.len());
    lemma_run_concat(f, p, st0, 0);
    let st3 = with_body(st2, Pending::System, m.system);
    lemma_run_body(Pending::System, m.system, st2, (f + p).len());
    lemma_run_concat(f + p, sy, st0, 0);
    let st4 = with_body(st3, Pending::Template, m.template);
    lemma_run_body(Pending::Template, m.template, st3, (f + p + sy).len());
    lemma_run_concat(f + p + sy, te, st0, 0);
    let st5 = ParseState { mf: ModelfileView { adapters: st4.mf.adapters + m.adapters, ..st4.mf }, ..st4 };
    lemma_run_adapters(m.adapters, st4, (f + p + sy + te).len());
    lemma_run_concat(f + p + sy + te, a, st0, 0);
    let st6 = with_body(st5, Pending::License, m.license);
    lemma_run_body(Pending::License, m.license, st5, (f + p + sy + te + a).len());
    lemma_run_concat(f + p + sy + te + a, li, st0, 0);
    let st7 = with_pairs(st6, false, m.messages);
    lemma_run_pairs(false, m.messages, st6, (f + p + sy + te + a + li).len());
    lemma_run_concat(f + p + sy + te + a + li, me, st0, 0);
    assert(run(generated_lines(m), st0, 0) == Ok::<ParseState, ParseFailure>(st7));
    let r = st7.mf;
    assert(r.from == m.from);
    assert(r.parameters =~= m.parameters);
    assert(r.system == m.system);
    assert(r.template == m.template);
    assert(r.adapters =~= m.adapters);
    assert(r.license == m.license);
    assert(r.messages =~= m.messages);
    assert(r == m);
}

} // verus!
