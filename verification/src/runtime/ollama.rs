//! Ollama Modelfile parsing and generation
//!
//! Supports the FROM, PARAMETER, SYSTEM, TEMPLATE, ADAPTER, LICENSE and
//! MESSAGE directives.
use vstd::prelude::*;

use crate::json::{JsonValue, JsonView};
use crate::strmap::StrMap;
use crate::text::{
    all_ascii_upper, chars_eq, chars_of, str_eq, decimal, has_char, has_char_exec, lines, push_all, push_decimal, push_str,
    split_lines, split_ws, split_ws_exec, starts_with, starts_with_exec, str_views,
    strip_all_prefix, strip_all_prefix_exec, string_of, trim, trim_chars, uppercase,
    uppercase_chars, views,
};

verus! {

/// Errors that can occur during Modelfile operations
#[derive(Debug)]
pub enum ModelfileError {
    MissingFrom,
    InvalidDirective(String),
    ParseError(usize, String),
}

/// Ollama Modelfile structure
#[derive(Debug, Clone)]
pub struct Modelfile {
    /// Base model (FROM directive)
    pub from: String,
    /// Key-value parameters (PARAMETER directive)
    pub parameters: Vec<(String, String)>,
    /// System prompt (SYSTEM directive)
    pub system: Option<String>,
    /// Prompt template (TEMPLATE directive)
    pub template: Option<String>,
    /// LoRA adapter paths (ADAPTER directive)
    pub adapters: Vec<String>,
    /// License information (LICENSE directive)
    pub license: Option<String>,
    /// Message examples (MESSAGE directive)
    pub messages: Vec<(String, String)>,
}

/// The mathematical content of a Modelfile.
pub struct ModelfileView {
    pub from: Seq<char>,
    pub parameters: Seq<(Seq<char>, Seq<char>)>,
    pub system: Option<Seq<char>>,
    pub template: Option<Seq<char>>,
    pub adapters: Seq<Seq<char>>,
    pub license: Option<Seq<char>>,
    pub messages: Seq<(Seq<char>, Seq<char>)>,
}

/// The views of a sequence of string pairs.
pub open spec fn pair_views(s: Seq<(String, String)>) -> Seq<(Seq<char>, Seq<char>)> {
    Seq::new(s.len(), |i: int| (s[i].0@, s[i].1@))
}

/// The view of an optional string.
pub open spec fn opt_str(o: Option<String>) -> Option<Seq<char>> {
    match o {
        Some(s) => Some(s@),
        None => None,
    }
}

impl View for Modelfile {
    type V = ModelfileView;

    open spec fn view(&self) -> ModelfileView {
        ModelfileView {
            from: self.from@,
            parameters: pair_views(self.parameters@),
            system: opt_str(self.system),
            template: opt_str(self.template),
            adapters: str_views(self.adapters@),
            license: opt_str(self.license),
            messages: pair_views(self.messages@),
        }
    }
}

/// The empty Modelfile.
pub open spec fn empty_modelfile() -> ModelfileView {
    ModelfileView {
        from: Seq::empty(),
        parameters: Seq::empty(),
        system: None,
        template: None,
        adapters: Seq::empty(),
        license: None,
        messages: Seq::empty(),
    }
}

impl Default for Modelfile {
    fn default() -> (m: Self)
        ensures
            m@ == empty_modelfile(),
    {
        let m = Modelfile {
            from: String::new(),
            parameters: Vec::new(),
            system: None,
            template: None,
            adapters: Vec::new(),
            license: None,
            messages: Vec::new(),
        };
        assert(m@.parameters =~= Seq::<(Seq<char>, Seq<char>)>::empty());
        assert(m@.messages =~= Seq::<(Seq<char>, Seq<char>)>::empty());
        assert(m@.adapters =~= Seq::<Seq<char>>::empty());
        m
    }
}

/// The multi-line directive whose body is being collected.
#[derive(Debug, Clone, Copy, PartialEq, Eq, Structural)]
pub enum Pending {
    System,
    Template,
    License,
}

/// Why a parse failed: no FROM, or a malformed directive on a (1-based) line.
pub enum ParseFailure {
    MissingFrom,
    Line(nat, Seq<char>),
}

/// Parser state between lines.
pub struct ParseState {
    pub mf: ModelfileView,
    pub pending: Option<Pending>,
    pub buf: Seq<char>,
}

/// The triple quote that opens and closes a multi-line body.
pub open spec fn triple_quote() -> Seq<char> {
    "\"\"\""@
}

/// The value that follows the directive word on a line.
pub open spec fn directive_value(t: Seq<char>) -> Seq<char> {
    match split_ws(t).1 {
        Some(r) => trim(r),
        None => Seq::empty(),
    }
}

/// Opening a multi-line body: the text after the quotes starts the buffer.
pub open spec fn open_body(st: ParseState, p: Pending, value: Seq<char>) -> ParseState {
    let after = strip_all_prefix(value, triple_quote());
    ParseState {
        mf: st.mf,
        pending: Some(p),
        buf: if after.len() > 0 { after + "\n"@ } else { Seq::empty() },
    }
}

/// Sets the field of a multi-line directive.
pub open spec fn set_body(mf: ModelfileView, p: Pending, v: Seq<char>) -> ModelfileView {
    match p {
        Pending::System => ModelfileView { system: Some(v), ..mf },
        Pending::Template => ModelfileView { template: Some(v), ..mf },
        Pending::License => ModelfileView { license: Some(v), ..mf },
    }
}

/// The directive word of a line in upper case (`str::to_uppercase`, which leaves
/// ASCII capitals as they are).
pub open spec fn directive_word(h: Seq<char>) -> Seq<char> {
    if all_ascii_upper(h) {
        h
    } else {
        uppercase(h)
    }
}

/// Effect of one directive line (not inside a multi-line body).
pub open spec fn directive_step(st: ParseState, t: Seq<char>, n: nat) -> Result<
    ParseState,
    ParseFailure,
> {
    let d = directive_word(split_ws(t).0);
    let value = directive_value(t);
    let mf = st.mf;
    if d == "FROM"@ {
        if value.len() == 0 {
            Err(ParseFailure::Line(n, "FROM requires a model name"@))
        } else {
            Ok(ParseState { mf: ModelfileView { from: value, ..mf }, ..st })
        }
    } else if d == "PARAMETER"@ {
        match split_ws(value).1 {
            Some(v) => Ok(
                ParseState {
                    mf: ModelfileView {
                        parameters: mf.parameters.push((split_ws(value).0, v)),
                        ..mf
                    },
                    ..st
                },
            ),
            None => Err(ParseFailure::Line(n, "PARAMETER requires key and value"@)),
        }
    } else if d == "SYSTEM"@ {
        if starts_with(value, triple_quote()) {
            Ok(open_body(st, Pending::System, value))
        } else {
            Ok(ParseState { mf: ModelfileView { system: Some(value), ..mf }, ..st })
        }
    } else if d == "TEMPLATE"@ {
        if starts_with(value, triple_quote()) {
            Ok(open_body(st, Pending::Template, value))
        } else {
            Ok(ParseState { mf: ModelfileView { template: Some(value), ..mf }, ..st })
        }
    } else if d == "ADAPTER"@ {
        if value.len() > 0 {
            Ok(ParseState { mf: ModelfileView { adapters: mf.adapters.push(value), ..mf }, ..st })
        } else {
            Ok(st)
        }
    } else if d == "LICENSE"@ {
        if starts_with(value, triple_quote()) {
            Ok(ParseState { mf, pending: Some(Pending::License), buf: Seq::empty() })
        } else {
            Ok(ParseState { mf: ModelfileView { license: Some(value), ..mf }, ..st })
        }
    } else if d == "MESSAGE"@ {
        match split_ws(value).1 {
            Some(c) => Ok(
                ParseState {
                    mf: ModelfileView {
                        messages: mf.messages.push((split_ws(value).0, c)),
                        ..mf
                    },
                    ..st
                },
            ),
            None => Ok(st),
        }
    } else {
        Ok(st)
    }
}

/// Effect of line number `n` (1-based) on the parser state.
pub open spec fn step(st: ParseState, line: Seq<char>, n: nat) -> Result<ParseState, ParseFailure> {
    let t = trim(line);
    if t.len() == 0 || t[0] == '#' {
        Ok(st)
    } else if st.pending is Some {
        if t == triple_quote() {
            Ok(
                ParseState {
                    mf: set_body(st.mf, st.pending->0, trim(st.buf)),
                    pending: None,
                    buf: Seq::empty(),
                },
            )
        } else {
            Ok(ParseState { buf: st.buf + line + "\n"@, ..st })
        }
    } else {
        directive_step(st, t, n)
    }
}

/// Runs the parser over `ls`, whose first line has number `n + 1`.
pub open spec fn run(ls: Seq<Seq<char>>, st: ParseState, n: nat) -> Result<ParseState, ParseFailure>
    decreases ls.len(),
{
    if ls.len() == 0 {
        Ok(st)
    } else {
        match step(st, ls[0], n + 1) {
            Ok(st2) => run(ls.drop_first(), st2, n + 1),
            Err(e) => Err(e),
        }
    }
}

/// The initial parser state.
pub open spec fn init_state() -> ParseState {
    ParseState { mf: empty_modelfile(), pending: None, buf: Seq::empty() }
}

/// What parsing `content` gives.
pub open spec fn parse_spec(content: Seq<char>) -> Result<ModelfileView, ParseFailure> {
    match run(lines(content), init_state(), 0) {
        Ok(st) => if st.mf.from.len() == 0 {
            Err(ParseFailure::MissingFrom)
        } else {
            Ok(st.mf)
        },
        Err(e) => Err(e),
    }
}

/// The exec parse result corresponds to the specified one.
pub open spec fn parse_matches(r: Result<Modelfile, ModelfileError>, s: Result<ModelfileView, ParseFailure>) -> bool {
    match s {
        Ok(m) => r matches Ok(x) && x@ == m,
        Err(ParseFailure::MissingFrom) => r matches Err(ModelfileError::MissingFrom),
        Err(ParseFailure::Line(n, msg)) => r matches Err(ModelfileError::ParseError(k, m)) && k == n
            && m@ == msg,
    }
}

/// The exec parser state corresponds to the specified one.
pub open spec fn state_matches(mf: Modelfile, pending: Option<Pending>, buf: Seq<char>, st: ParseState) -> bool {
    mf@ == st.mf && pending == st.pending && buf == st.buf
}

/// One string pair from two character buffers.
fn pair_of(a: &Vec<char>, b: &Vec<char>) -> (r: (String, String))
    ensures
        r.0@ == a@,
        r.1@ == b@,
{
    (string_of(a), string_of(b))
}

/// Applies one directive line.
#[verifier::rlimit(30)]
fn directive_line(mf: &mut Modelfile, pending: &mut Option<Pending>, buf: &mut Vec<char>, t: &Vec<char>, n: usize) -> (r: Result<(), ModelfileError>)
    requires
        old(pending).is_none(),
    ensures
        match directive_step(ParseState { mf: old(mf)@, pending: *old(pending), buf: old(buf)@ }, t@, n as nat) {
            Ok(st) => r is Ok && state_matches(*final(mf), *final(pending), final(buf)@, st),
            Err(ParseFailure::Line(k, msg)) => r matches Err(ModelfileError::ParseError(k2, m)) && k2 == k && m@ == msg,
            Err(ParseFailure::MissingFrom) => false,
        },
{
    let ghost st = ParseState { mf: mf@, pending: *pending, buf: buf@ };
    let (head, rest) = split_ws_exec(t);
    let d = uppercase_chars(&head);
    assert(d@ == directive_word(head@));
    let value: Vec<char> = match rest {
        Some(r) => trim_chars(&r),
        None => Vec::new(),
    };
    assert(value@ == directive_value(t@));
    let q3 = chars_of("\"\"\"");
    if chars_eq(&d, &chars_of("FROM")) {
        if value.len() == 0 {
            return Err(ModelfileError::ParseError(n, string_of(&chars_of("FROM requires a model name"))));
        }
        mf.from = string_of(&value);
        Ok(())
    } else if chars_eq(&d, &chars_of("PARAMETER")) {
        let (k, v) = split_ws_exec(&value);
        match v {
            Some(v) => {
                let ghost old_params = mf.parameters@;
                mf.parameters.push(pair_of(&k, &v));
                proof {
                    assert(pair_views(mf.parameters@) =~= pair_views(old_params).push((k@, v@)));
                }
                Ok(())
            },
            None => Err(ModelfileError::ParseError(n, string_of(&chars_of("PARAMETER requires key and value")))),
        }
    } else if chars_eq(&d, &chars_of("SYSTEM")) {
        if starts_with_exec(&value, &q3) {
            *pending = Some(Pending::System);
            let after = strip_all_prefix_exec(&value, &q3);
            let mut nb: Vec<char> = Vec::new();
            if after.len() > 0 {
                push_all(&mut nb, &after);
                push_str(&mut nb, "\n");
            }
            *buf = nb;
        } else {
            mf.system = Some(string_of(&value));
        }
        Ok(())
    } else if chars_eq(&d, &chars_of("TEMPLATE")) {
        if starts_with_exec(&value, &q3) {
            *pending = Some(Pending::Template);
            let after = strip_all_prefix_exec(&value, &q3);
            let mut nb: Vec<char> = Vec::new();
            if after.len() > 0 {
                push_all(&mut nb, &after);
                push_str(&mut nb, "\n");
            }
            *buf = nb;
        } else {
            mf.template = Some(string_of(&value));
        }
        Ok(())
    } else if chars_eq(&d, &chars_of("ADAPTER")) {
        if value.len() > 0 {
            let ghost old_ad = mf.adapters@;
            mf.adapters.push(string_of(&value));
            proof {
                assert(str_views(mf.adapters@) =~= str_views(old_ad).push(value@));
            }
        }
        Ok(())
    } else if chars_eq(&d, &chars_of("LICENSE")) {
        if starts_with_exec(&value, &q3) {
            *pending = Some(Pending::License);
            *buf = Vec::new();
        } else {
            mf.license = Some(string_of(&value));
        }
        Ok(())
    } else if chars_eq(&d, &chars_of("MESSAGE")) {
        let (role, c) = split_ws_exec(&value);
        match c {
            Some(c) => {
                let ghost old_msgs = mf.messages@;
                mf.messages.push(pair_of(&role, &c));
                proof {
                    assert(pair_views(mf.messages@) =~= pair_views(old_msgs).push((role@, c@)));
                }
            },
            None => {},
        }
        Ok(())
    } else {
        Ok(())
    }
}

/// Parse a Modelfile from string content
///
/// Supports directives: FROM, PARAMETER, SYSTEM, TEMPLATE, ADAPTER, LICENSE, MESSAGE
pub fn parse_modelfile(content: &str) -> (r: Result<Modelfile, ModelfileError>)
    ensures
        parse_matches(r, parse_spec(content@)),
{
    let text = chars_of(content);
    let ls = split_lines(&text);
    let mut mf = Modelfile::default();
    let mut pending: Option<Pending> = None;
    let mut buf: Vec<char> = Vec::new();
    let ghost all = views(ls@);
    let nl = ls.len();
    let q3 = chars_of("\"\"\"");
    proof {
        assert(all.skip(0) =~= all);
    }
    for i in 0..nl
        invariant
            nl == ls@.len(),
            all == views(ls@),
            all == lines(content@),
            q3@ == triple_quote(),
            run(all, init_state(), 0) == run(all.skip(i as int), ParseState { mf: mf@, pending, buf: buf@ }, i as nat),
    {
        let line = &ls[i];
        let ghost st = ParseState { mf: mf@, pending, buf: buf@ };
        proof {
            let rest = all.skip(i as int);
            assert(rest[0] == line@);
            assert(rest.drop_first() =~= all.skip(i + 1));
        }
        let t = trim_chars(line);
        if t.len() == 0 || t[0] == '#' {
            // blank line or comment
        } else if pending.is_some() {
            if chars_eq(&t, &q3) {
                let body = trim_chars(&buf);
                match pending {
                    Some(Pending::System) => {
                        mf.system = Some(string_of(&body));
                    },
                    Some(Pending::Template) => {
                        mf.template = Some(string_of(&body));
                    },
                    _ => {
                        mf.license = Some(string_of(&body));
                    },
                }
                pending = None;
                buf = Vec::new();
            } else {
                push_all(&mut buf, line);
                push_str(&mut buf, "\n");
            }
        } else {
            match directive_line(&mut mf, &mut pending, &mut buf, &t, i + 1) {
                Ok(()) => {},
                Err(e) => {
                    return Err(e);
                },
            }
        }
    }
    proof {
        assert(all.skip(nl as int) =~= Seq::<Seq<char>>::empty());
    }
    if mf.from.as_str().is_empty() {
        return Err(ModelfileError::MissingFrom);
    }
    Ok(mf)
}

// ---------------------------------------------------------------------------
// Generation
// ---------------------------------------------------------------------------

/// `DIRECTIVE value` lines for a single-line or multi-line body.
pub open spec fn body_text(directive: Seq<char>, v: Seq<char>) -> Seq<char> {
    if has_char(v, '\n') {
        directive + " \"\"\"\n"@ + v + "\n\"\"\"\n"@
    } else {
        directive + " "@ + v + "\n"@
    }
}

/// The text of an optional body.
pub open spec fn opt_body_text(directive: Seq<char>, v: Option<Seq<char>>) -> Seq<char> {
    match v {
        Some(x) => body_text(directive, x),
        None => Seq::empty(),
    }
}

/// `DIRECTIVE a b` lines for each pair.
pub open spec fn pair_lines(directive: Seq<char>, ps: Seq<(Seq<char>, Seq<char>)>) -> Seq<char>
    decreases ps.len(),
{
    if ps.len() == 0 {
        Seq::empty()
    } else {
        pair_lines(directive, ps.drop_last()) + directive + " "@ + ps.last().0 + " "@ + ps.last().1 + "\n"@
    }
}

/// `ADAPTER a` lines.
pub open spec fn adapter_lines(ads: Seq<Seq<char>>) -> Seq<char>
    decreases ads.len(),
{
    if ads.len() == 0 {
        Seq::empty()
    } else {
        adapter_lines(ads.drop_last()) + "ADAPTER "@ + ads.last() + "\n"@
    }
}

/// The text `generate_modelfile` writes for a Modelfile.
pub open spec fn generate_spec(m: ModelfileView) -> Seq<char> {
    "FROM "@ + m.from + "\n"@
        + pair_lines("PARAMETER"@, m.parameters)
        + opt_body_text("SYSTEM"@, m.system)
        + opt_body_text("TEMPLATE"@, m.template)
        + adapter_lines(m.adapters)
        + opt_body_text("LICENSE"@, m.license)
        + pair_lines("MESSAGE"@, m.messages)
}

fn push_pairs(out: &mut Vec<char>, directive: &str, ps: &Vec<(String, String)>)
    ensures
        final(out)@ == old(out)@ + pair_lines(directive@, pair_views(ps@)),
{
    let ghost start = out@;
    let n = ps.len();
    proof {
        assert(pair_views(ps@).take(0) =~= Seq::<(Seq<char>, Seq<char>)>::empty());
        assert(start + Seq::<char>::empty() =~= start);
    }
    for i in 0..n
        invariant
            n == ps@.len(),
            out@ == start + pair_lines(directive@, pair_views(ps@).take(i as int)),
    {
        push_str(out, directive);
        push_str(out, " ");
        push_str(out, ps[i].0.as_str());
        push_str(out, " ");
        push_str(out, ps[i].1.as_str());
        push_str(out, "\n");
        proof {
            let t = pair_views(ps@).take(i + 1);
            assert(t.drop_last() =~= pair_views(ps@).take(i as int));
            assert(t.last() == (ps@[i as int].0@, ps@[i as int].1@));
        }
    }
    proof {
        assert(pair_views(ps@).take(n as int) =~= pair_views(ps@));
    }
}

fn push_body(out: &mut Vec<char>, directive: &str, v: &Option<String>)
    ensures
        final(out)@ == old(out)@ + opt_body_text(directive@, opt_str(*v)),
{
    match v {
        Some(s) => {
            let c = chars_of(s.as_str());
            push_str(out, directive);
            if has_char_exec(&c, '\n') {
                push_str(out, " \"\"\"\n");
                push_str(out, s.as_str());
                push_str(out, "\n\"\"\"\n");
            } else {
                push_str(out, " ");
                push_str(out, s.as_str());
                push_str(out, "\n");
            }
        },
        None => {
            assert(old(out)@ + Seq::<char>::empty() =~= old(out)@);
        },
    }
}

/// Generate a Modelfile string from the structure
pub fn generate_modelfile(modelfile: &Modelfile) -> (s: String)
    ensures
        s@ == generate_spec(modelfile@),
{
    let mut out: Vec<char> = Vec::new();
    push_str(&mut out, "FROM ");
    push_str(&mut out, modelfile.from.as_str());
    push_str(&mut out, "\n");
    push_pairs(&mut out, "PARAMETER", &modelfile.parameters);
    push_body(&mut out, "SYSTEM", &modelfile.system);
    push_body(&mut out, "TEMPLATE", &modelfile.template);
    let ghost before_ad = out@;
    let n = modelfile.adapters.len();
    proof {
        assert(str_views(modelfile.adapters@).take(0) =~= Seq::<Seq<char>>::empty());
        assert(before_ad + Seq::<char>::empty() =~= before_ad);
    }
    for i in 0..n
        invariant
            n == modelfile.adapters@.len(),
            out@ == before_ad + adapter_lines(str_views(modelfile.adapters@).take(i as int)),
    {
        push_str(&mut out, "ADAPTER ");
        push_str(&mut out, modelfile.adapters[i].as_str());
        push_str(&mut out, "\n");
        proof {
            let t = str_views(modelfile.adapters@).take(i + 1);
            assert(t.drop_last() =~= str_views(modelfile.adapters@).take(i as int));
        }
    }
    proof {
        assert(str_views(modelfile.adapters@).take(n as int) =~= str_views(modelfile.adapters@));
    }
    push_body(&mut out, "LICENSE", &modelfile.license);
    push_pairs(&mut out, "MESSAGE", &modelfile.messages);
    string_of(&out)
}

/// Create a Modelfile from just a model name
pub fn create_modelfile(model: &str) -> (m: Modelfile)
    ensures
        m@ == (ModelfileView { from: model@, ..empty_modelfile() }),
{
    let mut m = Modelfile::default();
    m.from = String::from_str(model);
    m
}

/// The parameters without those named `key`.
pub open spec fn without_key(ps: Seq<(Seq<char>, Seq<char>)>, key: Seq<char>) -> Seq<(Seq<char>, Seq<char>)>
    decreases ps.len(),
{
    if ps.len() == 0 {
        ps
    } else {
        let rest = without_key(ps.drop_last(), key);
        if ps.last().0 == key {
            rest
        } else {
            rest.push(ps.last())
        }
    }
}

/// The text of a parameter value: booleans, numbers and strings as they print, an
/// array as its JSON text `array_text`; other values give none.
pub open spec fn parameter_text(v: JsonView, array_text: Seq<char>) -> Option<Seq<char>> {
    match v {
        JsonView::Bool(b) => Some(if b { "true"@ } else { "false"@ }),
        JsonView::Number(n) => Some(n),
        JsonView::String(t) => Some(t),
        JsonView::Array(_) => Some(array_text),
        _ => None,
    }
}

/// The effect of one runner parameter on a Modelfile: `system` and `template`
/// set the directive when given as a string; any other key becomes the last
/// PARAMETER of that name.
pub open spec fn merge_one(m: ModelfileView, key: Seq<char>, v: JsonView, array_text: Seq<char>) -> ModelfileView {
    if key == "system"@ {
        match v {
            JsonView::String(t) => ModelfileView { system: Some(t), ..m },
            _ => m,
        }
    } else if key == "template"@ {
        match v {
            JsonView::String(t) => ModelfileView { template: Some(t), ..m },
            _ => m,
        }
    } else {
        match parameter_text(v, array_text) {
            Some(t) => ModelfileView { parameters: without_key(m.parameters, key).push((key, t)), ..m },
            None => m,
        }
    }
}

/// The JSON text given for the array under `key`; empty when none is given.
pub open spec fn array_text_of(texts: Map<Seq<char>, String>, key: Seq<char>) -> Seq<char> {
    if texts.contains_key(key) {
        texts[key]@
    } else {
        seq![]
    }
}

/// The first `n` parameters merged into `m`, in order.
pub open spec fn merged(
    m: ModelfileView,
    keys: Seq<Seq<char>>,
    vals: Seq<JsonValue>,
    texts: Map<Seq<char>, String>,
    n: nat,
) -> ModelfileView
    decreases n,
{
    if n == 0 || n > keys.len() || n > vals.len() {
        m
    } else {
        merge_one(
            merged(m, keys, vals, texts, (n - 1) as nat),
            keys[n - 1],
            vals[n - 1]@,
            array_text_of(texts, keys[n - 1]),
        )
    }
}

fn remove_key(ps: &mut Vec<(String, String)>, key: &str)
    ensures
        pair_views(final(ps)@) == without_key(pair_views(old(ps)@), key@),
{
    let mut out: Vec<(String, String)> = Vec::new();
    let n = ps.len();
    let ghost pv = pair_views(ps@);
    assert(pv.take(0) =~= Seq::<(Seq<char>, Seq<char>)>::empty());
    for i in 0..n
        invariant
            n == ps@.len(),
            pv == pair_views(ps@),
            pair_views(out@) == without_key(pv.take(i as int), key@),
    {
        proof {
            let t = pv.take(i + 1);
            assert(t.drop_last() =~= pv.take(i as int));
            assert(t.last() == pv[i as int]);
        }
        if !str_eq(ps[i].0.as_str(), key) {
            let ghost before = out@;
            out.push((ps[i].0.clone(), ps[i].1.clone()));
            assert(pair_views(out@) =~= pair_views(before).push(pv[i as int]));
        }
    }
    assert(pv.take(n as int) =~= pv);
    *ps = out;
}

/// Merge runner parameters into a Modelfile, in the order of `params`: `system`
/// and `template` strings set those directives, any other value becomes a
/// PARAMETER (replacing earlier ones of that name). An array's value is its JSON
/// text, which `array_texts` gives under the parameter's key.
pub fn merge_parameters(base: Modelfile, params: &StrMap<JsonValue>, array_texts: &StrMap<String>) -> (m: Modelfile)
    ensures
        m@ == merged(base@, params.key_seq(), params.val_seq(), array_texts@, params.key_seq().len()),
{
    let mut m = base;
    let n = params.len();
    for i in 0..n
        invariant
            n == params.key_seq().len(),
            n == params.val_seq().len(),
            m@ == merged(base@, params.key_seq(), params.val_seq(), array_texts@, i as nat),
    {
        let k = params.key_at(i);
        let v = params.val_at(i);
        if str_eq(k.as_str(), "system") {
            match v {
                JsonValue::String(t) => {
                    m.system = Some(t.clone());
                },
                _ => {},
            }
        } else if str_eq(k.as_str(), "template") {
            match v {
                JsonValue::String(t) => {
                    m.template = Some(t.clone());
                },
                _ => {},
            }
        } else {
            let text: Option<String> = match v {
                JsonValue::Bool(b) => Some(if *b { String::from_str("true") } else { String::from_str("false") }),
                JsonValue::Number(t) => Some(t.clone()),
                JsonValue::String(t) => Some(t.clone()),
                JsonValue::Array(_) => match array_texts.get(k.as_str()) {
                    Some(t) => Some(t.clone()),
                    None => Some(String::new()),
                },
                _ => None,
            };
            match text {
                Some(t) => {
                    let ghost before = m@;
                    remove_key(&mut m.parameters, k.as_str());
                    let ghost mid = pair_views(m.parameters@);
                    m.parameters.push((k.clone(), t));
                    assert(pair_views(m.parameters@) =~= mid.push((k@, t@)));
                },
                None => {},
            }
        }
        assert(m@ =~= merged(base@, params.key_seq(), params.val_seq(), array_texts@, (i + 1) as nat));
    }
    m
}

/// Get the default port for Ollama
pub fn default_port() -> (p: u16)
    ensures
        p == 11434,
{
    11434
}

/// `http://{host}:{port}/v1`.
pub open spec fn v1_endpoint(host: Seq<char>, port: nat) -> Seq<char> {
    "http://"@ + host + ":"@ + decimal(port) + "/v1"@
}

/// Generate the endpoint URL for an Ollama instance
pub fn endpoint_url(host: &str, port: u16) -> (s: String)
    ensures
        s@ == v1_endpoint(host@, port as nat),
{
    let mut v: Vec<char> = Vec::new();
    push_str(&mut v, "http://");
    push_str(&mut v, host);
    push_str(&mut v, ":");
    push_decimal(&mut v, port as u64);
    push_str(&mut v, "/v1");
    string_of(&v)
}

} // verus!
