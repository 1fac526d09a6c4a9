//! A request flowing through the pipeline, with the variables its conditions read.
use vstd::prelude::*;
use vstd::utf8::encode_utf8;

use crate::json::{hex_char, hex_digit};
use crate::strmap::StrMap;
use crate::text::{chars_of, decimal, is_ws, is_ws_exec, opt_text, push_decimal, string_of};

pub mod vars;

verus! {

broadcast use vstd::string::group_string_axioms;

/// The 32 lower-case hexadecimal digits of a UUID's 128 bits, most significant first.
pub open spec fn uuid_hex(id: u128) -> Seq<char> {
    Seq::new(32, |i: int| hex_digit(((id >> ((124 - 4 * i) as u128)) & 15u128) as u32))
}

/// A UUID as `Uuid::to_string` prints it: the hyphenated form, digit groups of
/// 8-4-4-4-12.
pub open spec fn uuid_text(id: u128) -> Seq<char> {
    let h = uuid_hex(id);
    h.subrange(0, 8) + seq!['-'] + h.subrange(8, 12) + seq!['-'] + h.subrange(12, 16) + seq!['-']
        + h.subrange(16, 20) + seq!['-'] + h.subrange(20, 32)
}

/// Wrapper for `Uuid::new_v4`, as its 128 bits. The value is random but for the
/// version (4) and variant (RFC 4122, bits `10`) fields, which `new_v4` sets.
#[verifier::external_body]
pub(crate) fn new_uuid() -> (id: u128)
    ensures
        (id >> 76u128) & 15u128 == 4,
        (id >> 62u128) & 3u128 == 2,
{
    uuid::Uuid::new_v4().as_u128()
}

/// The hyphenated text of the UUID with these 128 bits.
pub(crate) fn uuid_string(id: u128) -> (s: String)
    ensures
        s@ == uuid_text(id),
{
    let mut h: Vec<char> = Vec::new();
    for i in 0..32u32
        invariant
            h@ == uuid_hex(id).take(i as int),
    {
        let shift: u128 = (124 - 4 * i) as u128;
        let d128: u128 = (id >> shift) & 15u128;
        assert(d128 < 16) by (bit_vector)
            requires
                d128 == (id >> shift) & 15u128,
        ;
        let d: u32 = d128 as u32;
        h.push(hex_char(d));
        assert(h@ =~= uuid_hex(id).take(i + 1));
    }
    assert(h@ =~= uuid_hex(id));
    let mut out: Vec<char> = Vec::new();
    for i in 0..32usize
        invariant
            h@ == uuid_hex(id),
            out@ == dashed(h@, i as int),
    {
        if i == 8 || i == 12 || i == 16 || i == 20 {
            out.push('-');
        }
        out.push(h[i]);
        assert(out@ =~= dashed(h@, i + 1));
    }
    assert(dashed(h@, 32) =~= uuid_text(id)) by {
        lemma_dashed_run(h@, 0, 8);
        lemma_dashed_run(h@, 8, 12);
        lemma_dashed_run(h@, 12, 16);
        lemma_dashed_run(h@, 16, 20);
        lemma_dashed_run(h@, 20, 32);
        assert(dashed(h@, 0) =~= Seq::<char>::empty());
    }
    string_of(&out)
}

/// Between two hyphen positions the digits come through as they are.
proof fn lemma_dashed_run(h: Seq<char>, a: int, n: int)
    requires
        0 <= a <= n <= h.len(),
        a < 8 ==> n <= 8,
        a < 12 ==> n <= 12,
        a < 16 ==> n <= 16,
        a < 20 ==> n <= 20,
    ensures
        dashed(h, n) == dashed(h, a) + (if n > a && (a == 8 || a == 12 || a == 16 || a == 20) {
            seq!['-']
        } else {
            seq![]
        }) + h.subrange(a, n),
    decreases n - a,
{
    if n > a {
        lemma_dashed_run(h, a, n - 1);
        assert(h.subrange(a, n) =~= h.subrange(a, n - 1).push(h[n - 1]));
        if n - 1 > a {
            assert(dashed(h, n) =~= dashed(h, n - 1) + seq![h[n - 1]]);
        }
    } else {
        assert(h.subrange(a, n) =~= Seq::<char>::empty());
    }
}

/// The first `n` hexadecimal digits with a hyphen before digits 8, 12, 16 and 20.
pub open spec fn dashed(h: Seq<char>, n: int) -> Seq<char>
    decreases n,
{
    if n <= 0 {
        seq![]
    } else {
        dashed(h, n - 1) + (if n - 1 == 8 || n - 1 == 12 || n - 1 == 16 || n - 1 == 20 {
            seq!['-']
        } else {
            seq![]
        }) + seq![h[n - 1]]
    }
}

/// Wrapper for `Utc::now().timestamp()`: seconds since the Unix epoch, read from
/// the clock (chrono panics if the clock is before the epoch).
#[verifier::external_body]
fn now_secs() -> (t: i64)
    ensures
        t >= 0,
{
    chrono::Utc::now().timestamp()
}

/// Wrapper for `Utc::now().timestamp_nanos_opt()`: nanoseconds since the Unix epoch,
/// read from the clock; `None` when the reading does not fit in an `i64`.
#[verifier::external_body]
pub(crate) fn now_nanos() -> (t: Option<i64>)
    ensures
        t matches Some(n) ==> n >= 0,
{
    chrono::Utc::now().timestamp_nanos_opt()
}

/// What chrono's `Display` gives for the UTC time `nanos` nanoseconds after the Unix epoch.
pub uninterp spec fn utc_text(nanos: i64) -> Seq<char>;

/// Wrapper for `DateTime::<Utc>::from_timestamp_nanos(nanos).to_string()`; every `i64`
/// is in chrono's range, so this does not panic.
#[verifier::external_body]
pub(crate) fn utc_string(nanos: i64) -> (s: String)
    ensures
        s@ == utc_text(nanos),
{
    chrono::DateTime::<chrono::Utc>::from_timestamp_nanos(nanos).to_string()
}

/// Decimal rendering of an integer with its sign.
pub open spec fn int_text(i: int) -> Seq<char> {
    if i < 0 {
        seq!['-'] + decimal((-i) as nat)
    } else {
        decimal(i as nat)
    }
}

fn int_string(i: i64) -> (s: String)
    ensures
        s@ == int_text(i as int),
{
    let mut v: Vec<char> = Vec::new();
    if i < 0 {
        v.push('-');
        let m: i128 = -(i as i128);
        push_decimal(&mut v, m as u64);
    } else {
        push_decimal(&mut v, i as u64);
    }
    string_of(&v)
}

/// Number of words: maximal runs of non-whitespace characters.
pub open spec fn word_count(s: Seq<char>) -> nat
    decreases s.len(),
{
    if s.len() == 0 {
        0
    } else {
        let starts = !is_ws(s.last()) && (s.len() == 1 || is_ws(s[s.len() - 2]));
        word_count(s.drop_last()) + if starts { 1nat } else { 0nat }
    }
}

proof fn lemma_word_count_bound(s: Seq<char>)
    ensures
        word_count(s) <= s.len(),
    decreases s.len(),
{
    if s.len() > 0 {
        lemma_word_count_bound(s.drop_last());
    }
}

/// Count words in a string (whitespace-separated)
pub fn count_words(s: &str) -> (n: usize)
    ensures
        n == word_count(s@),
{
    let c = chars_of(s);
    let len = c.len();
    let mut n: usize = 0;
    for i in 0..len
        invariant
            len == c@.len(),
            c@ == s@,
            n == word_count(c@.take(i as int)),
            n <= i,
    {
        proof {
            let t = c@.take(i + 1);
            assert(t.drop_last() =~= c@.take(i as int));
            lemma_word_count_bound(c@.take(i as int));
        }
        if !is_ws_exec(c[i]) && (i == 0 || is_ws_exec(c[i - 1])) {
            n = n + 1;
        }
    }
    assert(c@.take(len as int) =~= c@);
    n
}

/// A single hop in the pipeline trace
#[derive(Debug, Clone)]
pub struct RequestHop {
    pub node_name: String,
    pub layer: u32,
    /// When the hop happened (seconds since the Unix epoch)
    pub timestamp: i64,
    /// Router decision that led to this hop (if applicable)
    pub decision: Option<String>,
}

/// A request flowing through the pipeline
#[derive(Debug, Clone)]
pub struct PipelineRequest {
    /// Unique identifier for this request (the UUID's 128 bits)
    pub request_id: u128,
    /// The original user prompt
    pub original_prompt: String,
    /// Current content (may change as it flows through layers)
    pub current_content: String,
    /// Variables that can be used in conditions (includes system + custom)
    pub variables: StrMap<String>,
    /// Trace of hops through the pipeline
    pub trace: Vec<RequestHop>,
    /// Start of the request (seconds since the Unix epoch)
    pub start_time: i64,
}

/// The views of the values of a map of strings.
pub open spec fn text_vars(m: Map<Seq<char>, String>) -> Map<Seq<char>, Seq<char>> {
    Map::new(|k: Seq<char>| m.contains_key(k), |k: Seq<char>| m[k]@)
}

/// The variables a piece of content sets: CURRENT_INPUT, INPUT_LENGTH (bytes) and WORD_COUNT.
pub open spec fn content_vars(m: Map<Seq<char>, Seq<char>>, content: Seq<char>) -> Map<Seq<char>, Seq<char>> {
    m.insert("CURRENT_INPUT"@, content).insert(
        "INPUT_LENGTH"@,
        decimal(encode_utf8(content).len() as usize as nat),
    ).insert("WORD_COUNT"@, decimal(word_count(content)))
}

/// The variables of a new request.
pub open spec fn initial_vars(id: u128, prompt: Seq<char>, now: i64) -> Map<Seq<char>, Seq<char>> {
    content_vars(
        Map::<Seq<char>, Seq<char>>::empty().insert("INITIAL_INPUT"@, prompt),
        prompt,
    ).insert("HOP_COUNT"@, "0"@).insert("TIMESTAMP"@, int_text(now as int)).insert(
        "REQUEST_ID"@,
        uuid_text(id),
    )
}

/// The variables after the `count`-th hop, through `name` at `layer`, with the router's
/// decision `d` when there was one.
pub open spec fn hop_vars(
    m: Map<Seq<char>, Seq<char>>,
    name: Seq<char>,
    layer: u32,
    count: nat,
    d: Option<Seq<char>>,
) -> Map<Seq<char>, Seq<char>> {
    let m2 = m.insert("PREV_NODE"@, name).insert("PREV_LAYER"@, decimal(layer as nat)).insert(
        "HOP_COUNT"@,
        decimal(count),
    );
    match d {
        Some(x) => m2.insert("ROUTE_DECISION"@, x),
        None => m2,
    }
}

/// `b` is `a` after one more hop, through `name` at `layer`, with the router's decision `d`.
pub open spec fn hopped(
    a: PipelineRequest,
    b: PipelineRequest,
    name: Seq<char>,
    layer: u32,
    d: Option<Seq<char>>,
) -> bool {
    &&& b.trace@.len() == a.trace@.len() + 1
    &&& b.trace@.last().node_name@ == name
    &&& b.trace@.last().layer == layer
    &&& opt_text(b.trace@.last().decision) == d
    &&& b.trace@.drop_last() == a.trace@
    &&& text_vars(b.variables@) == hop_vars(text_vars(a.variables@), name, layer, b.trace@.len(), d)
    &&& b.request_id == a.request_id
    &&& b.original_prompt == a.original_prompt
    &&& b.current_content == a.current_content
    &&& b.start_time == a.start_time
}

fn set_var(vars: &mut StrMap<String>, key: &str, value: String)
    ensures
        final(vars)@ == old(vars)@.insert(key@, value),
{
    let _ = vars.insert(String::from_str(key), value);
}

fn usize_string(n: usize) -> (s: String)
    ensures
        s@ == decimal(n as nat),
{
    let mut v: Vec<char> = Vec::new();
    push_decimal(&mut v, n as u64);
    string_of(&v)
}

impl PipelineRequest {
    /// Create a request with a specific ID at time `now`
    pub fn with_id(request_id: u128, prompt: String, now: i64) -> (r: Self)
        ensures
            r.request_id == request_id,
            r.original_prompt@ == prompt@,
            r.current_content@ == prompt@,
            text_vars(r.variables@) == initial_vars(request_id, prompt@, now),
            r.trace@.len() == 0,
            r.start_time == now,
    {
        let mut variables: StrMap<String> = StrMap::new();
        set_var(&mut variables, "INITIAL_INPUT", prompt.clone());
        set_var(&mut variables, "CURRENT_INPUT", prompt.clone());
        set_var(&mut variables, "INPUT_LENGTH", usize_string(prompt.as_str().len()));
        set_var(&mut variables, "WORD_COUNT", usize_string(count_words(prompt.as_str())));
        set_var(&mut variables, "HOP_COUNT", String::from_str("0"));
        set_var(&mut variables, "TIMESTAMP", int_string(now));
        set_var(&mut variables, "REQUEST_ID", uuid_string(request_id));
        proof {
            assert(text_vars(variables@) =~= initial_vars(request_id, prompt@, now));
        }
        PipelineRequest {
            request_id,
            original_prompt: prompt.clone(),
            current_content: prompt,
            variables,
            trace: Vec::new(),
            start_time: now,
        }
    }

    /// Create a new pipeline request with a fresh random ID, started now
    pub fn new(prompt: String) -> (r: Self)
        ensures
            r.original_prompt@ == prompt@,
            r.current_content@ == prompt@,
            text_vars(r.variables@) == initial_vars(r.request_id, prompt@, r.start_time),
            r.trace@.len() == 0,
    {
        let id = new_uuid();
        let now = now_secs();
        PipelineRequest::with_id(id, prompt, now)
    }

    /// Add a hop at time `now` to the trace and update system variables
    pub fn add_hop_at(&mut self, node_name: String, layer: u32, decision: Option<String>, now: i64)
        ensures
            hopped(*old(self), *final(self), node_name@, layer, opt_text(decision)),
            final(self).trace@.last().timestamp == now,
    {
        let ghost old_trace = self.trace@;
        let hop = RequestHop { node_name: node_name.clone(), layer, timestamp: now, decision: decision.clone() };
        self.trace.push(hop);
        let ghost before = self.variables@;
        set_var(&mut self.variables, "PREV_NODE", node_name);
        set_var(&mut self.variables, "PREV_LAYER", usize_string(layer as usize));
        let count = self.trace.len();
        set_var(&mut self.variables, "HOP_COUNT", usize_string(count));
        match decision {
            Some(d) => {
                set_var(&mut self.variables, "ROUTE_DECISION", d);
            },
            None => {},
        }
        proof {
            assert(self.trace@.drop_last() =~= old_trace);
            assert(text_vars(self.variables@) =~= hop_vars(
                text_vars(before),
                node_name@,
                layer,
                self.trace@.len(),
                opt_text(decision),
            ));
        }
    }

    /// Add a hop to the trace and update system variables
    pub fn add_hop(&mut self, node_name: String, layer: u32, decision: Option<String>)
        ensures
            hopped(*old(self), *final(self), node_name@, layer, opt_text(decision)),
    {
        let now = now_secs();
        self.add_hop_at(node_name, layer, decision, now);
    }

    /// Set the current layer being evaluated
    pub fn set_current_layer(&mut self, layer: u32)
        ensures
            text_vars(final(self).variables@) == text_vars(old(self).variables@).insert(
                "CURRENT_LAYER"@,
                decimal(layer as nat),
            ),
            final(self).trace == old(self).trace,
            final(self).current_content == old(self).current_content,
            final(self).original_prompt == old(self).original_prompt,
    {
        let ghost before = self.variables@;
        set_var(&mut self.variables, "CURRENT_LAYER", usize_string(layer as usize));
        assert(text_vars(self.variables@) =~= text_vars(before).insert("CURRENT_LAYER"@, decimal(layer as nat)));
    }

    /// Update the current content at time `now` (after processing by a node)
    pub fn set_content_at(&mut self, content: String, now: i64)
        ensures
            final(self).current_content@ == content@,
            text_vars(final(self).variables@) == content_vars(text_vars(old(self).variables@), content@).insert(
                "TIMESTAMP"@,
                int_text(now as int),
            ),
            final(self).trace == old(self).trace,
            final(self).original_prompt == old(self).original_prompt,
            final(self).request_id == old(self).request_id,
    {
        let ghost before = self.variables@;
        self.current_content = content.clone();
        set_var(&mut self.variables, "CURRENT_INPUT", content.clone());
        set_var(&mut self.variables, "INPUT_LENGTH", usize_string(content.as_str().len()));
        set_var(&mut self.variables, "WORD_COUNT", usize_string(count_words(content.as_str())));
        set_var(&mut self.variables, "TIMESTAMP", int_string(now));
        assert(text_vars(self.variables@) =~= content_vars(text_vars(before), content@).insert(
            "TIMESTAMP"@,
            int_text(now as int),
        ));
    }

    /// Update the current content (after processing by a node)
    pub fn set_content(&mut self, content: String)
        ensures
            final(self).current_content@ == content@,
            exists|now: i64| text_vars(final(self).variables@) == content_vars(text_vars(old(self).variables@), content@).insert(
                "TIMESTAMP"@,
                int_text(now as int),
            ),
            final(self).trace == old(self).trace,
            final(self).original_prompt == old(self).original_prompt,
    {
        let now = now_secs();
        self.set_content_at(content, now);
    }

    /// Set a custom variable value
    pub fn set_variable(&mut self, key: String, value: String)
        ensures
            final(self).variables@ == old(self).variables@.insert(key@, value),
            final(self).trace == old(self).trace,
            final(self).current_content == old(self).current_content,
    {
        let _ = self.variables.insert(key, value);
    }

    /// Get a variable value
    pub fn get_variable(&self, key: &str) -> (r: Option<&String>)
        ensures
            match r {
                Some(v) => self.variables@.contains_key(key@) && *v == self.variables@[key@],
                None => !self.variables@.contains_key(key@),
            },
    {
        self.variables.get(key)
    }

    /// Get all variables (for condition evaluation)
    pub fn get_variables(&self) -> (r: &StrMap<String>)
        ensures
            *r == self.variables,
    {
        &self.variables
    }

    /// Same as `set_variable` (older name)
    pub fn set_header(&mut self, key: String, value: String)
        ensures
            final(self).variables@ == old(self).variables@.insert(key@, value),
            final(self).trace == old(self).trace,
            final(self).current_content == old(self).current_content,
    {
        self.set_variable(key, value);
    }

    /// Same as `get_variable` (older name)
    pub fn get_header(&self, key: &str) -> (r: Option<&String>)
        ensures
            match r {
                Some(v) => self.variables@.contains_key(key@) && *v == self.variables@[key@],
                None => !self.variables@.contains_key(key@),
            },
    {
        self.get_variable(key)
    }
}

} // verus!
