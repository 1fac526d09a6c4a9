//! Validation results for model deployments and their display.
use vstd::prelude::*;

use crate::cli::display::{as_u64, json_as_u64};
use crate::config::models::RunnerType;
use crate::json::JsonValue;
use crate::strmap::StrMap;
use crate::text::{decimal, push_decimal, push_str, string_of, to_string};

verus! {

/// Validation result with severity levels
#[derive(Debug, Clone, Copy, PartialEq, Eq, Structural)]
pub enum ValidationSeverity {
    /// Informational hint
    Info,
    /// Warning - may work but suboptimal
    Warning,
    /// Error - likely to fail
    Error,
}

/// A single validation message
#[derive(Debug, Clone)]
pub struct ValidationMessage {
    pub severity: ValidationSeverity,
    pub code: String,
    pub message: String,
    pub suggestion: Option<String>,
}

/// Validation result containing all messages
#[derive(Debug, Clone)]
pub struct ValidationResult {
    pub messages: Vec<ValidationMessage>,
    pub passed: bool,
}

/// Some message in `ms` has severity `s`.
pub open spec fn has_severity(ms: Seq<ValidationMessage>, s: ValidationSeverity) -> bool {
    exists|i: int| 0 <= i < ms.len() && #[trigger] ms[i].severity == s
}

/// `passed` holds exactly when no message is an error.
pub open spec fn passed_tracks_errors(r: ValidationResult) -> bool {
    r.passed == !has_severity(r.messages@, ValidationSeverity::Error)
}

/// The view of an optional string.
pub open spec fn opt_text(o: Option<String>) -> Option<Seq<char>> {
    match o {
        Some(s) => Some(s@),
        None => None,
    }
}

/// A message made of the given parts.
pub open spec fn is_message(
    m: ValidationMessage,
    severity: ValidationSeverity,
    code: Seq<char>,
    message: Seq<char>,
    suggestion: Option<Seq<char>>,
) -> bool {
    m.severity == severity && m.code@ == code && m.message@ == message && opt_text(m.suggestion)
        == suggestion
}

/// The optional `&str` as an optional sequence.
pub open spec fn opt_str_view(o: Option<&str>) -> Option<Seq<char>> {
    match o {
        Some(s) => Some(s@),
        None => None,
    }
}

impl Default for ValidationResult {
    fn default() -> (r: Self)
        ensures
            r.messages@.len() == 0,
            !r.passed,
    {
        ValidationResult { messages: Vec::new(), passed: false }
    }
}

impl ValidationResult {
    pub fn new() -> (r: Self)
        ensures
            r.messages@.len() == 0,
            r.passed,
            passed_tracks_errors(r),
    {
        ValidationResult { messages: Vec::new(), passed: true }
    }

    pub fn add(&mut self, msg: ValidationMessage)
        ensures
            final(self).messages@ == old(self).messages@.push(msg),
            final(self).passed == (old(self).passed && msg.severity != ValidationSeverity::Error),
            add_step(*old(self), *final(self)),
    {
        if msg.severity == ValidationSeverity::Error {
            self.passed = false;
        }
        self.messages.push(msg);
        assert(self.messages@.drop_last() =~= old(self).messages@);
    }

    fn with_message(
        self,
        severity: ValidationSeverity,
        code: &str,
        message: &str,
        suggestion: Option<&str>,
    ) -> (r: Self)
        ensures
            r.messages@.len() == self.messages@.len() + 1,
            r.messages@.take(self.messages@.len() as int) == self.messages@,
            is_message(
                r.messages@.last(),
                severity,
                code@,
                message@,
                opt_str_view(suggestion),
            ),
            r.passed == (self.passed && severity != ValidationSeverity::Error),
    {
        let mut r = self;
        let s = match suggestion {
            Some(x) => Some(to_string(x)),
            None => None,
        };
        r.add(
            ValidationMessage { severity, code: to_string(code), message: to_string(message), suggestion: s },
        );
        assert(r.messages@.take(self.messages@.len() as int) =~= self.messages@);
        r
    }

    pub fn info(self, code: &str, message: &str) -> (r: Self)
        ensures
            r.messages@.len() == self.messages@.len() + 1,
            r.messages@.take(self.messages@.len() as int) == self.messages@,
            is_message(r.messages@.last(), ValidationSeverity::Info, code@, message@, None),
            r.passed == self.passed,
            add_step(self, r),
    {
        let r = self.with_message(ValidationSeverity::Info, code, message, None);
        assert(r.messages@.drop_last() =~= self.messages@.take(self.messages@.len() as int));
        r
    }

    pub fn warning(self, code: &str, message: &str, suggestion: Option<&str>) -> (r: Self)
        ensures
            r.messages@.len() == self.messages@.len() + 1,
            r.messages@.take(self.messages@.len() as int) == self.messages@,
            is_message(
                r.messages@.last(),
                ValidationSeverity::Warning,
                code@,
                message@,
                opt_str_view(suggestion),
            ),
            r.passed == self.passed,
            add_step(self, r),
    {
        let r = self.with_message(ValidationSeverity::Warning, code, message, suggestion);
        assert(r.messages@.drop_last() =~= self.messages@.take(self.messages@.len() as int));
        r
    }

    pub fn error(self, code: &str, message: &str, suggestion: Option<&str>) -> (r: Self)
        ensures
            r.messages@.len() == self.messages@.len() + 1,
            r.messages@.take(self.messages@.len() as int) == self.messages@,
            is_message(
                r.messages@.last(),
                ValidationSeverity::Error,
                code@,
                message@,
                opt_str_view(suggestion),
            ),
            !r.passed,
            add_step(self, r),
    {
        let r = self.with_message(ValidationSeverity::Error, code, message, suggestion);
        assert(r.messages@.drop_last() =~= self.messages@.take(self.messages@.len() as int));
        r
    }

    fn has_severity_exec(&self, s: ValidationSeverity) -> (b: bool)
        ensures
            b == has_severity(self.messages@, s),
    {
        let n = self.messages.len();
        for i in 0..n
            invariant
                n == self.messages@.len(),
                forall|j: int| 0 <= j < i ==> self.messages@[j].severity != s,
        {
            if self.messages[i].severity == s {
                return true;
            }
        }
        false
    }

    pub fn has_errors(&self) -> (b: bool)
        ensures
            b == has_severity(self.messages@, ValidationSeverity::Error),
    {
        self.has_severity_exec(ValidationSeverity::Error)
    }

    pub fn has_warnings(&self) -> (b: bool)
        ensures
            b == has_severity(self.messages@, ValidationSeverity::Warning),
    {
        self.has_severity_exec(ValidationSeverity::Warning)
    }
}

/// Adding a message keeps `passed` equal to "no error so far".
pub proof fn lemma_add_keeps_passed_in_step(
    before: ValidationResult,
    after: ValidationResult,
    msg: ValidationMessage,
)
    requires
        passed_tracks_errors(before),
        after.messages@ == before.messages@.push(msg),
        after.passed == (before.passed && msg.severity != ValidationSeverity::Error),
    ensures
        passed_tracks_errors(after),
{
    let e = ValidationSeverity::Error;
    if has_severity(before.messages@, e) {
        let i = choose|i: int| 0 <= i < before.messages@.len() && #[trigger] before.messages@[i].severity == e;
        assert(after.messages@[i] == before.messages@[i]);
    }
    if msg.severity == e {
        assert(after.messages@[before.messages@.len() as int] == msg);
    }
    if has_severity(after.messages@, e) {
        let i = choose|i: int| 0 <= i < after.messages@.len() && #[trigger] after.messages@[i].severity == e;
        if i < before.messages@.len() {
            assert(after.messages@[i] == before.messages@[i]);
        }
    }
}

/// `b` is `a` with one more message, as `add`, `info`, `warning` and `error` make it:
/// the message goes last, and `passed` stays only while no error comes.
pub open spec fn add_step(a: ValidationResult, b: ValidationResult) -> bool {
    &&& b.messages@.len() == a.messages@.len() + 1
    &&& b.messages@.drop_last() == a.messages@
    &&& b.passed == (a.passed && b.messages@.last().severity != ValidationSeverity::Error)
}

/// Every result built from `new()` by adding messages one at a time has `passed`
/// exactly when none of its messages is an error, that is `passed == !has_errors()`.
pub proof fn lemma_built_results_pass_without_errors(rs: Seq<ValidationResult>)
    requires
        rs.len() > 0,
        rs[0].messages@.len() == 0,
        rs[0].passed,
        forall|i: int| 0 <= i < rs.len() - 1 ==> #[trigger] add_step(rs[i], rs[i + 1]),
    ensures
        forall|i: int| 0 <= i < rs.len() ==> #[trigger] passed_tracks_errors(rs[i]),
    decreases rs.len(),
{
    if rs.len() == 1 {
        assert(!has_severity(rs[0].messages@, ValidationSeverity::Error));
    } else {
        let front = rs.drop_last();
        assert forall|i: int| 0 <= i < front.len() - 1 implies #[trigger] add_step(front[i], front[i + 1]) by {
            assert(add_step(rs[i], rs[i + 1]));
        }
        lemma_built_results_pass_without_errors(front);
        let k = rs.len() - 2;
        assert(add_step(rs[k], rs[k + 1]));
        assert(passed_tracks_errors(front[k]));
        let msg = rs[k + 1].messages@.last();
        assert(rs[k + 1].messages@ =~= rs[k].messages@.push(msg));
        lemma_add_keeps_passed_in_step(rs[k], rs[k + 1], msg);
        assert forall|i: int| 0 <= i < rs.len() implies #[trigger] passed_tracks_errors(rs[i]) by {
            if i < rs.len() - 1 {
                assert(passed_tracks_errors(front[i]));
            }
        }
    }
}

/// The runner check of a device validation: vLLM needs CUDA.
pub fn check_runner_support(
    result: ValidationResult,
    runner: RunnerType,
    device_name: &str,
    cuda_support: bool,
) -> (r: ValidationResult)
    ensures
        if runner == RunnerType::Vllm && !cuda_support {
            &&& add_step(result, r)
            &&& is_message(
                r.messages@.last(),
                ValidationSeverity::Error,
                "RUNNER_UNSUPPORTED"@,
                "vLLM requires CUDA which is not available on "@ + device_name@,
                Some("Use llama-cpp runner for CPU-based inference"@),
            )
        } else {
            r.messages@ == result.messages@ && r.passed == result.passed
        },
{
    if runner == RunnerType::Vllm && !cuda_support {
        let mut m: Vec<char> = Vec::new();
        push_str(&mut m, "vLLM requires CUDA which is not available on ");
        push_str(&mut m, device_name);
        let text = string_of(&m);
        result.error("RUNNER_UNSUPPORTED", text.as_str(), Some("Use llama-cpp runner for CPU-based inference"))
    } else {
        result
    }
}

/// The context length a model's parameters ask for: `max_input_len` when it is a
/// whole number that fits in 64 bits.
pub open spec fn asked_context(parameters: Map<Seq<char>, JsonValue>) -> Option<u64> {
    if parameters.contains_key("max_input_len"@) {
        as_u64(parameters["max_input_len"@]@)
    } else {
        None
    }
}

/// The context-length check of a device validation: a warning when the asked
/// context length (taken as 32 bits) exceeds the device's recommendation.
pub fn check_context_length(
    result: ValidationResult,
    parameters: &StrMap<JsonValue>,
    max_context_length: u32,
    device_name: &str,
) -> (r: ValidationResult)
    ensures
        match asked_context(parameters@) {
            Some(ctx) if ctx as u32 > max_context_length => {
                &&& add_step(result, r)
                &&& is_message(
                    r.messages@.last(),
                    ValidationSeverity::Warning,
                    "CONTEXT_TOO_LONG"@,
                    "Context length "@ + decimal(ctx as nat) + " exceeds recommended "@ + decimal(
                        max_context_length as nat,
                    ) + " for "@ + device_name@,
                    Some("Reduce max_input_len to "@ + decimal(max_context_length as nat) + " or lower"@),
                )
            },
            _ => r.messages@ == result.messages@ && r.passed == result.passed,
        },
{
    let ctx = match parameters.get("max_input_len") {
        Some(v) => json_as_u64(v),
        None => None,
    };
    match ctx {
        Some(c) => {
            if c as u32 > max_context_length {
                let mut m: Vec<char> = Vec::new();
                push_str(&mut m, "Context length ");
                push_decimal(&mut m, c);
                push_str(&mut m, " exceeds recommended ");
                push_decimal(&mut m, max_context_length as u64);
                push_str(&mut m, " for ");
                push_str(&mut m, device_name);
                let text = string_of(&m);
                let mut sg: Vec<char> = Vec::new();
                push_str(&mut sg, "Reduce max_input_len to ");
                push_decimal(&mut sg, max_context_length as u64);
                push_str(&mut sg, " or lower");
                let hint = string_of(&sg);
                result.warning("CONTEXT_TOO_LONG", text.as_str(), Some(hint.as_str()))
            } else {
                result
            }
        },
        None => result,
    }
}

/// The label printed for a severity.
pub open spec fn severity_label(s: ValidationSeverity) -> Seq<char> {
    match s {
        ValidationSeverity::Info => "INFO"@,
        ValidationSeverity::Warning => "WARN"@,
        ValidationSeverity::Error => "ERROR"@,
    }
}

/// The lines printed for one message.
pub open spec fn message_text(m: ValidationMessage) -> Seq<char> {
    "  "@ + severity_label(m.severity) + " ["@ + m.code@ + "]: "@ + m.message@ + "\n"@ + match m.suggestion {
        Some(x) => "    -> "@ + x@ + "\n"@,
        None => Seq::<char>::empty(),
    }
}

/// The lines printed for a sequence of messages.
pub open spec fn messages_text(ms: Seq<ValidationMessage>) -> Seq<char>
    decreases ms.len(),
{
    if ms.len() == 0 {
        Seq::empty()
    } else {
        messages_text(ms.drop_last()) + message_text(ms.last())
    }
}

/// The block printed for one model's result (nothing when it has no messages).
pub open spec fn result_text(name: Seq<char>, r: ValidationResult) -> Seq<char> {
    if r.messages@.len() == 0 {
        Seq::empty()
    } else {
        "\n["@ + name + "]\n"@ + messages_text(r.messages@)
    }
}

/// The text printed for the results of the named models, in order.
pub open spec fn results_text(names: Seq<Seq<char>>, m: Map<Seq<char>, ValidationResult>) -> Seq<
    char,
>
    decreases names.len(),
{
    if names.len() == 0 {
        Seq::empty()
    } else {
        results_text(names.drop_last(), m) + result_text(names.last(), m[names.last()])
    }
}

fn push_label(out: &mut Vec<char>, s: ValidationSeverity)
    ensures
        final(out)@ == old(out)@ + severity_label(s),
{
    match s {
        ValidationSeverity::Info => push_str(out, "INFO"),
        ValidationSeverity::Warning => push_str(out, "WARN"),
        ValidationSeverity::Error => push_str(out, "ERROR"),
    }
}

fn push_message(out: &mut Vec<char>, msg: &ValidationMessage)
    ensures
        final(out)@ == old(out)@ + message_text(*msg),
{
    let ghost start = out@;
    push_str(out, "  ");
    push_label(out, msg.severity);
    push_str(out, " [");
    push_str(out, msg.code.as_str());
    push_str(out, "]: ");
    push_str(out, msg.message.as_str());
    push_str(out, "\n");
    match &msg.suggestion {
        Some(x) => {
            push_str(out, "    -> ");
            push_str(out, x.as_str());
            push_str(out, "\n");
        },
        None => {
            assert(out@ + Seq::<char>::empty() =~= out@);
        },
    }
    assert(out@ =~= start + message_text(*msg));
}

fn push_messages(out: &mut Vec<char>, ms: &Vec<ValidationMessage>)
    ensures
        final(out)@ == old(out)@ + messages_text(ms@),
{
    let ghost start = out@;
    let n = ms.len();
    proof {
        assert(ms@.take(0) =~= Seq::<ValidationMessage>::empty());
        assert(start + Seq::<char>::empty() =~= start);
    }
    for i in 0..n
        invariant
            n == ms@.len(),
            out@ == start + messages_text(ms@.take(i as int)),
    {
        push_message(out, &ms[i]);
        proof {
            let t = ms@.take(i + 1);
            assert(t.drop_last() =~= ms@.take(i as int));
            assert(t.last() == ms@[i as int]);
        }
    }
    proof {
        assert(ms@.take(n as int) =~= ms@);
    }
}

/// Format validation results for display
pub fn format_validation_results(results: &StrMap<ValidationResult>) -> (s: String)
    ensures
        s@ == results_text(results.key_seq(), results@),
{
    let mut out: Vec<char> = Vec::new();
    let n = results.len();
    proof {
        assert(results.key_seq().take(0) =~= Seq::<Seq<char>>::empty());
    }
    for i in 0..n
        invariant
            n == results.key_seq().len(),
            forall|j: int|
                0 <= j < n ==> results@.contains_key(#[trigger] results.key_seq()[j]) && results@[results.key_seq()[j]]
                    == results.val_seq()[j],
            out@ == results_text(results.key_seq().take(i as int), results@),
    {
        let name = results.key_at(i);
        let r = results.val_at(i);
        if r.messages.len() > 0 {
            push_str(&mut out, "\n[");
            push_str(&mut out, name.as_str());
            push_str(&mut out, "]\n");
            push_messages(&mut out, &r.messages);
        }
        proof {
            let t = results.key_seq().take(i + 1);
            assert(t.drop_last() =~= results.key_seq().take(i as int));
            assert(t.last() == results.key_seq()[i as int]);
        }
    }
    proof {
        assert(results.key_seq().take(n as int) =~= results.key_seq());
    }
    string_of(&out)
}

} // verus!
