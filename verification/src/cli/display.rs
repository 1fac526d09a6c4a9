//! Display formatting for command-line output.
use vstd::prelude::*;
use vstd::utf8::encode_utf8;

use super::commands::{ContextInfo, ValidationResult};
use crate::cluster::pipeline::{pipeline_ready, Pipeline, PipelineCondition};
use crate::runtime::node::{all_digits, digits_value, lemma_digits_grow};
use crate::json::{entry_of, object_get, JsonValue, JsonView};
use crate::runtime::request::{utc_string, utc_text, uuid_string, uuid_text};
use crate::strmap::StrMap;
use crate::text::{
    chars_of, decimal, push_all, push_decimal, push_str, str_views, string_of, uppercase,
    uppercase_chars,
};

verus! {

broadcast use vstd::string::group_string_axioms;

/// `n` spaces.
pub open spec fn spaces(n: nat) -> Seq<char> {
    Seq::new(n, |i: int| ' ')
}

/// `s` left-aligned in a field of `w` characters, as `{:w$}` prints it.
pub open spec fn pad_to(s: Seq<char>, w: int) -> Seq<char> {
    if s.len() >= w {
        s
    } else {
        s + spaces((w - s.len()) as nat)
    }
}

/// The length in bytes that `str::len` reports.
pub open spec fn byte_len(s: Seq<char>) -> usize {
    encode_utf8(s).len() as usize
}

/// Width of column `i`: the byte length of its header, or of the longest cell
/// the rows have in that column.
pub open spec fn col_width(h: Seq<char>, rows: Seq<Seq<Seq<char>>>, i: int) -> int
    decreases rows.len(),
{
    if rows.len() == 0 {
        byte_len(h) as int
    } else {
        let w = col_width(h, rows.drop_last(), i);
        let last = rows.last();
        if i < last.len() && byte_len(last[i]) > w {
            byte_len(last[i]) as int
        } else {
            w
        }
    }
}

/// The column widths of a table.
pub open spec fn widths(hs: Seq<Seq<char>>, rows: Seq<Seq<Seq<char>>>) -> Seq<int> {
    Seq::new(hs.len(), |i: int| col_width(hs[i], rows, i))
}

/// Cell `i` of a line: padded where the column has a width, as is otherwise.
pub open spec fn cell_text(c: Seq<char>, i: int, ws: Seq<int>) -> Seq<char> {
    if i < ws.len() {
        pad_to(c, ws[i])
    } else {
        c
    }
}

/// The cells of one line, separated by three spaces.
pub open spec fn line_text(cells: Seq<Seq<char>>, ws: Seq<int>) -> Seq<char>
    decreases cells.len(),
{
    if cells.len() == 0 {
        seq![]
    } else {
        let k = cells.len() - 1;
        line_text(cells.drop_last(), ws) + (if k > 0 {
            spaces(3)
        } else {
            seq![]
        }) + cell_text(cells[k], k, ws)
    }
}

/// The rows, one line each.
pub open spec fn rows_text(rows: Seq<Seq<Seq<char>>>, ws: Seq<int>) -> Seq<char>
    decreases rows.len(),
{
    if rows.len() == 0 {
        seq![]
    } else {
        rows_text(rows.drop_last(), ws) + line_text(rows.last(), ws) + seq!['\n']
    }
}

/// The headers in upper case.
pub open spec fn upper_all(hs: Seq<Seq<char>>) -> Seq<Seq<char>> {
    Seq::new(hs.len(), |i: int| uppercase(hs[i]))
}

/// A table: the upper-cased header line and the rows, or a notice when there are no rows.
pub open spec fn table_text(hs: Seq<Seq<char>>, rows: Seq<Seq<Seq<char>>>) -> Seq<char> {
    if rows.len() == 0 {
        "No resources found.\n"@
    } else {
        let ws = widths(hs, rows);
        line_text(upper_all(hs), ws) + seq!['\n'] + rows_text(rows, ws)
    }
}

/// The views of a list of `&str`.
pub open spec fn strs_view(s: Seq<&str>) -> Seq<Seq<char>> {
    Seq::new(s.len(), |i: int| s[i]@)
}

/// The views of a list of rows.
pub open spec fn grid_view(rows: Seq<Vec<String>>) -> Seq<Seq<Seq<char>>> {
    Seq::new(rows.len(), |i: int| str_views(rows[i]@))
}

/// The byte length of a string.
fn str_byte_len(s: &String) -> (n: usize)
    ensures
        n == byte_len(s@),
{
    s.as_str().len()
}

/// Appends `cell` to `out`, padded to `w` characters when a width is given.
pub(crate) fn push_cell(out: &mut Vec<char>, cell: &str, w: Option<usize>)
    ensures
        final(out)@ == old(out)@ + match w {
            Some(w) => pad_to(cell@, w as int),
            None => cell@,
        },
{
    let cs = chars_of(cell);
    push_all(out, &cs);
    match w {
        Some(w) => {
            let n = cs.len();
            if n < w {
                let ghost base = out@;
                let mut k: usize = n;
                while k < w
                    invariant
                        n <= k <= w,
                        out@ == base + spaces((k - n) as nat),
                    decreases w - k,
                {
                    out.push(' ');
                    assert(spaces((k + 1 - n) as nat) =~= spaces((k - n) as nat).push(' '));
                    k = k + 1;
                }
                assert(base == old(out)@ + cell@);
                assert(out@ =~= old(out)@ + pad_to(cell@, w as int));
            }
        },
        None => {},
    }
}

/// Appends one line of cells (without its newline).
fn push_line(out: &mut Vec<char>, cells: &Vec<String>, ws: &Vec<usize>)
    ensures
        final(out)@ == old(out)@ + line_text(str_views(cells@), Seq::new(ws@.len(), |i: int| ws@[i] as int)),
{
    let ghost wv = Seq::new(ws@.len(), |i: int| ws@[i] as int);
    let ghost cv = str_views(cells@);
    let ghost base = out@;
    let n = cells.len();
    assert(cv.take(0) =~= Seq::<Seq<char>>::empty());
    for i in 0..n
        invariant
            n == cells@.len(),
            cv == str_views(cells@),
            wv == Seq::new(ws@.len(), |i: int| ws@[i] as int),
            out@ == base + line_text(cv.take(i as int), wv),
    {
        if i > 0 {
            push_str(out, "   ");
            proof {
                reveal_strlit("   ");
                assert("   "@ =~= spaces(3));
            }
        }
        let w = if i < ws.len() {
            Some(ws[i])
        } else {
            None
        };
        push_cell(out, cells[i].as_str(), w);
        proof {
            let t = cv.take(i + 1);
            assert(t.drop_last() =~= cv.take(i as int));
            assert(t[i as int] == cells@[i as int]@);
        }
    }
    assert(cv.take(n as int) =~= cv);
}

/// Format a simple table with headers and rows
pub fn format_table(headers: &[&str], rows: Vec<Vec<String>>) -> (r: String)
    ensures
        r@ == table_text(strs_view(headers@), grid_view(rows@)),
{
    if rows.len() == 0 {
        return String::from_str("No resources found.\n");
    }
    let ghost hs = strs_view(headers@);
    let ghost g = grid_view(rows@);
    let nh = headers.len();
    let mut ws: Vec<usize> = Vec::new();
    for i in 0..nh
        invariant
            nh == headers@.len(),
            hs == strs_view(headers@),
            ws@.len() == i,
            forall|j: int| 0 <= j < i ==> #[trigger] ws@[j] == byte_len(hs[j]),
    {
        ws.push(headers[i].len());
    }
    let nr = rows.len();
    for r in 0..nr
        invariant
            nr == rows@.len(),
            nh == headers@.len(),
            hs == strs_view(headers@),
            g == grid_view(rows@),
            ws@.len() == nh,
            forall|j: int| 0 <= j < nh ==> #[trigger] ws@[j] == col_width(hs[j], g.take(r as int), j),
    {
        let row = &rows[r];
        let nc = row.len();
        let ghost before = ws@;
        for c in 0..nc
            invariant
                nc == row@.len(),
                row == rows@[r as int],
                ws@.len() == nh,
                forall|j: int| 0 <= j < nh ==> #[trigger] ws@[j] == if j < c && byte_len(row@[j]@) > before[j] {
                    byte_len(row@[j]@) as int
                } else {
                    before[j] as int
                },
        {
            if c < ws.len() {
                let l = str_byte_len(&row[c]);
                if l > ws[c] {
                    ws.set(c, l);
                }
            }
        }
        proof {
            assert forall|j: int| 0 <= j < nh implies #[trigger] ws@[j] == col_width(
                hs[j],
                g.take(r + 1),
                j,
            ) by {
                let t = g.take(r + 1);
                assert(t.drop_last() =~= g.take(r as int));
                assert(t.last() == str_views(row@));
            }
        }
    }
    assert(g.take(nr as int) =~= g);
    let ghost wv = Seq::new(ws@.len(), |i: int| ws@[i] as int);
    assert(wv =~= widths(hs, g));
    let mut upper: Vec<String> = Vec::new();
    for i in 0..nh
        invariant
            nh == headers@.len(),
            hs == strs_view(headers@),
            upper@.len() == i,
            forall|j: int| 0 <= j < i ==> #[trigger] upper@[j]@ == uppercase(hs[j]),
    {
        let cs = chars_of(headers[i]);
        upper.push(string_of(&uppercase_chars(&cs)));
    }
    assert(str_views(upper@) =~= upper_all(hs));
    let mut out: Vec<char> = Vec::new();
    push_line(&mut out, &upper, &ws);
    out.push('\n');
    let ghost head = out@;
    assert(g.take(0) =~= Seq::<Seq<Seq<char>>>::empty());
    for r in 0..nr
        invariant
            nr == rows@.len(),
            g == grid_view(rows@),
            wv == Seq::new(ws@.len(), |i: int| ws@[i] as int),
            out@ == head + rows_text(g.take(r as int), wv),
    {
        push_line(&mut out, &rows[r], &ws);
        out.push('\n');
        proof {
            let t = g.take(r + 1);
            assert(t.drop_last() =~= g.take(r as int));
            assert(t.last() == str_views(rows@[r as int]@));
        }
    }
    assert(g.take(nr as int) =~= g);
    string_of(&out)
}

/// The row `context_list` output shows for one context.
pub open spec fn context_row(c: ContextInfo) -> Seq<Seq<char>> {
    seq![if c.is_current { "*"@ } else { " "@ }, c.name@, c.url@]
}

/// Format context list for display
pub fn format_context_list(contexts: &[ContextInfo]) -> (r: String)
    ensures
        r@ == table_text(
            seq![""@, "NAME"@, "URL"@],
            Seq::new(contexts@.len(), |i: int| context_row(contexts@[i])),
        ),
{
    let headers: Vec<&str> = vec!["", "NAME", "URL"];
    let mut rows: Vec<Vec<String>> = Vec::new();
    let n = contexts.len();
    for i in 0..n
        invariant
            n == contexts@.len(),
            rows@.len() == i,
            forall|j: int| 0 <= j < i ==> #[trigger] str_views(rows@[j]@) == context_row(contexts@[j]),
    {
        let ctx = &contexts[i];
        let mark = if ctx.is_current {
            String::from_str("*")
        } else {
            String::from_str(" ")
        };
        let row: Vec<String> = vec![mark, ctx.name.clone(), ctx.url.clone()];
        assert(str_views(row@) =~= context_row(contexts@[i as int]));
        rows.push(row);
    }
    assert(strs_view(headers@) =~= seq![""@, "NAME"@, "URL"@]);
    assert(grid_view(rows@) =~= Seq::new(contexts@.len(), |i: int| context_row(contexts@[i])));
    format_table(headers.as_slice(), rows)
}

/// Format current context for display
pub fn format_current_context(name: &str, url: &str) -> (r: String)
    ensures
        r@ == "Current context: "@ + name@ + " ("@ + url@ + ")\n"@,
{
    let mut out: Vec<char> = Vec::new();
    push_str(&mut out, "Current context: ");
    push_str(&mut out, name);
    push_str(&mut out, " (");
    push_str(&mut out, url);
    push_str(&mut out, ")\n");
    string_of(&out)
}

/// Format container list for display
pub fn format_container_list(containers: &[String]) -> (r: String)
    ensures
        r@ == table_text(
            seq!["CONTAINER"@],
            Seq::new(containers@.len(), |i: int| seq![containers@[i]@]),
        ),
{
    let headers: Vec<&str> = vec!["CONTAINER"];
    let mut rows: Vec<Vec<String>> = Vec::new();
    let n = containers.len();
    for i in 0..n
        invariant
            n == containers@.len(),
            rows@.len() == i,
            forall|j: int| 0 <= j < i ==> #[trigger] str_views(rows@[j]@) == seq![containers@[j]@],
    {
        let row: Vec<String> = vec![containers[i].clone()];
        assert(str_views(row@) =~= seq![containers@[i as int]@]);
        rows.push(row);
    }
    assert(strs_view(headers@) =~= seq!["CONTAINER"@]);
    assert(grid_view(rows@) =~= Seq::new(containers@.len(), |i: int| seq![containers@[i]@]));
    format_table(headers.as_slice(), rows)
}

/// The report `format_validation_result` prints.
pub open spec fn validation_text(result: ValidationResult, path: Seq<char>) -> Seq<char> {
    if result.valid {
        "✓ "@ + path + " is valid\n\n"@ + "  Models: "@ + decimal(result.models as nat) + "\n"@
            + "  Nodes:  "@ + decimal(result.nodes as nat) + "\n"@
    } else {
        "✗ "@ + path + " is invalid\n\n"@ + match result.error {
            Some(e) => "  Error: "@ + e@ + "\n"@,
            None => seq![],
        }
    }
}

/// Format validation result for display
pub fn format_validation_result(result: &ValidationResult, path: &str) -> (r: String)
    ensures
        r@ == validation_text(*result, path@),
{
    let mut out: Vec<char> = Vec::new();
    if result.valid {
        push_str(&mut out, "✓ ");
        push_str(&mut out, path);
        push_str(&mut out, " is valid\n\n");
        push_str(&mut out, "  Models: ");
        push_decimal(&mut out, result.models as u64);
        push_str(&mut out, "\n");
        push_str(&mut out, "  Nodes:  ");
        push_decimal(&mut out, result.nodes as u64);
        push_str(&mut out, "\n");
    } else {
        push_str(&mut out, "✗ ");
        push_str(&mut out, path);
        push_str(&mut out, " is invalid\n\n");
        match &result.error {
            Some(e) => {
                push_str(&mut out, "  Error: ");
                push_str(&mut out, e.as_str());
                push_str(&mut out, "\n");
            },
            None => {},
        }
    }
    string_of(&out)
}

/// The status word of a pipeline: Running when ready, Pending with a status, else Unknown.
pub open spec fn pipeline_state(p: Pipeline) -> Seq<char> {
    if pipeline_ready(p) {
        "Running"@
    } else if p.status is Some {
        "Pending"@
    } else {
        "Unknown"@
    }
}

/// The row of a pipeline: namespace, name, replicas, ready/total, status.
pub open spec fn pipeline_row(p: Pipeline) -> Seq<Seq<char>> {
    let (ready, total) = match p.status {
        Some(s) => (s.ready_replicas, s.replicas),
        None => (0u32, p.spec.replicas),
    };
    seq![
        p.metadata.namespace@,
        p.metadata.name@,
        decimal(p.spec.replicas as nat),
        decimal(ready as nat) + "/"@ + decimal(total as nat),
        pipeline_state(p),
    ]
}

fn u32_string(n: u32) -> (s: String)
    ensures
        s@ == decimal(n as nat),
{
    let mut v: Vec<char> = Vec::new();
    push_decimal(&mut v, n as u64);
    string_of(&v)
}

/// Format pipeline list for display
pub fn format_pipeline_list(pipelines: &[Pipeline]) -> (r: String)
    ensures
        r@ == table_text(
            seq!["NAMESPACE"@, "NAME"@, "REPLICAS"@, "READY"@, "STATUS"@],
            Seq::new(pipelines@.len(), |i: int| pipeline_row(pipelines@[i])),
        ),
{
    let headers: Vec<&str> = vec!["NAMESPACE", "NAME", "REPLICAS", "READY", "STATUS"];
    let mut rows: Vec<Vec<String>> = Vec::new();
    let n = pipelines.len();
    for i in 0..n
        invariant
            n == pipelines@.len(),
            rows@.len() == i,
            forall|j: int| 0 <= j < i ==> #[trigger] str_views(rows@[j]@) == pipeline_row(pipelines@[j]),
    {
        let p = &pipelines[i];
        let (ready, total) = match &p.status {
            Some(s) => (s.ready_replicas, s.replicas),
            None => (0u32, p.spec.replicas),
        };
        let state = if p.is_ready() {
            "Running"
        } else if p.status.is_some() {
            "Pending"
        } else {
            "Unknown"
        };
        let mut rt: Vec<char> = Vec::new();
        push_decimal(&mut rt, ready as u64);
        push_str(&mut rt, "/");
        push_decimal(&mut rt, total as u64);
        let row: Vec<String> = vec![
            p.metadata.namespace.clone(),
            p.metadata.name.clone(),
            u32_string(p.spec.replicas),
            string_of(&rt),
            String::from_str(state),
        ];
        assert(str_views(row@) =~= pipeline_row(pipelines@[i as int]));
        rows.push(row);
    }
    assert(strs_view(headers@) =~= seq!["NAMESPACE"@, "NAME"@, "REPLICAS"@, "READY"@, "STATUS"@]);
    assert(grid_view(rows@) =~= Seq::new(pipelines@.len(), |i: int| pipeline_row(pipelines@[i])));
    format_table(headers.as_slice(), rows)
}

/// `  key=value` lines for the first `n` labels, in key order.
pub open spec fn label_lines(labels: StrMap<String>, n: nat) -> Seq<char>
    decreases n,
{
    if n == 0 || n > labels.key_seq().len() {
        seq![]
    } else {
        let k = labels.key_seq()[n - 1];
        label_lines(labels, (n - 1) as nat) + "  "@ + k + "="@ + labels@[k]@ + "\n"@
    }
}

/// One line per item, for the first `n` items.
pub open spec fn item_lines<T>(items: Seq<T>, n: nat, line: spec_fn(T) -> Seq<char>) -> Seq<char>
    decreases n,
{
    if n == 0 || n > items.len() {
        seq![]
    } else {
        item_lines(items, (n - 1) as nat, line) + line(items[n - 1])
    }
}

/// `    - endpoint` line.
pub open spec fn endpoint_line(e: String) -> Seq<char> {
    "    - "@ + e@ + "\n"@
}

/// `    type = status (reason)` line.
pub open spec fn condition_line(c: PipelineCondition) -> Seq<char> {
    "    "@ + c.condition_type@ + " = "@ + c.status@ + " ("@ + c.reason@ + ")\n"@
}

/// The head of a pipeline's description: name, namespace, UID, creation time, replicas, port.
pub open spec fn detail_head(p: Pipeline) -> Seq<char> {
    "Name:       "@ + p.metadata.name@ + "\n"@ + "Namespace:  "@ + p.metadata.namespace@ + "\n"@
        + "UID:        "@ + uuid_text(p.metadata.uid) + "\n"@ + (match p.metadata.creation_timestamp {
        Some(ts) => "Created:    "@ + utc_text(ts) + "\n"@,
        None => seq![],
    }) + "Replicas:   "@ + decimal(p.spec.replicas as nat) + "\n"@ + "Port:       "@ + decimal(
        p.spec.port as nat,
    ) + "\n"@
}

/// The labels of a pipeline's description; nothing without labels.
pub open spec fn detail_labels(labels: StrMap<String>) -> Seq<char> {
    if labels@.len() == 0 {
        seq![]
    } else {
        "Labels:\n"@ + label_lines(labels, labels.key_seq().len())
    }
}

/// The status of a pipeline's description: replica counts, endpoints and conditions.
pub open spec fn detail_status(st: Option<crate::cluster::pipeline::PipelineStatus>) -> Seq<char> {
    match st {
        Some(s) => "\nStatus:\n"@ + "  Ready Replicas:       "@ + decimal(s.ready_replicas as nat) + "\n"@
            + "  Available Replicas:   "@ + decimal(s.available_replicas as nat) + "\n"@
            + "  Unavailable Replicas: "@ + decimal(s.unavailable_replicas as nat) + "\n"@ + (if s.endpoints@.len()
            == 0 {
            seq![]
        } else {
            "  Endpoints:\n"@ + item_lines(s.endpoints@, s.endpoints@.len(), |e: String| endpoint_line(e))
        }) + (if s.conditions@.len() == 0 {
            seq![]
        } else {
            "  Conditions:\n"@ + item_lines(
                s.conditions@,
                s.conditions@.len(),
                |c: PipelineCondition| condition_line(c),
            )
        }),
        None => seq![],
    }
}

/// The detailed description of a pipeline.
pub open spec fn pipeline_detail(p: Pipeline) -> Seq<char> {
    detail_head(p) + detail_labels(p.metadata.labels) + detail_status(p.status) + "\nComposition:\n"@
        + "  Models: "@ + decimal(p.spec.composition.models@.len()) + "\n"@ + "  Nodes:  "@ + decimal(
        p.spec.composition.architecture@.len(),
    ) + "\n"@
}

fn push_detail_head(v: &mut Vec<char>, pipeline: &Pipeline)
    ensures
        final(v)@ == old(v)@ + detail_head(*pipeline),
{
    push_str(v, "Name:       ");
    push_str(v, pipeline.metadata.name.as_str());
    push_str(v, "\n");
    push_str(v, "Namespace:  ");
    push_str(v, pipeline.metadata.namespace.as_str());
    push_str(v, "\n");
    push_str(v, "UID:        ");
    let uid = uuid_string(pipeline.metadata.uid);
    push_str(v, uid.as_str());
    push_str(v, "\n");
    match pipeline.metadata.creation_timestamp {
        Some(ts) => {
            push_str(v, "Created:    ");
            let t = utc_string(ts);
            push_str(v, t.as_str());
            push_str(v, "\n");
        },
        None => {},
    }
    push_str(v, "Replicas:   ");
    push_decimal(v, pipeline.spec.replicas as u64);
    push_str(v, "\n");
    push_str(v, "Port:       ");
    push_decimal(v, pipeline.spec.port as u64);
    push_str(v, "\n");
    assert(v@ =~= old(v)@ + detail_head(*pipeline));
}

fn push_detail_labels(v: &mut Vec<char>, labels: &StrMap<String>)
    ensures
        final(v)@ == old(v)@ + detail_labels(*labels),
{
    let nl = labels.len();
    if !labels.is_empty() {
        push_str(v, "Labels:\n");
        let ghost lh = v@;
        for i in 0..nl
            invariant
                nl == labels.key_seq().len(),
                v@ == lh + label_lines(*labels, i as nat),
        {
            let k = labels.key_at(i);
            let val = labels.val_at(i);
            push_str(v, "  ");
            push_str(v, k.as_str());
            push_str(v, "=");
            push_str(v, val.as_str());
            push_str(v, "\n");
            assert(v@ =~= lh + label_lines(*labels, (i + 1) as nat));
        }
        assert(v@ =~= old(v)@ + detail_labels(*labels));
    } else {
        assert(v@ =~= old(v)@ + detail_labels(*labels));
    }
}

fn push_endpoint_lines(v: &mut Vec<char>, endpoints: &Vec<String>)
    ensures
        final(v)@ == old(v)@ + item_lines(endpoints@, endpoints@.len(), |e: String| endpoint_line(e)),
{
    let ghost h = v@;
    let ne = endpoints.len();
    for i in 0..ne
        invariant
            ne == endpoints@.len(),
            v@ == h + item_lines(endpoints@, i as nat, |e: String| endpoint_line(e)),
    {
        push_str(v, "    - ");
        push_str(v, endpoints[i].as_str());
        push_str(v, "\n");
        assert(v@ =~= h + item_lines(endpoints@, (i + 1) as nat, |e: String| endpoint_line(e)));
    }
}

fn push_condition_lines(v: &mut Vec<char>, conditions: &Vec<PipelineCondition>)
    ensures
        final(v)@ == old(v)@ + item_lines(
            conditions@,
            conditions@.len(),
            |c: PipelineCondition| condition_line(c),
        ),
{
    let ghost h = v@;
    let nc = conditions.len();
    for i in 0..nc
        invariant
            nc == conditions@.len(),
            v@ == h + item_lines(conditions@, i as nat, |c: PipelineCondition| condition_line(c)),
    {
        let c = &conditions[i];
        push_str(v, "    ");
        push_str(v, c.condition_type.as_str());
        push_str(v, " = ");
        push_str(v, c.status.as_str());
        push_str(v, " (");
        push_str(v, c.reason.as_str());
        push_str(v, ")\n");
        assert(v@ =~= h + item_lines(
            conditions@,
            (i + 1) as nat,
            |c: PipelineCondition| condition_line(c),
        ));
    }
}

fn push_detail_status(v: &mut Vec<char>, status: &Option<crate::cluster::pipeline::PipelineStatus>)
    ensures
        final(v)@ == old(v)@ + detail_status(*status),
{
    match status {
        Some(s) => {
            push_str(v, "\nStatus:\n");
            push_str(v, "  Ready Replicas:       ");
            push_decimal(v, s.ready_replicas as u64);
            push_str(v, "\n");
            push_str(v, "  Available Replicas:   ");
            push_decimal(v, s.available_replicas as u64);
            push_str(v, "\n");
            push_str(v, "  Unavailable Replicas: ");
            push_decimal(v, s.unavailable_replicas as u64);
            push_str(v, "\n");
            let ghost h1 = v@;
            if s.endpoints.len() > 0 {
                push_str(v, "  Endpoints:\n");
                push_endpoint_lines(v, &s.endpoints);
            }
            let ghost h2 = v@;
            if s.conditions.len() > 0 {
                push_str(v, "  Conditions:\n");
                push_condition_lines(v, &s.conditions);
            }
            assert(v@ =~= old(v)@ + detail_status(*status));
        },
        None => {
            assert(v@ =~= old(v)@ + detail_status(*status));
        },
    }
}

/// Format a single pipeline for detailed display
pub fn format_pipeline_detail(pipeline: &Pipeline) -> (r: String)
    ensures
        r@ == pipeline_detail(*pipeline),
{
    let mut v: Vec<char> = Vec::new();
    push_detail_head(&mut v, pipeline);
    push_detail_labels(&mut v, &pipeline.metadata.labels);
    push_detail_status(&mut v, &pipeline.status);
    push_str(&mut v, "\nComposition:\n");
    push_str(&mut v, "  Models: ");
    let nm = pipeline.spec.composition.models.len();
    push_decimal(&mut v, nm as u64);
    push_str(&mut v, "\n");
    push_str(&mut v, "  Nodes:  ");
    push_decimal(&mut v, pipeline.spec.composition.architecture.len() as u64);
    push_str(&mut v, "\n");
    assert(v@ =~= pipeline_detail(*pipeline));
    string_of(&v)
}

/// What `value.get(k)` gives: the member under `k` of an object.
pub open spec fn member(v: JsonView, k: Seq<char>) -> Option<JsonView> {
    match v {
        JsonView::Object(es) => entry_of(es, k),
        _ => None,
    }
}

/// What `value["key"]` gives: the member under `k` of an object, null otherwise.
pub open spec fn field(v: JsonView, k: Seq<char>) -> JsonView {
    match member(v, k) {
        Some(x) => x,
        None => JsonView::Null,
    }
}

/// A string's text, or `d` for anything else.
pub open spec fn text_or(v: JsonView, d: Seq<char>) -> Seq<char> {
    match v {
        JsonView::String(s) => s,
        _ => d,
    }
}

/// `as_u64`: a number written with digits only, that fits in 64 bits.
pub open spec fn as_u64(v: JsonView) -> Option<u64> {
    match v {
        JsonView::Number(t) => if t.len() > 0 && all_digits(t)
            && digits_value(t) <= u64::MAX {
            Some(digits_value(t) as u64)
        } else {
            None
        },
        _ => None,
    }
}

/// `value.get(k)`.
pub fn json_field<'a>(v: &'a JsonValue, k: &str) -> (r: Option<&'a JsonValue>)
    ensures
        match r {
            Some(x) => member(v@, k@) == Some(x@),
            None => member(v@, k@) is None,
        },
{
    match v {
        JsonValue::Object(es) => {
            proof {
                assert(crate::json::entry_views(es@) =~= match v@ {
                    JsonView::Object(ev) => ev,
                    _ => seq![],
                });
            }
            object_get(es, k)
        },
        _ => None,
    }
}

/// `value["a"]["b"]` as text, or `d`.
fn text_at(v: &JsonValue, a: &str, b: &str, d: &str) -> (s: String)
    ensures
        s@ == text_or(field(field(v@, a@), b@), d@),
{
    match json_field(v, a) {
        Some(x) => match json_field(x, b) {
            Some(JsonValue::String(t)) => t.clone(),
            _ => String::from_str(d),
        },
        None => String::from_str(d),
    }
}

/// `as_u64` on a JSON value.
#[verifier::loop_isolation(false)]
pub fn json_as_u64(v: &JsonValue) -> (r: Option<u64>)
    ensures
        r == as_u64(v@),
{
    match v {
        JsonValue::Number(t) => {
            let d = chars_of(t.as_str());
            if d.len() == 0 {
                return None;
            }
            let mut acc: u128 = 0;
            let n = d.len();
            for i in 0..n
                invariant
                    n == d@.len(),
                    d@ == t@,
                    acc <= u64::MAX,
                    all_digits(d@.take(i as int)),
                    acc == digits_value(d@.take(i as int)),
            {
                let ch = d[i];
                proof {
                    let tk = d@.take(i + 1);
                    assert(tk.drop_last() =~= d@.take(i as int));
                    assert(tk.last() == ch);
                }
                if !('0' <= ch && ch <= '9') {
                    assert(!all_digits(d@)) by {
                        assert(d@[i as int] == ch);
                    }
                    return None;
                }
                let x: u128 = ((ch as u32) - ('0' as u32)) as u128;
                let nv: u128 = acc * 10 + x;
                if nv > 18446744073709551615u128 {
                    proof {
                        assert(all_digits(d@.take(i + 1)));
                        assert(digits_value(d@.take(i + 1)) == nv);
                        lemma_digits_grow(d@, i as int + 1);
                    }
                    return None;
                }
                acc = nv;
                assert(all_digits(d@.take(i + 1)));
            }
            assert(d@.take(n as int) =~= d@);
            Some(acc as u64)
        },
        _ => None,
    }
}

/// `as_u64`, or `d` when it gives nothing.
pub open spec fn u64_or(v: JsonView, d: u64) -> u64 {
    match as_u64(v) {
        Some(x) => x,
        None => d,
    }
}

/// The length of an array, 0 for anything else.
pub open spec fn array_len(v: JsonView) -> nat {
    match v {
        JsonView::Array(a) => a.len(),
        _ => 0,
    }
}

/// `value["a"]["b"]` as a number, or `d`.
fn u64_at(v: &JsonValue, a: &str, b: &str, d: u64) -> (n: u64)
    ensures
        n == u64_or(field(field(v@, a@), b@), d),
{
    match json_field(v, a) {
        Some(x) => match json_field(x, b) {
            Some(y) => match json_as_u64(y) {
                Some(n) => n,
                None => d,
            },
            None => d,
        },
        None => d,
    }
}

/// The length of the array at `value["a"]["b"]`, 0 for anything else.
fn len_at(v: &JsonValue, a: &str, b: &str) -> (n: usize)
    ensures
        n == array_len(field(field(v@, a@), b@)),
{
    match json_field(v, a) {
        Some(x) => match json_field(x, b) {
            Some(JsonValue::Array(items)) => items.len(),
            _ => 0,
        },
        None => 0,
    }
}

/// The row of a node: name, phase, address and port, and how many pipelines it runs.
pub open spec fn node_row(n: JsonView) -> Seq<Seq<char>> {
    seq![
        text_or(field(field(n, "metadata"@), "name"@), "?"@),
        text_or(field(field(n, "status"@), "phase"@), "Unknown"@),
        text_or(field(field(n, "spec"@), "address"@), "?"@) + ":"@ + decimal(
            u64_or(field(field(n, "spec"@), "port"@), 8080) as nat,
        ),
        decimal(array_len(field(field(n, "status"@), "pipelines"@))),
    ]
}

/// Format node list for display
pub fn format_node_list(nodes: &[JsonValue]) -> (r: String)
    ensures
        r@ == table_text(
            seq!["NAME"@, "STATUS"@, "ADDRESS"@, "PIPELINES"@],
            Seq::new(nodes@.len(), |i: int| node_row(nodes@[i]@)),
        ),
{
    let headers: Vec<&str> = vec!["NAME", "STATUS", "ADDRESS", "PIPELINES"];
    let mut rows: Vec<Vec<String>> = Vec::new();
    let n = nodes.len();
    for i in 0..n
        invariant
            n == nodes@.len(),
            rows@.len() == i,
            forall|j: int| 0 <= j < i ==> #[trigger] str_views(rows@[j]@) == node_row(nodes@[j]@),
    {
        let node = &nodes[i];
        let name = text_at(node, "metadata", "name", "?");
        let status = text_at(node, "status", "phase", "Unknown");
        let address = text_at(node, "spec", "address", "?");
        let port = u64_at(node, "spec", "port", 8080);
        let count = len_at(node, "status", "pipelines");
        let mut at: Vec<char> = Vec::new();
        push_str(&mut at, address.as_str());
        push_str(&mut at, ":");
        push_decimal(&mut at, port);
        let mut ct: Vec<char> = Vec::new();
        push_decimal(&mut ct, count as u64);
        let row: Vec<String> = vec![name, status, string_of(&at), string_of(&ct)];
        assert(str_views(row@) =~= node_row(nodes@[i as int]@));
        rows.push(row);
    }
    assert(strs_view(headers@) =~= seq!["NAME"@, "STATUS"@, "ADDRESS"@, "PIPELINES"@]);
    assert(grid_view(rows@) =~= Seq::new(nodes@.len(), |i: int| node_row(nodes@[i]@)));
    format_table(headers.as_slice(), rows)
}

/// Format namespace list for display
pub fn format_namespace_list(namespaces: &[JsonValue]) -> (r: String)
    ensures
        r@ == table_text(
            seq!["NAME"@],
            Seq::new(
                namespaces@.len(),
                |i: int| seq![text_or(field(field(namespaces@[i]@, "metadata"@), "name"@), "?"@)],
            ),
        ),
{
    let headers: Vec<&str> = vec!["NAME"];
    let mut rows: Vec<Vec<String>> = Vec::new();
    let n = namespaces.len();
    for i in 0..n
        invariant
            n == namespaces@.len(),
            rows@.len() == i,
            forall|j: int|
                0 <= j < i ==> #[trigger] str_views(rows@[j]@) == seq![
                    text_or(field(field(namespaces@[j]@, "metadata"@), "name"@), "?"@),
                ],
    {
        let row: Vec<String> = vec![text_at(&namespaces[i], "metadata", "name", "?")];
        assert(str_views(row@) =~= seq![
            text_or(field(field(namespaces@[i as int]@, "metadata"@), "name"@), "?"@),
        ]);
        rows.push(row);
    }
    assert(strs_view(headers@) =~= seq!["NAME"@]);
    assert(grid_view(rows@) =~= Seq::new(
        namespaces@.len(),
        |i: int| seq![text_or(field(field(namespaces@[i]@, "metadata"@), "name"@), "?"@)],
    ));
    format_table(headers.as_slice(), rows)
}

/// `value["k"]` as text, or `d`.
fn text_of(v: &JsonValue, k: &str, d: &str) -> (s: String)
    ensures
        s@ == text_or(field(v@, k@), d@),
{
    match json_field(v, k) {
        Some(JsonValue::String(t)) => t.clone(),
        _ => String::from_str(d),
    }
}

/// The row of a runner: name, model, endpoint and status.
pub open spec fn runner_row(r: JsonView) -> Seq<Seq<char>> {
    seq![
        text_or(field(r, "name"@), "?"@),
        text_or(field(r, "model"@), "?"@),
        text_or(field(r, "endpoint"@), "?"@),
        text_or(field(r, "status"@), "running"@),
    ]
}

/// Format runner list for display
pub fn format_runner_list(runners: &[JsonValue]) -> (r: String)
    ensures
        r@ == table_text(
            seq!["NAME"@, "MODEL"@, "ENDPOINT"@, "STATUS"@],
            Seq::new(runners@.len(), |i: int| runner_row(runners@[i]@)),
        ),
{
    let headers: Vec<&str> = vec!["NAME", "MODEL", "ENDPOINT", "STATUS"];
    let mut rows: Vec<Vec<String>> = Vec::new();
    let n = runners.len();
    for i in 0..n
        invariant
            n == runners@.len(),
            rows@.len() == i,
            forall|j: int| 0 <= j < i ==> #[trigger] str_views(rows@[j]@) == runner_row(runners@[j]@),
    {
        let r = &runners[i];
        let row: Vec<String> = vec![
            text_of(r, "name", "?"),
            text_of(r, "model", "?"),
            text_of(r, "endpoint", "?"),
            text_of(r, "status", "running"),
        ];
        assert(str_views(row@) =~= runner_row(runners@[i as int]@));
        rows.push(row);
    }
    assert(strs_view(headers@) =~= seq!["NAME"@, "MODEL"@, "ENDPOINT"@, "STATUS"@]);
    assert(grid_view(rows@) =~= Seq::new(runners@.len(), |i: int| runner_row(runners@[i]@)));
    format_table(headers.as_slice(), rows)
}

/// The cluster summary: node, pipeline and namespace counts from the `stats` member.
pub open spec fn cluster_status_text(status: JsonView) -> Seq<char> {
    "Cluster Status\n"@ + "==============\n\n"@ + match member(status, "stats"@) {
        Some(st) => "Nodes:     "@ + decimal(u64_or(field(st, "ready_nodes"@), 0) as nat) + "/"@
            + decimal(u64_or(field(st, "total_nodes"@), 0) as nat) + " ready\n"@ + "Pipelines: "@
            + decimal(u64_or(field(st, "ready_pipelines"@), 0) as nat) + "/"@ + decimal(
            u64_or(field(st, "total_pipelines"@), 0) as nat,
        ) + " ready\n"@ + "Namespaces: "@ + decimal(u64_or(field(st, "namespaces"@), 0) as nat)
            + "\n"@,
        None => seq![],
    }
}

/// `value["k"]` as a number, or 0.
fn count_of(v: &JsonValue, k: &str) -> (n: u64)
    ensures
        n == u64_or(field(v@, k@), 0),
{
    match json_field(v, k) {
        Some(x) => match json_as_u64(x) {
            Some(n) => n,
            None => 0,
        },
        None => 0,
    }
}

/// Format cluster status for display
pub fn format_cluster_status(status: &JsonValue) -> (r: String)
    ensures
        r@ == cluster_status_text(status@),
{
    let mut out: Vec<char> = Vec::new();
    push_str(&mut out, "Cluster Status\n");
    push_str(&mut out, "==============\n\n");
    match json_field(status, "stats") {
        Some(st) => {
            push_str(&mut out, "Nodes:     ");
            push_decimal(&mut out, count_of(st, "ready_nodes"));
            push_str(&mut out, "/");
            push_decimal(&mut out, count_of(st, "total_nodes"));
            push_str(&mut out, " ready\n");
            push_str(&mut out, "Pipelines: ");
            push_decimal(&mut out, count_of(st, "ready_pipelines"));
            push_str(&mut out, "/");
            push_decimal(&mut out, count_of(st, "total_pipelines"));
            push_str(&mut out, " ready\n");
            push_str(&mut out, "Namespaces: ");
            push_decimal(&mut out, count_of(st, "namespaces"));
            push_str(&mut out, "\n");
        },
        None => {},
    }
    assert(out@ =~= cluster_status_text(status@));
    string_of(&out)
}

} // verus!
