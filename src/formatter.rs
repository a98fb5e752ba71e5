//! Rendering of processed trees: an indented pretty tree, or one JSON record
//! per line.

use vstd::prelude::*;

use crate::tag::{level_emoji, level_name, level_tag, EventTagSet, Level};
use crate::text::{decimal, duration_text, percent_text, push_decimal, push_duration, push_percent};
use crate::timestamp::timestamp_text;
use crate::tree::{
    lemma_processed_seq_view, processed_view, processed_seq_view, MyEvent, MyProcessedLogs,
    MyProcessedSpan, ProcessedModel, SpanHead, Sink, SinkModel, sink_view, MyLogs, LogsModel,
    logs_view, process_model,
};

verus! {

/// The two output formats.
#[derive(Clone, Copy, Debug, PartialEq, Eq)]
pub enum LogFmt {
    Json,
    Pretty,
}

/// The identity written for events outside any span.
pub const EVENT_UUID: &'static str = "00000000-0000-0000-0000-000000000000";

/// One three-column cell of the indentation of a pretty line.
#[derive(Clone, Copy, Debug, PartialEq, Eq)]
pub enum Fill {
    Void,
    Line,
    Fork,
    Turn,
}

pub open spec fn fill_text(f: Fill) -> Seq<char> {
    match f {
        Fill::Void => "   "@,
        Fill::Line => "│  "@,
        Fill::Fork => "┝━ "@,
        Fill::Turn => "┕━ "@,
    }
}

pub open spec fn indent_text(ind: Seq<Fill>) -> Seq<char>
    decreases ind.len(),
{
    if ind.len() == 0 {
        seq![]
    } else {
        indent_text(ind.drop_last()) + fill_text(ind.last())
    }
}

/// The cell under a branch once the branch has children: a fork becomes a
/// line running on to the later siblings, a turn becomes blank.
pub open spec fn settle_cell(f: Fill) -> Fill {
    match f {
        Fill::Turn => Fill::Void,
        Fill::Fork => Fill::Line,
        _ => f,
    }
}

pub open spec fn settle(ind: Seq<Fill>) -> Seq<Fill> {
    if ind.len() == 0 {
        ind
    } else {
        ind.drop_last().push(settle_cell(ind.last()))
    }
}

/// Where a line stands: the spans above it (root first), the identity it
/// inherits, its indentation, and the busy time of the root, once known.
pub struct LineCtx {
    pub path: Seq<SpanHead>,
    pub uuid: Seq<char>,
    pub indent: Seq<Fill>,
    pub root: Option<u64>,
}

/// One output line: a node of the tree and where it stands.
pub struct Line<T> {
    pub node: ProcessedModel<T>,
    pub ctx: LineCtx,
}

/// The identity of a span: its own, or else the one it inherits.
pub open spec fn span_uuid(h: SpanHead, inherited: Seq<char>) -> Seq<char> {
    match h.uuid {
        Some(u) => u,
        None => inherited,
    }
}

/// Where the children of a span stand, before the last cell is chosen.
pub open spec fn children_ctx(h: SpanHead, total: u64, c: LineCtx) -> LineCtx {
    LineCtx {
        path: c.path.push(h),
        uuid: span_uuid(h, c.uuid),
        indent: settle(c.indent),
        root: Some(
            match c.root {
                Some(r) => r,
                None => total,
            },
        ),
    }
}

/// The cell before the `i`-th of `n` children: a turn for the last, else a
/// fork.
pub open spec fn branch_cell(i: int, n: int) -> Fill {
    if i == n - 1 { Fill::Turn } else { Fill::Fork }
}

pub open spec fn with_cell(c: LineCtx, f: Fill) -> LineCtx {
    LineCtx { indent: c.indent.push(f), ..c }
}

/// The lines of a tree in output order: a span before its children.
pub open spec fn flatten<T>(t: ProcessedModel<T>, c: LineCtx) -> Seq<Line<T>>
    decreases t, 0nat,
{
    match t {
        ProcessedModel::Event(_) => seq![Line { node: t, ctx: c }],
        ProcessedModel::Span(h, total, _, ch) => seq![Line { node: t, ctx: c }]
            + flatten_children(ch, children_ctx(h, total, c), ch.len()),
    }
}

/// The lines of the first `k` of the children `ch`.
pub open spec fn flatten_children<T>(ch: Seq<ProcessedModel<T>>, c: LineCtx, k: nat) -> Seq<
    Line<T>,
>
    decreases ch, k,
{
    if k == 0 || k > ch.len() {
        seq![]
    } else {
        flatten_children(ch, c, (k - 1) as nat) + flatten(
            ch[k - 1],
            with_cell(c, branch_cell(k - 1, ch.len() as int)),
        )
    }
}

/// The level column of a pretty line: the name, left-justified in eight.
pub open spec fn level_column(l: Level) -> Seq<char> {
    match l {
        Level::Trace => "TRACE   "@,
        Level::Debug => "DEBUG   "@,
        Level::Info => "INFO    "@,
        Level::Warn => "WARN    "@,
        Level::Error => "ERROR   "@,
    }
}

/// The glyph of an event: its tag's, or else its level's.
pub open spec fn event_emoji<T: EventTagSet>(e: MyEvent<T>) -> Seq<char> {
    match e.tag {
        Some(t) => t.spec_emoji(),
        None => level_emoji(e.level),
    }
}

/// The tag text of an event: its tag's name, or else its level's fallback.
pub open spec fn event_tag_text<T: EventTagSet>(e: MyEvent<T>) -> Seq<char> {
    match e.tag {
        Some(t) => t.spec_pretty(),
        None => level_tag(e.level),
    }
}

/// ` | key: value` for each recorded value, in order.
pub open spec fn values_text(vs: Seq<(&'static str, String)>) -> Seq<char>
    decreases vs.len(),
{
    if vs.len() == 0 {
        seq![]
    } else {
        values_text(vs.drop_last()) + " | "@ + vs.last().0@ + ": "@ + vs.last().1@
    }
}

/// `<uuid> <timestamp> <level-column> <indent>`.
pub open spec fn line_prefix(
    uuid: Seq<char>,
    ts: crate::timestamp::Timestamp,
    level: Level,
    indent: Seq<Fill>,
) -> Seq<char> {
    uuid + " "@ + timestamp_text(ts) + " "@ + level_column(level) + " "@ + indent_text(indent)
}

/// `<prefix><emoji> [<tag>]: <message> | key: value ...`
pub open spec fn event_pretty<T: EventTagSet>(
    e: MyEvent<T>,
    uuid: Seq<char>,
    indent: Seq<Fill>,
) -> Seq<char> {
    line_prefix(uuid, e.timestamp, e.level, indent) + event_emoji(e) + " ["@ + event_tag_text(e)
        + "]: "@ + e.message@ + values_text(e.values@) + "\n"@
}

/// The busy time of a span outside its child spans; none where the children
/// account for more than the span itself.
pub open spec fn direct_time(total: u64, nested: u64) -> nat {
    if total >= nested { (total - nested) as nat } else { 0 }
}

/// `<prefix><name> [ <duration> | <direct>% / <total>% ]`, without the
/// direct share where no child span took any time.
pub open spec fn span_pretty(
    h: SpanHead,
    total: u64,
    nested: u64,
    uuid: Seq<char>,
    indent: Seq<Fill>,
    root: u64,
) -> Seq<char> {
    line_prefix(uuid, h.timestamp, Level::Trace, indent) + h.name + " [ "@ + duration_text(
        total as nat,
    ) + " | "@ + (if nested > 0 {
        percent_text(direct_time(total, nested), root as nat) + "% / "@
    } else {
        seq![]
    }) + percent_text(total as nat, root as nat) + "% ]\n"@
}

pub open spec fn root_time(c: LineCtx, total: u64) -> u64 {
    match c.root {
        Some(r) => r,
        None => total,
    }
}

pub open spec fn pretty_line<T: EventTagSet>(l: Line<T>) -> Seq<char> {
    match l.node {
        ProcessedModel::Event(e) => event_pretty(e, l.ctx.uuid, l.ctx.indent),
        ProcessedModel::Span(h, total, nested, _) => span_pretty(
            h,
            total,
            nested,
            span_uuid(h, l.ctx.uuid),
            l.ctx.indent,
            root_time(l.ctx, total),
        ),
    }
}

pub open spec fn pretty_lines<T: EventTagSet>(ls: Seq<Line<T>>) -> Seq<char>
    decreases ls.len(),
{
    if ls.len() == 0 {
        seq![]
    } else {
        pretty_lines(ls.drop_last()) + pretty_line(ls.last())
    }
}

/// Where the root of a rendered tree stands.
pub open spec fn root_ctx() -> LineCtx {
    LineCtx { path: seq![], uuid: EVENT_UUID@, indent: seq![], root: None }
}

/// The pretty rendering of a processed tree.
pub open spec fn pretty_text<T: EventTagSet>(t: ProcessedModel<T>) -> Seq<char> {
    pretty_lines(flatten(t, root_ctx()))
}

pub proof fn lemma_pretty_lines_append<T: EventTagSet>(a: Seq<Line<T>>, b: Seq<Line<T>>)
    ensures
        pretty_lines(a + b) == pretty_lines(a) + pretty_lines(b),
    decreases b.len(),
{
    if b.len() == 0 {
        assert(a + b =~= a);
        assert(pretty_lines(b) =~= seq![]);
        assert(pretty_lines(a) + pretty_lines(b) =~= pretty_lines(a));
    } else {
        lemma_pretty_lines_append(a, b.drop_last());
        assert((a + b).drop_last() =~= a + b.drop_last());
        assert((a + b).last() == b.last());
    }
}

pub proof fn lemma_pretty_lines_single<T: EventTagSet>(l: Line<T>)
    ensures
        pretty_lines(seq![l]) == pretty_line(l),
{
    let ls = seq![l];
    assert(ls.drop_last() =~= Seq::<Line<T>>::empty());
    assert(pretty_lines(ls.drop_last()) =~= Seq::<char>::empty());
    assert(pretty_lines(ls) =~= pretty_line(l));
}

fn fill_str(f: Fill) -> (r: &'static str)
    ensures
        r@ == fill_text(f),
{
    match f {
        Fill::Void => "   ",
        Fill::Line => "│  ",
        Fill::Fork => "┝━ ",
        Fill::Turn => "┕━ ",
    }
}

fn level_column_str(l: Level) -> (r: &'static str)
    ensures
        r@ == level_column(l),
{
    match l {
        Level::Trace => "TRACE   ",
        Level::Debug => "DEBUG   ",
        Level::Info => "INFO    ",
        Level::Warn => "WARN    ",
        Level::Error => "ERROR   ",
    }
}

fn push_indent(out: &mut String, indent: &Vec<Fill>)
    ensures
        final(out)@ == old(out)@ + indent_text(indent@),
{
    let ghost start = out@;
    let mut i: usize = 0;
    proof {
        assert(indent@.subrange(0, 0) =~= Seq::<Fill>::empty());
        assert(start + indent_text(indent@.subrange(0, 0)) =~= start);
    }
    while i < indent.len()
        invariant
            i <= indent@.len(),
            out@ == start + indent_text(indent@.subrange(0, i as int)),
        decreases indent@.len() - i,
    {
        out.append(fill_str(indent[i]));
        proof {
            assert(indent@.subrange(0, i + 1).drop_last() =~= indent@.subrange(0, i as int));
        }
        i = i + 1;
        assert(out@ =~= start + indent_text(indent@.subrange(0, i as int)));
    }
    assert(indent@.subrange(0, i as int) =~= indent@);
}

fn push_values(out: &mut String, values: &Vec<(&'static str, String)>)
    ensures
        final(out)@ == old(out)@ + values_text(values@),
{
    let ghost start = out@;
    let mut i: usize = 0;
    proof {
        assert(values@.subrange(0, 0) =~= Seq::<(&'static str, String)>::empty());
        assert(start + values_text(values@.subrange(0, 0)) =~= start);
    }
    while i < values.len()
        invariant
            i <= values@.len(),
            out@ == start + values_text(values@.subrange(0, i as int)),
        decreases values@.len() - i,
    {
        out.append(" | ");
        out.append(values[i].0);
        out.append(": ");
        out.append(values[i].1.as_str());
        proof {
            assert(values@.subrange(0, i + 1).drop_last() =~= values@.subrange(0, i as int));
        }
        i = i + 1;
        assert(out@ =~= start + values_text(values@.subrange(0, i as int)));
    }
    assert(values@.subrange(0, i as int) =~= values@);
}

fn push_prefix(
    out: &mut String,
    uuid: &str,
    ts: &crate::timestamp::Timestamp,
    level: Level,
    indent: &Vec<Fill>,
)
    ensures
        final(out)@ == old(out)@ + line_prefix(uuid@, *ts, level, indent@),
{
    let ghost start = out@;
    out.append(uuid);
    out.append(" ");
    ts.push_rfc3339(out);
    out.append(" ");
    out.append(level_column_str(level));
    out.append(" ");
    push_indent(out, indent);
    assert(out@ =~= start + line_prefix(uuid@, *ts, level, indent@));
}

fn push_event_pretty<T: EventTagSet>(
    out: &mut String,
    e: &MyEvent<T>,
    uuid: &str,
    indent: &Vec<Fill>,
)
    ensures
        final(out)@ == old(out)@ + event_pretty(*e, uuid@, indent@),
{
    let ghost start = out@;
    push_prefix(out, uuid, &e.timestamp, e.level, indent);
    match e.tag {
        Some(t) => out.append(t.emoji()),
        None => out.append(e.level.emoji()),
    }
    out.append(" [");
    match e.tag {
        Some(t) => out.append(t.pretty()),
        None => out.append(e.level.fallback_tag()),
    }
    out.append("]: ");
    out.append(e.message.as_str());
    push_values(out, &e.values);
    out.append("\n");
    assert(out@ =~= start + event_pretty(*e, uuid@, indent@));
}

fn push_span_pretty<T>(
    out: &mut String,
    s: &MyProcessedSpan<T>,
    uuid: &str,
    indent: &Vec<Fill>,
    root: u64,
)
    ensures
        final(out)@ == old(out)@ + span_pretty(
            crate::tree::processed_head(*s),
            s.total_duration,
            s.nested_duration,
            uuid@,
            indent@,
            root,
        ),
{
    let ghost start = out@;
    push_prefix(out, uuid, &s.timestamp, Level::Trace, indent);
    out.append(s.name);
    out.append(" [ ");
    push_duration(out, s.total_duration);
    out.append(" | ");
    if s.nested_duration > 0 {
        let direct = if s.total_duration >= s.nested_duration {
            s.total_duration - s.nested_duration
        } else {
            0
        };
        push_percent(out, direct, root);
        out.append("% / ");
    }
    push_percent(out, s.total_duration, root);
    out.append("% ]\n");
    assert(out@ =~= start + span_pretty(
        crate::tree::processed_head(*s),
        s.total_duration,
        s.nested_duration,
        uuid@,
        indent@,
        root,
    ));
}

fn settle_fill(f: Fill) -> (r: Fill)
    ensures
        r == settle_cell(f),
{
    match f {
        Fill::Turn => Fill::Void,
        Fill::Fork => Fill::Line,
        _ => f,
    }
}

fn pretty_rec<T: EventTagSet>(
    tree: &MyProcessedLogs<T>,
    indent: &mut Vec<Fill>,
    uuid: &str,
    root: Option<u64>,
    out: &mut String,
    Ghost(path): Ghost<Seq<SpanHead>>,
)
    ensures
        final(out)@ == old(out)@ + pretty_lines(
            flatten(
                processed_view(*tree),
                LineCtx { path, uuid: uuid@, indent: old(indent)@, root },
            ),
        ),
        final(indent)@.len() == old(indent)@.len(),
        forall|j: int|
            0 <= j < old(indent)@.len() - 1 ==> #[trigger] final(indent)@[j] == old(indent)@[j],
    decreases tree,
{
    let ghost start = out@;
    let ghost ind0 = indent@;
    let ghost ctx = LineCtx { path, uuid: uuid@, indent: ind0, root };
    match tree {
        MyProcessedLogs::Event(e) => {
            push_event_pretty(out, e, uuid, indent);
            proof {
                let ls = flatten(processed_view(*tree), ctx);
                lemma_pretty_lines_single(Line { node: processed_view(*tree), ctx });
                assert(out@ =~= start + pretty_lines(ls));
            }
        },
        MyProcessedLogs::Span(s) => {
            let u: &str = match &s.uuid {
                Some(x) => x.as_str(),
                None => uuid,
            };
            let r: u64 = match root {
                Some(r) => r,
                None => s.total_duration,
            };
            let ghost head = crate::tree::processed_head(*s);
            let ghost chm = processed_seq_view(s.processed_buf@);
            let ghost cctx = children_ctx(head, s.total_duration, ctx);
            push_span_pretty(out, s, u, indent, r);
            let ghost after_header = out@;
            proof {
                lemma_processed_seq_view(s.processed_buf@);
                let hl = seq![Line { node: processed_view(*tree), ctx }];
                lemma_pretty_lines_single(Line { node: processed_view(*tree), ctx });
                assert(after_header == start + pretty_lines(hl));
            }
            let n = s.processed_buf.len();
            if n > 0 {
                if indent.len() > 0 {
                    let last = indent.pop().unwrap();
                    indent.push(settle_fill(last));
                }
                assert(indent@ =~= settle(ind0));
                indent.push(Fill::Fork);
                let mut i: usize = 0;
                while i < n
                    invariant
                        n == s.processed_buf@.len(),
                        n == chm.len(),
                        i <= n,
                        forall|j: int| 0 <= j < n ==> #[trigger] chm[j] == processed_view(s.processed_buf@[j]),
                        forall|j: int| 0 <= j < n ==> decreases_to!(tree => #[trigger] s.processed_buf@[j]),
                        cctx.indent == settle(ind0),
                        cctx.uuid == u@,
                        cctx.root == Some(r),
                        cctx.path == path.push(head),
                        indent@.len() == cctx.indent.len() + 1,
                        indent@.subrange(0, cctx.indent.len() as int) == cctx.indent,
                        out@ == after_header + pretty_lines(flatten_children(chm, cctx, i as nat)),
                    decreases n - i,
                {
                    indent.pop();
                    let cell = if i == n - 1 { Fill::Turn } else { Fill::Fork };
                    indent.push(cell);
                    let ghost before = out@;
                    let ghost ind_before = indent@;
                    proof {
                        assert(indent@ =~= cctx.indent.push(branch_cell(i as int, n as int)));
                    }
                    pretty_rec(&s.processed_buf[i], indent, u, Some(r), out, Ghost(path.push(head)));
                    proof {
                        let child_ctx = with_cell(cctx, branch_cell(i as int, n as int));
                        assert(LineCtx { path: path.push(head), uuid: u@, indent: ind_before, root: Some(r) } == child_ctx);
                        lemma_pretty_lines_append(
                            flatten_children(chm, cctx, i as nat),
                            flatten(chm[i as int], child_ctx),
                        );
                        assert(indent@.subrange(0, cctx.indent.len() as int) =~= cctx.indent);
                    }
                    i = i + 1;
                }
                indent.pop();
            }
            proof {
                let ls = flatten(processed_view(*tree), ctx);
                let hl = seq![Line { node: processed_view(*tree), ctx }];
                assert(ls == hl + flatten_children(chm, cctx, chm.len()));
                lemma_pretty_lines_append(hl, flatten_children(chm, cctx, chm.len()));
                if n == 0 {
                    assert(flatten_children(chm, cctx, 0) =~= Seq::<Line<T>>::empty());
                    assert(out@ =~= after_header);
                }
            }
        },
    }
}

/// Renders a processed tree as an indented pretty tree, one line per event
/// or span.
pub fn format_pretty<T: EventTagSet>(processed_logs: MyProcessedLogs<T>) -> (r: String)
    ensures
        r@ == pretty_text(processed_view(processed_logs)),
{
    let mut out = String::new();
    let mut indent: Vec<Fill> = Vec::new();
    pretty_rec(&processed_logs, &mut indent, EVENT_UUID, None, &mut out, Ghost(Seq::empty()));
    proof {
        assert(indent@.len() == 0);
    }
    out
}

/// What serde_json writes for a string: the text quoted, with the characters
/// that JSON reserves escaped.
pub uninterp spec fn json_string_of(s: Seq<char>) -> Seq<char>;

/// Relies on `serde_json::to_string` on a `str`: the JSON string literal of
/// the text. Serialising a `str` does not fail.
#[verifier::external_body]
fn json_string(s: &str) -> (r: String)
    ensures
        r@ == json_string_of(s@),
{
    serde_json::to_string(s).unwrap_or_default()
}

/// The names of the spans of a path, root first.
pub open spec fn path_names(path: Seq<SpanHead>) -> Seq<Seq<char>> {
    path.map_values(|h: SpanHead| h.name)
}

/// The items of a JSON array of strings, comma-separated.
pub open spec fn json_items(names: Seq<Seq<char>>) -> Seq<char>
    decreases names.len(),
{
    if names.len() == 0 {
        seq![]
    } else if names.len() == 1 {
        json_string_of(names[0])
    } else {
        json_items(names.drop_last()) + ","@ + json_string_of(names.last())
    }
}

/// The `tag` member of an event record.
pub open spec fn tag_json<T: EventTagSet>(e: MyEvent<T>) -> Seq<char> {
    match e.tag {
        Some(t) => json_string_of(t.spec_pretty()),
        None => "null"@,
    }
}

/// The record of an event: identity, time, level, message, tag, and the
/// names of the enclosing spans.
pub open spec fn event_json<T: EventTagSet>(
    e: MyEvent<T>,
    uuid: Seq<char>,
    path: Seq<SpanHead>,
) -> Seq<char> {
    "{\"uuid\":"@ + json_string_of(uuid) + ",\"timestamp\":"@ + json_string_of(
        timestamp_text(e.timestamp),
    ) + ",\"level\":\""@ + level_name(e.level) + "\",\"message\":"@ + json_string_of(e.message@)
        + ",\"log-type\":\"event\",\"tag\":"@ + tag_json(e) + ",\"spans\":["@ + json_items(
        path_names(path),
    ) + "]}\n"@
}

/// The record of a span: identity, time, name and its two durations.
pub open spec fn span_json(h: SpanHead, total: u64, nested: u64, uuid: Seq<char>) -> Seq<char> {
    "{\"uuid\":"@ + json_string_of(uuid) + ",\"timestamp\":"@ + json_string_of(
        timestamp_text(h.timestamp),
    ) + ",\"level\":\"TRACE\",\"message\":"@ + json_string_of(h.name)
        + ",\"log-type\":\"span\",\"nanos-nested\":"@ + decimal(nested as nat)
        + ",\"nanos-total\":"@ + decimal(total as nat) + "}\n"@
}

pub open spec fn json_line<T: EventTagSet>(l: Line<T>) -> Seq<char> {
    match l.node {
        ProcessedModel::Event(e) => event_json(e, l.ctx.uuid, l.ctx.path),
        ProcessedModel::Span(h, total, nested, _) => span_json(
            h,
            total,
            nested,
            span_uuid(h, l.ctx.uuid),
        ),
    }
}

pub open spec fn json_lines<T: EventTagSet>(ls: Seq<Line<T>>) -> Seq<char>
    decreases ls.len(),
{
    if ls.len() == 0 {
        seq![]
    } else {
        json_lines(ls.drop_last()) + json_line(ls.last())
    }
}

/// The JSON rendering of a processed tree.
pub open spec fn json_text<T: EventTagSet>(t: ProcessedModel<T>) -> Seq<char> {
    json_lines(flatten(t, root_ctx()))
}

pub proof fn lemma_json_lines_append<T: EventTagSet>(a: Seq<Line<T>>, b: Seq<Line<T>>)
    ensures
        json_lines(a + b) == json_lines(a) + json_lines(b),
    decreases b.len(),
{
    if b.len() == 0 {
        assert(a + b =~= a);
        assert(json_lines(a) + json_lines(b) =~= json_lines(a));
    } else {
        lemma_json_lines_append(a, b.drop_last());
        assert((a + b).drop_last() =~= a + b.drop_last());
    }
}

pub proof fn lemma_json_lines_single<T: EventTagSet>(l: Line<T>)
    ensures
        json_lines(seq![l]) == json_line(l),
{
    let ls = seq![l];
    assert(ls.drop_last() =~= Seq::<Line<T>>::empty());
    assert(json_lines(ls.drop_last()) =~= Seq::<char>::empty());
    assert(json_lines(ls) =~= json_line(l));
}

pub open spec fn str_views(v: Seq<&'static str>) -> Seq<Seq<char>> {
    v.map_values(|s: &'static str| s@)
}

fn push_json_items(out: &mut String, names: &Vec<&'static str>)
    ensures
        final(out)@ == old(out)@ + json_items(str_views(names@)),
{
    let ghost start = out@;
    let mut i: usize = 0;
    proof {
        assert(str_views(names@).subrange(0, 0) =~= Seq::<Seq<char>>::empty());
        assert(start + json_items(str_views(names@).subrange(0, 0)) =~= start);
    }
    while i < names.len()
        invariant
            i <= names@.len(),
            out@ == start + json_items(str_views(names@).subrange(0, i as int)),
        decreases names@.len() - i,
    {
        let ghost sub = str_views(names@).subrange(0, i + 1);
        proof {
            assert(sub.drop_last() =~= str_views(names@).subrange(0, i as int));
            assert(sub.last() == names@[i as int]@);
        }
        if i > 0 {
            out.append(",");
        } else {
            assert(sub =~= seq![names@[0]@]);
        }
        let q = json_string(names[i]);
        out.append(q.as_str());
        i = i + 1;
        assert(out@ =~= start + json_items(str_views(names@).subrange(0, i as int)));
    }
    assert(str_views(names@).subrange(0, i as int) =~= str_views(names@));
}

fn push_json_string(out: &mut String, s: &str)
    ensures
        final(out)@ == old(out)@ + json_string_of(s@),
{
    let q = json_string(s);
    out.append(q.as_str());
}

fn push_event_json<T: EventTagSet>(
    out: &mut String,
    e: &MyEvent<T>,
    uuid: &str,
    spans: &Vec<&'static str>,
    Ghost(path): Ghost<Seq<SpanHead>>,
)
    requires
        str_views(spans@) == path_names(path),
    ensures
        final(out)@ == old(out)@ + event_json(*e, uuid@, path),
{
    let ghost start = out@;
    out.append("{\"uuid\":");
    push_json_string(out, uuid);
    out.append(",\"timestamp\":");
    let mut ts = String::new();
    e.timestamp.push_rfc3339(&mut ts);
    push_json_string(out, ts.as_str());
    out.append(",\"level\":\"");
    out.append(e.level.name());
    out.append("\",\"message\":");
    push_json_string(out, e.message.as_str());
    out.append(",\"log-type\":\"event\",\"tag\":");
    match e.tag {
        Some(t) => push_json_string(out, t.pretty()),
        None => out.append("null"),
    }
    out.append(",\"spans\":[");
    push_json_items(out, spans);
    out.append("]}\n");
    assert(out@ =~= start + event_json(*e, uuid@, path));
}

fn push_span_json<T>(out: &mut String, s: &MyProcessedSpan<T>, uuid: &str)
    ensures
        final(out)@ == old(out)@ + span_json(
            crate::tree::processed_head(*s),
            s.total_duration,
            s.nested_duration,
            uuid@,
        ),
{
    let ghost start = out@;
    out.append("{\"uuid\":");
    push_json_string(out, uuid);
    out.append(",\"timestamp\":");
    let mut ts = String::new();
    s.timestamp.push_rfc3339(&mut ts);
    push_json_string(out, ts.as_str());
    out.append(",\"level\":\"TRACE\",\"message\":");
    push_json_string(out, s.name);
    out.append(",\"log-type\":\"span\",\"nanos-nested\":");
    push_decimal(out, s.nested_duration as u128);
    out.append(",\"nanos-total\":");
    push_decimal(out, s.total_duration as u128);
    out.append("}\n");
    assert(out@ =~= start + span_json(
        crate::tree::processed_head(*s),
        s.total_duration,
        s.nested_duration,
        uuid@,
    ));
}

fn json_rec<T: EventTagSet>(
    tree: &MyProcessedLogs<T>,
    spans: &mut Vec<&'static str>,
    uuid: &str,
    out: &mut String,
    Ghost(ctx): Ghost<LineCtx>,
)
    requires
        str_views(old(spans)@) == path_names(ctx.path),
        ctx.uuid == uuid@,
    ensures
        final(out)@ == old(out)@ + json_lines(flatten(processed_view(*tree), ctx)),
        final(spans)@ == old(spans)@,
    decreases tree,
{
    let ghost start = out@;
    let ghost spans0 = spans@;
    match tree {
        MyProcessedLogs::Event(e) => {
            push_event_json(out, e, uuid, spans, Ghost(ctx.path));
            proof {
                lemma_json_lines_single(Line { node: processed_view(*tree), ctx });
            }
        },
        MyProcessedLogs::Span(s) => {
            let u: &str = match &s.uuid {
                Some(x) => x.as_str(),
                None => uuid,
            };
            let ghost head = crate::tree::processed_head(*s);
            let ghost chm = processed_seq_view(s.processed_buf@);
            let ghost cctx = children_ctx(head, s.total_duration, ctx);
            push_span_json(out, s, u);
            let ghost after_header = out@;
            proof {
                lemma_processed_seq_view(s.processed_buf@);
                lemma_json_lines_single(Line { node: processed_view(*tree), ctx });
            }
            spans.push(s.name);
            proof {
                let a = str_views(spans@);
                let b = path_names(cctx.path);
                assert(spans@ == spans0.push(s.name));
                assert(str_views(spans0).len() == spans0.len());
                assert(path_names(ctx.path).len() == ctx.path.len());
                assert(cctx.path == ctx.path.push(head));
                assert(a.len() == b.len());
                assert forall|j: int| 0 <= j < a.len() implies a[j] == b[j] by {
                    if j < spans0.len() {
                        assert(str_views(spans0)[j] == path_names(ctx.path)[j]);
                    }
                }
                assert(a =~= b);
            }
            let n = s.processed_buf.len();
            let mut i: usize = 0;
            while i < n
                invariant
                    n == s.processed_buf@.len(),
                    n == chm.len(),
                    i <= n,
                    forall|j: int| 0 <= j < n ==> #[trigger] chm[j] == processed_view(s.processed_buf@[j]),
                    forall|j: int| 0 <= j < n ==> decreases_to!(tree => #[trigger] s.processed_buf@[j]),
                    cctx.uuid == u@,
                    spans@ == spans0.push(s.name),
                    str_views(spans@) == path_names(cctx.path),
                    out@ == after_header + json_lines(flatten_children(chm, cctx, i as nat)),
                decreases n - i,
            {
                let ghost child_ctx = with_cell(cctx, branch_cell(i as int, n as int));
                json_rec(&s.processed_buf[i], spans, u, out, Ghost(child_ctx));
                proof {
                    lemma_json_lines_append(
                        flatten_children(chm, cctx, i as nat),
                        flatten(chm[i as int], child_ctx),
                    );
                }
                i = i + 1;
            }
            spans.pop();
            proof {
                assert(spans@ =~= spans0);
                let hl = seq![Line { node: processed_view(*tree), ctx }];
                lemma_json_lines_append(hl, flatten_children(chm, cctx, chm.len()));
                if n == 0 {
                    assert(flatten_children(chm, cctx, 0) =~= Seq::<Line<T>>::empty());
                    assert(out@ =~= after_header);
                }
            }
        },
    }
}

/// Renders a processed tree as JSON records, one per line: each span before
/// its children.
pub fn format_json<T: EventTagSet>(processed_logs: MyProcessedLogs<T>) -> (r: String)
    ensures
        r@ == json_text(processed_view(processed_logs)),
{
    let mut out = String::new();
    let mut spans: Vec<&'static str> = Vec::new();
    proof {
        assert(str_views(spans@) =~= path_names(root_ctx().path));
        reveal_strlit("00000000-0000-0000-0000-000000000000");
    }
    json_rec(&processed_logs, &mut spans, EVENT_UUID, &mut out, Ghost(root_ctx()));
    out
}

/// The spans of a scope, root first, joined by ` > `.
pub open spec fn scope_text(names: Seq<Seq<char>>) -> Seq<char>
    decreases names.len(),
{
    if names.len() == 0 {
        seq![]
    } else if names.len() == 1 {
        names[0]
    } else {
        scope_text(names.drop_last()) + " > "@ + names.last()
    }
}

/// The line written at once to standard error for an alarm:
/// `[ALARM] <timestamp> <level> [<scope>] <emoji> [<tag>]: <message> | key: value ...`
pub open spec fn alarm_text<T: EventTagSet>(e: MyEvent<T>, scope: Seq<Seq<char>>) -> Seq<char> {
    "[ALARM] "@ + timestamp_text(e.timestamp) + " "@ + level_column(e.level) + " ["@ + scope_text(
        scope,
    ) + "] "@ + event_emoji(e) + " ["@ + event_tag_text(e) + "]: "@ + e.message@ + values_text(
        e.values@,
    ) + "\n"@
}

/// The alarm line of an event fired in the scope `scope` (span names, root
/// first).
pub fn alarm_line<T: EventTagSet>(e: &MyEvent<T>, scope: &Vec<&'static str>) -> (r: String)
    ensures
        r@ == alarm_text(*e, str_views(scope@)),
{
    let mut out = String::new();
    out.append("[ALARM] ");
    e.timestamp.push_rfc3339(&mut out);
    out.append(" ");
    out.append(level_column_str(e.level));
    out.append(" [");
    let ghost names = str_views(scope@);
    let ghost start = out@;
    let mut i: usize = 0;
    proof {
        assert(names.subrange(0, 0) =~= Seq::<Seq<char>>::empty());
        assert(start + scope_text(names.subrange(0, 0)) =~= start);
    }
    while i < scope.len()
        invariant
            names == str_views(scope@),
            i <= scope@.len(),
            out@ == start + scope_text(names.subrange(0, i as int)),
        decreases scope@.len() - i,
    {
        let ghost sub = names.subrange(0, i + 1);
        proof {
            assert(sub.drop_last() =~= names.subrange(0, i as int));
            assert(sub.last() == scope@[i as int]@);
        }
        if i > 0 {
            out.append(" > ");
        } else {
            assert(sub =~= seq![scope@[0]@]);
        }
        out.append(scope[i]);
        i = i + 1;
        assert(out@ =~= start + scope_text(names.subrange(0, i as int)));
    }
    assert(names.subrange(0, i as int) =~= names);
    out.append("] ");
    match e.tag {
        Some(t) => out.append(t.emoji()),
        None => out.append(e.level.emoji()),
    }
    out.append(" [");
    match e.tag {
        Some(t) => out.append(t.pretty()),
        None => out.append(e.level.fallback_tag()),
    }
    out.append("]: ");
    out.append(e.message.as_str());
    push_values(&mut out, &e.values);
    out.append("\n");
    assert(out@ =~= alarm_text(*e, names));
    out
}

/// Where a finished tree is written: a root span's own sink, standard error
/// for an event outside any span (and for a span that names no sink of its
/// own).
pub open spec fn tree_sink<T>(m: LogsModel<T>) -> SinkModel {
    match m {
        LogsModel::Event(_) => SinkModel::Stderr,
        LogsModel::Span(h, _, _) => match h.out {
            SinkModel::Parent => SinkModel::Stderr,
            o => o,
        },
    }
}

/// The text of a processed tree in a format.
pub open spec fn rendered<T: EventTagSet>(fmt: LogFmt, t: ProcessedModel<T>) -> Seq<char> {
    match fmt {
        LogFmt::Json => json_text(t),
        LogFmt::Pretty => pretty_text(t),
    }
}

fn sink_copy(s: &Sink) -> (r: Sink)
    ensures
        sink_view(r) == sink_view(*s),
{
    match s {
        Sink::Stdout => Sink::Stdout,
        Sink::Stderr => Sink::Stderr,
        Sink::File(p) => Sink::File(p.clone()),
        Sink::Parent => Sink::Parent,
    }
}

impl<T: EventTagSet> MyLogs<T> {
    /// Processes a finished tree and renders it: the sink it goes to and
    /// the text written there.
    pub fn render(self, fmt: LogFmt) -> (r: (Sink, String))
        ensures
            sink_view(r.0) == tree_sink(logs_view(self)),
            r.1@ == rendered(fmt, process_model(logs_view(self))),
    {
        let sink = match &self {
            MyLogs::Event(_) => Sink::Stderr,
            MyLogs::SpanBuf(b, _) => match &b.out {
                Sink::Parent => Sink::Stderr,
                o => sink_copy(o),
            },
        };
        let processed = self.process();
        let text = match fmt {
            LogFmt::Json => format_json(processed),
            LogFmt::Pretty => format_pretty(processed),
        };
        (sink, text)
    }
}

/// The identity that a line under the spans `path` inherits: that of the
/// nearest span that has one, or the identity of events outside any span.
pub open spec fn nearest_uuid(path: Seq<SpanHead>) -> Seq<char>
    decreases path.len(),
{
    if path.len() == 0 {
        EVENT_UUID@
    } else {
        match path.last().uuid {
            Some(u) => u,
            None => nearest_uuid(path.drop_last()),
        }
    }
}

/// An indentation as the tree algorithm draws it: vertical lines or blanks
/// for the ancestors, then a fork or a turn before the node itself.
pub open spec fn valid_indent(ind: Seq<Fill>) -> bool {
    ind.len() == 0 || ((forall|j: int|
        0 <= j < ind.len() - 1 ==> #[trigger] ind[j] == Fill::Void || ind[j] == Fill::Line) && (
    ind.last() == Fill::Fork || ind.last() == Fill::Turn))
}

pub open spec fn is_prefix<A>(a: Seq<A>, b: Seq<A>) -> bool {
    a.len() <= b.len() && b.subrange(0, a.len() as int) == a
}

/// A well-placed line: it inherits the identity of its nearest span, its
/// indentation is drawn as the algorithm draws it, one cell per enclosing
/// span.
pub open spec fn ctx_ok(c: LineCtx) -> bool {
    &&& c.uuid == nearest_uuid(c.path)
    &&& valid_indent(c.indent)
    &&& c.indent.len() == c.path.len()
}

/// The context shared by the children of a span, before their own cell.
pub open spec fn base_ok(c: LineCtx) -> bool {
    &&& c.uuid == nearest_uuid(c.path)
    &&& forall|j: int|
        0 <= j < c.indent.len() ==> #[trigger] c.indent[j] == Fill::Void || c.indent[j]
            == Fill::Line
    &&& c.indent.len() + 1 == c.path.len()
}

proof fn lemma_children_ctx_ok(h: SpanHead, total: u64, c: LineCtx)
    requires
        ctx_ok(c),
    ensures
        base_ok(children_ctx(h, total, c)),
        is_prefix(c.path, children_ctx(h, total, c).path),
{
    let cc = children_ctx(h, total, c);
    assert(cc.path.drop_last() =~= c.path);
    assert(cc.path.subrange(0, c.path.len() as int) =~= c.path);
}

proof fn lemma_with_cell_ok(c: LineCtx, f: Fill)
    requires
        base_ok(c),
        f == Fill::Fork || f == Fill::Turn,
    ensures
        ctx_ok(with_cell(c, f)),
        with_cell(c, f).path == c.path,
{
    let w = with_cell(c, f);
    assert forall|j: int| 0 <= j < w.indent.len() - 1 implies #[trigger] w.indent[j]
        == Fill::Void || w.indent[j] == Fill::Line by {
        assert(w.indent[j] == c.indent[j]);
    }
}

proof fn lemma_prefix_trans<A>(a: Seq<A>, b: Seq<A>, c: Seq<A>)
    requires
        is_prefix(a, b),
        is_prefix(b, c),
    ensures
        is_prefix(a, c),
{
    assert(c.subrange(0, a.len() as int) =~= b.subrange(0, a.len() as int));
}

proof fn lemma_flatten_ok<T>(t: ProcessedModel<T>, c: LineCtx)
    requires
        ctx_ok(c),
    ensures
        forall|i: int|
            0 <= i < flatten(t, c).len() ==> ctx_ok(#[trigger] flatten(t, c)[i].ctx) && is_prefix(
                c.path,
                flatten(t, c)[i].ctx.path,
            ),
    decreases t, 0nat,
{
    assert(is_prefix(c.path, c.path)) by {
        assert(c.path.subrange(0, c.path.len() as int) =~= c.path);
    }
    match t {
        ProcessedModel::Event(_) => {},
        ProcessedModel::Span(h, total, _, ch) => {
            let cc = children_ctx(h, total, c);
            lemma_children_ctx_ok(h, total, c);
            lemma_flatten_children_ok(ch, cc, ch.len());
            let head = seq![Line { node: t, ctx: c }];
            let rest = flatten_children(ch, cc, ch.len());
            assert forall|i: int| 0 <= i < flatten(t, c).len() implies ctx_ok(
                #[trigger] flatten(t, c)[i].ctx,
            ) && is_prefix(c.path, flatten(t, c)[i].ctx.path) by {
                if i > 0 {
                    assert(flatten(t, c)[i] == rest[i - 1]);
                    lemma_prefix_trans(c.path, cc.path, rest[i - 1].ctx.path);
                }
            }
        },
    }
}

proof fn lemma_flatten_children_ok<T>(ch: Seq<ProcessedModel<T>>, c: LineCtx, k: nat)
    requires
        base_ok(c),
    ensures
        forall|i: int|
            0 <= i < flatten_children(ch, c, k).len() ==> ctx_ok(
                #[trigger] flatten_children(ch, c, k)[i].ctx,
            ) && is_prefix(c.path, flatten_children(ch, c, k)[i].ctx.path),
    decreases ch, k,
{
    if k == 0 || k > ch.len() {
    } else {
        let f = branch_cell(k - 1, ch.len() as int);
        let w = with_cell(c, f);
        lemma_with_cell_ok(c, f);
        lemma_flatten_children_ok(ch, c, (k - 1) as nat);
        lemma_flatten_ok(ch[k - 1], w);
        let a = flatten_children(ch, c, (k - 1) as nat);
        let b = flatten(ch[k - 1], w);
        assert forall|i: int| 0 <= i < flatten_children(ch, c, k).len() implies ctx_ok(
            #[trigger] flatten_children(ch, c, k)[i].ctx,
        ) && is_prefix(c.path, flatten_children(ch, c, k)[i].ctx.path) by {
            if i >= a.len() {
                assert(flatten_children(ch, c, k)[i] == b[i - a.len()]);
            } else {
                assert(flatten_children(ch, c, k)[i] == a[i]);
            }
        }
    }
}

/// Every line of a rendered tree is well placed: an event line carries the
/// identity of its nearest enclosing span that has one (the root's, which
/// a root always has, or the all-zero identity outside any span); its
/// indentation has one cell per enclosing span, vertical lines or blanks
/// for the ancestors and a fork or a turn last; and the spans listed for it
/// (the `spans` of a JSON record) are those that enclose it, root first.
pub proof fn lemma_rendered_lines_well_placed<T>(t: ProcessedModel<T>)
    ensures
        forall|i: int|
            0 <= i < flatten(t, root_ctx()).len() ==> {
                let c = #[trigger] flatten(t, root_ctx())[i].ctx;
                &&& c.uuid == nearest_uuid(c.path)
                &&& valid_indent(c.indent)
                &&& c.indent.len() == c.path.len()
            },
        t matches ProcessedModel::Span(h, total, _, ch) ==> forall|i: int|
            0 <= i < flatten_children(ch, children_ctx(h, total, root_ctx()), ch.len()).len() ==> (
            #[trigger] flatten_children(ch, children_ctx(h, total, root_ctx()), ch.len())[i]).ctx.path[0]
                == h,
{
    lemma_flatten_ok(t, root_ctx());
    match t {
        ProcessedModel::Span(h, total, _, ch) => {
            let cc = children_ctx(h, total, root_ctx());
            lemma_children_ctx_ok(h, total, root_ctx());
            assert(ctx_ok(root_ctx()));
            lemma_flatten_children_ok(ch, cc, ch.len());
            assert forall|i: int|
                0 <= i < flatten_children(ch, cc, ch.len()).len() implies (
            #[trigger] flatten_children(ch, cc, ch.len())[i]).ctx.path[0] == h by {
                let p = flatten_children(ch, cc, ch.len())[i].ctx.path;
                assert(p.subrange(0, cc.path.len() as int) == cc.path);
                assert(cc.path[0] == h);
                assert(p.subrange(0, cc.path.len() as int)[0] == p[0]);
            }
        },
        _ => {},
    }
}

} // verus!
