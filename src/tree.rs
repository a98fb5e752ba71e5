//! Buffered span trees, their mathematical model, and the pass that resolves
//! each span's total and nested durations.

use vstd::prelude::*;

use crate::tag::Level;
use crate::timestamp::Timestamp;
use crate::timings::saturated;

verus! {

/// One event as it was recorded.
#[derive(Debug)]
pub struct MyEvent<T> {
    pub timestamp: Timestamp,
    pub message: String,
    pub level: Level,
    pub tag: Option<T>,
    /// Every field but `message`, `event_tag` and `alarm`, with its value
    /// as text, in the order in which the fields were recorded.
    pub values: Vec<(&'static str, String)>,
}

/// Where the tree of a root span is written.
#[derive(Debug, PartialEq, Eq)]
pub enum Sink {
    Stdout,
    Stderr,
    File(String),
    /// A span that is not a root: its tree goes into its parent's.
    Parent,
}

/// The model of a sink.
pub enum SinkModel {
    Stdout,
    Stderr,
    File(Seq<char>),
    Parent,
}

pub open spec fn sink_view(s: Sink) -> SinkModel {
    match s {
        Sink::Stdout => SinkModel::Stdout,
        Sink::Stderr => SinkModel::Stderr,
        Sink::File(p) => SinkModel::File(p@),
        Sink::Parent => SinkModel::Parent,
    }
}

/// The children and identity of a span while it is open.
#[derive(Debug)]
pub struct MySpanBuf<T> {
    pub timestamp: Timestamp,
    pub name: &'static str,
    pub buf: Vec<MyLogs<T>>,
    pub uuid: Option<String>,
    pub out: Sink,
}

/// A node of a buffered tree: an event, or a closed span with its busy time
/// in nanoseconds.
#[derive(Debug)]
pub enum MyLogs<T> {
    Event(MyEvent<T>),
    SpanBuf(MySpanBuf<T>, u64),
}

/// A span whose durations are resolved.
#[derive(Debug)]
pub struct MyProcessedSpan<T> {
    pub timestamp: Timestamp,
    pub name: &'static str,
    /// Nanoseconds the span was busy.
    pub total_duration: u64,
    /// The busy time of its direct child spans, summed (held at `u64::MAX`).
    pub nested_duration: u64,
    pub processed_buf: Vec<MyProcessedLogs<T>>,
    pub uuid: Option<String>,
    pub out: Sink,
}

/// A node of a processed tree.
#[derive(Debug)]
pub enum MyProcessedLogs<T> {
    Event(MyEvent<T>),
    Span(MyProcessedSpan<T>),
}

/// What identifies a span, apart from its children and times.
pub struct SpanHead {
    pub timestamp: Timestamp,
    pub name: Seq<char>,
    pub uuid: Option<Seq<char>>,
    pub out: SinkModel,
}

/// The model of a buffered tree.
pub enum LogsModel<T> {
    Event(MyEvent<T>),
    Span(SpanHead, u64, Seq<LogsModel<T>>),
}

/// The model of a processed tree: head, total, nested, children.
pub enum ProcessedModel<T> {
    Event(MyEvent<T>),
    Span(SpanHead, u64, u64, Seq<ProcessedModel<T>>),
}

pub open spec fn opt_view(o: Option<String>) -> Option<Seq<char>> {
    match o {
        Some(s) => Some(s@),
        None => None,
    }
}

pub open spec fn buf_head<T>(b: MySpanBuf<T>) -> SpanHead {
    SpanHead { timestamp: b.timestamp, name: b.name@, uuid: opt_view(b.uuid), out: sink_view(b.out) }
}

pub open spec fn processed_head<T>(s: MyProcessedSpan<T>) -> SpanHead {
    SpanHead { timestamp: s.timestamp, name: s.name@, uuid: opt_view(s.uuid), out: sink_view(s.out) }
}

pub open spec fn logs_view<T>(t: MyLogs<T>) -> LogsModel<T>
    decreases t,
{
    match t {
        MyLogs::Event(e) => LogsModel::Event(e),
        MyLogs::SpanBuf(b, d) => LogsModel::Span(buf_head(b), d, logs_seq_view(b.buf@)),
    }
}

pub open spec fn logs_seq_view<T>(s: Seq<MyLogs<T>>) -> Seq<LogsModel<T>>
    decreases s,
{
    if s.len() == 0 {
        seq![]
    } else {
        logs_seq_view(s.drop_last()).push(logs_view(s.last()))
    }
}

pub open spec fn processed_view<T>(t: MyProcessedLogs<T>) -> ProcessedModel<T>
    decreases t,
{
    match t {
        MyProcessedLogs::Event(e) => ProcessedModel::Event(e),
        MyProcessedLogs::Span(s) => ProcessedModel::Span(
            processed_head(s),
            s.total_duration,
            s.nested_duration,
            processed_seq_view(s.processed_buf@),
        ),
    }
}

pub open spec fn processed_seq_view<T>(s: Seq<MyProcessedLogs<T>>) -> Seq<ProcessedModel<T>>
    decreases s,
{
    if s.len() == 0 {
        seq![]
    } else {
        processed_seq_view(s.drop_last()).push(processed_view(s.last()))
    }
}

/// The busy time of the spans among `s`, summed.
pub open spec fn span_time_sum<T>(s: Seq<LogsModel<T>>) -> nat
    decreases s.len(),
{
    if s.len() == 0 {
        0
    } else {
        span_time_sum(s.drop_last()) + match s.last() {
            LogsModel::Span(_, d, _) => d as nat,
            LogsModel::Event(_) => 0,
        }
    }
}

/// The processing of a buffered tree: each span keeps its busy time as its
/// total and gets the summed busy time of its direct child spans as its
/// nested duration; events contribute nothing; order is kept.
pub open spec fn process_model<T>(m: LogsModel<T>) -> ProcessedModel<T>
    decreases m,
{
    match m {
        LogsModel::Event(e) => ProcessedModel::Event(e),
        LogsModel::Span(h, d, ch) => ProcessedModel::Span(
            h,
            d,
            saturated(span_time_sum(ch) as int, 0),
            process_models(ch),
        ),
    }
}

pub open spec fn process_models<T>(s: Seq<LogsModel<T>>) -> Seq<ProcessedModel<T>>
    decreases s,
{
    if s.len() == 0 {
        seq![]
    } else {
        process_models(s.drop_last()).push(process_model(s.last()))
    }
}

pub proof fn lemma_logs_seq_view<T>(s: Seq<MyLogs<T>>)
    ensures
        logs_seq_view(s).len() == s.len(),
        forall|i: int| 0 <= i < s.len() ==> #[trigger] logs_seq_view(s)[i] == logs_view(s[i]),
    decreases s.len(),
{
    if s.len() > 0 {
        lemma_logs_seq_view(s.drop_last());
    }
}

pub proof fn lemma_processed_seq_view<T>(s: Seq<MyProcessedLogs<T>>)
    ensures
        processed_seq_view(s).len() == s.len(),
        forall|i: int|
            0 <= i < s.len() ==> #[trigger] processed_seq_view(s)[i] == processed_view(s[i]),
    decreases s.len(),
{
    if s.len() > 0 {
        lemma_processed_seq_view(s.drop_last());
    }
}

pub proof fn lemma_process_models<T>(s: Seq<LogsModel<T>>)
    ensures
        process_models(s).len() == s.len(),
        forall|i: int| 0 <= i < s.len() ==> #[trigger] process_models(s)[i] == process_model(s[i]),
    decreases s.len(),
{
    if s.len() > 0 {
        lemma_process_models(s.drop_last());
    }
}

impl<T> MyLogs<T> {
    /// The model of this tree.
    pub open spec fn view(&self) -> LogsModel<T> {
        logs_view(*self)
    }

    /// Resolves the durations of every span of the tree: a span's total is
    /// its busy time and its nested duration the summed busy time of its
    /// direct child spans. Events and the order of children are kept.
    pub fn process(self) -> (r: MyProcessedLogs<T>)
        ensures
            processed_view(r) == process_model(logs_view(self)),
        decreases self,
    {
        match self {
            MyLogs::Event(e) => MyProcessedLogs::Event(e),
            MyLogs::SpanBuf(b, d) => {
                let MySpanBuf { timestamp, name, buf, uuid, out } = b;
                let ghost orig = buf@;
                let ghost n = orig.len();
                let mut buf = buf;
                let mut rev: Vec<MyProcessedLogs<T>> = Vec::new();
                while buf.len() > 0
                    invariant
                        n == orig.len(),
                        buf@.len() <= n,
                        buf@ == orig.subrange(0, buf@.len() as int),
                        rev@.len() + buf@.len() == n,
                        forall|j: int|
                            0 <= j < rev@.len() ==> processed_view(#[trigger] rev@[j])
                                == process_model(logs_view(orig[n - 1 - j])),
                        forall|j: int| 0 <= j < n ==> decreases_to!(self => #[trigger] orig[j]),
                    decreases buf@.len(),
                {
                    let ghost k = buf@.len() - 1;
                    let c = buf.pop().unwrap();
                    assert(c == orig[k]);
                    assert(buf@ =~= orig.subrange(0, k));
                    let p = c.process();
                    rev.push(p);
                }
                let mut out_buf: Vec<MyProcessedLogs<T>> = Vec::new();
                let mut nested: u64 = 0;
                proof {
                    assert(orig.subrange(0, 0) =~= Seq::<MyLogs<T>>::empty());
                }
                while rev.len() > 0
                    invariant
                        n == orig.len(),
                        out_buf@.len() + rev@.len() == n,
                        forall|j: int|
                            0 <= j < rev@.len() ==> processed_view(#[trigger] rev@[j])
                                == process_model(logs_view(orig[n - 1 - j])),
                        forall|j: int|
                            0 <= j < out_buf@.len() ==> processed_view(#[trigger] out_buf@[j])
                                == process_model(logs_view(orig[j])),
                        nested == saturated(
                            span_time_sum(logs_seq_view(orig.subrange(0, out_buf@.len() as int)))
                                as int,
                            0,
                        ),
                    decreases rev@.len(),
                {
                    let ghost i = out_buf@.len() as int;
                    let ghost before = logs_seq_view(orig.subrange(0, i));
                    let p = rev.pop().unwrap();
                    assert(processed_view(p) == process_model(logs_view(orig[i])));
                    proof {
                        assert(orig.subrange(0, i + 1).drop_last() =~= orig.subrange(0, i));
                        let after = logs_seq_view(orig.subrange(0, i + 1));
                        assert(after == before.push(logs_view(orig[i])));
                        assert(after.drop_last() =~= before);
                    }
                    match &p {
                        MyProcessedLogs::Span(s) => {
                            nested = if s.total_duration > u64::MAX - nested {
                                u64::MAX
                            } else {
                                nested + s.total_duration
                            };
                        },
                        MyProcessedLogs::Event(_) => {},
                    }
                    out_buf.push(p);
                }
                let r = MyProcessedLogs::Span(
                    MyProcessedSpan {
                        timestamp,
                        name,
                        total_duration: d,
                        nested_duration: nested,
                        processed_buf: out_buf,
                        uuid,
                        out,
                    },
                );
                proof {
                    assert(orig.subrange(0, n as int) =~= orig);
                    lemma_logs_seq_view(orig);
                    lemma_process_models(logs_seq_view(orig));
                    lemma_processed_seq_view(out_buf@);
                    assert(processed_seq_view(out_buf@) =~= process_models(logs_seq_view(orig)));
                }
                r
            },
        }
    }
}

/// The totals of the spans among processed nodes, summed.
pub open spec fn processed_total_sum<T>(s: Seq<ProcessedModel<T>>) -> nat
    decreases s.len(),
{
    if s.len() == 0 {
        0
    } else {
        processed_total_sum(s.drop_last()) + match s.last() {
            ProcessedModel::Span(_, total, _, _) => total as nat,
            ProcessedModel::Event(_) => 0,
        }
    }
}

proof fn lemma_processed_total_sum<T>(s: Seq<LogsModel<T>>)
    ensures
        processed_total_sum(process_models(s)) == span_time_sum(s),
    decreases s.len(),
{
    if s.len() > 0 {
        lemma_processed_total_sum(s.drop_last());
        let ps = process_models(s);
        assert(ps.drop_last() =~= process_models(s.drop_last()));
        assert(ps.last() == process_model(s.last()));
        match s.last() {
            LogsModel::Span(h, d, ch) => {
                assert(ps.last() == ProcessedModel::Span(
                    h,
                    d,
                    saturated(span_time_sum(ch) as int, 0),
                    process_models(ch),
                ));
            },
            LogsModel::Event(e) => {
                assert(ps.last() == ProcessedModel::<T>::Event(e));
            },
        }
    }
}

/// Loads add up: where the child spans of a span took no more time than the
/// span itself, the span's direct time (its total less its nested time) and
/// the totals of its child spans sum to its total. All loads share the
/// root's total as denominator, so its direct load and its children's total
/// loads sum to its total load.
pub proof fn lemma_loads_add_up<T>(h: SpanHead, busy: u64, children: Seq<LogsModel<T>>)
    requires
        span_time_sum(children) <= busy,
    ensures
        process_model(LogsModel::Span(h, busy, children)) matches ProcessedModel::Span(
            _,
            total,
            nested,
            pch,
        ) && total >= nested && (total - nested) + processed_total_sum(pch) == total,
{
    lemma_processed_total_sum(children);
}

/// Processing keeps every child where it was: the `i`-th child of a span's
/// processed node is the processing of its `i`-th child.
pub proof fn lemma_process_keeps_children<T>(h: SpanHead, busy: u64, children: Seq<LogsModel<T>>)
    ensures
        process_model(LogsModel::Span(h, busy, children)) matches ProcessedModel::Span(
            _,
            _,
            _,
            pch,
        ) && pch.len() == children.len() && forall|i: int|
            0 <= i < children.len() ==> #[trigger] pch[i] == process_model(children[i]),
{
    lemma_process_models(children);
}

} // verus!
