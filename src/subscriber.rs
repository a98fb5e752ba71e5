//! The ingestion layer: decoding of event fields, and the registry of open
//! spans that buffers events and closed child spans until a root closes.

use std::collections::HashMap;
use vstd::prelude::*;

use crate::formatter::{alarm_line, alarm_text, str_views, tree_sink};
use crate::tag::{EventTagSet, Level};
use crate::text::{decimal, push_decimal, str_eq};
use crate::timestamp::Timestamp;
use crate::timings::Timings;
use crate::tree::{process_model, ProcessedModel, buf_head, logs_seq_view, logs_view, LogsModel, MyEvent, MyLogs, MySpanBuf, SpanHead, Sink, SinkModel, sink_view};

verus! {

broadcast use vstd::std_specs::hash::group_hash_axioms;

/// The default tag set: administration, requests, security, filters and
/// performance, each with its severities.
#[derive(Clone, Copy, Debug, PartialEq, Eq)]
pub enum MyEventTag {
    AdminError,
    AdminWarn,
    AdminInfo,
    RequestError,
    RequestWarn,
    RequestInfo,
    RequestTrace,
    SecurityCritical,
    SecurityInfo,
    SecurityAccess,
    FilterError,
    FilterWarn,
    FilterInfo,
    FilterTrace,
    PerfTrace,
}

impl EventTagSet for MyEventTag {
    open spec fn spec_pretty(self) -> Seq<char> {
        match self {
            MyEventTag::AdminError => "admin.error"@,
            MyEventTag::AdminWarn => "admin.warn"@,
            MyEventTag::AdminInfo => "admin.info"@,
            MyEventTag::RequestError => "request.error"@,
            MyEventTag::RequestWarn => "request.warn"@,
            MyEventTag::RequestInfo => "request.info"@,
            MyEventTag::RequestTrace => "request.trace"@,
            MyEventTag::SecurityCritical => "security.critical"@,
            MyEventTag::SecurityInfo => "security.info"@,
            MyEventTag::SecurityAccess => "security.access"@,
            MyEventTag::FilterError => "filter.error"@,
            MyEventTag::FilterWarn => "filter.warn"@,
            MyEventTag::FilterInfo => "filter.info"@,
            MyEventTag::FilterTrace => "filter.trace"@,
            MyEventTag::PerfTrace => "perf.trace"@,
        }
    }

    open spec fn spec_emoji(self) -> Seq<char> {
        match self {
            MyEventTag::AdminError => "🚨"@,
            MyEventTag::AdminWarn => "🚧"@,
            MyEventTag::AdminInfo => "💬"@,
            MyEventTag::RequestError => "🚨"@,
            MyEventTag::RequestWarn => "🚧"@,
            MyEventTag::RequestInfo => "💬"@,
            MyEventTag::RequestTrace => "📍"@,
            MyEventTag::SecurityCritical => "🔐"@,
            MyEventTag::SecurityInfo => "💬"@,
            MyEventTag::SecurityAccess => "🔓"@,
            MyEventTag::FilterError => "🚨"@,
            MyEventTag::FilterWarn => "🚧"@,
            MyEventTag::FilterInfo => "💬"@,
            MyEventTag::FilterTrace => "📍"@,
            MyEventTag::PerfTrace => "📍"@,
        }
    }

    open spec fn spec_id(self) -> u64 {
        match self {
            MyEventTag::AdminError => 0,
            MyEventTag::AdminWarn => 1,
            MyEventTag::AdminInfo => 2,
            MyEventTag::RequestError => 3,
            MyEventTag::RequestWarn => 4,
            MyEventTag::RequestInfo => 5,
            MyEventTag::RequestTrace => 6,
            MyEventTag::SecurityCritical => 7,
            MyEventTag::SecurityInfo => 8,
            MyEventTag::SecurityAccess => 9,
            MyEventTag::FilterError => 10,
            MyEventTag::FilterWarn => 11,
            MyEventTag::FilterInfo => 12,
            MyEventTag::FilterTrace => 13,
            MyEventTag::PerfTrace => 14,
        }
    }

    open spec fn spec_from_id(id: u64) -> Option<Self> {
        match id {
            0 => Some(MyEventTag::AdminError),
            1 => Some(MyEventTag::AdminWarn),
            2 => Some(MyEventTag::AdminInfo),
            3 => Some(MyEventTag::RequestError),
            4 => Some(MyEventTag::RequestWarn),
            5 => Some(MyEventTag::RequestInfo),
            6 => Some(MyEventTag::RequestTrace),
            7 => Some(MyEventTag::SecurityCritical),
            8 => Some(MyEventTag::SecurityInfo),
            9 => Some(MyEventTag::SecurityAccess),
            10 => Some(MyEventTag::FilterError),
            11 => Some(MyEventTag::FilterWarn),
            12 => Some(MyEventTag::FilterInfo),
            13 => Some(MyEventTag::FilterTrace),
            14 => Some(MyEventTag::PerfTrace),
            _ => None,
        }
    }

    proof fn lemma_id_round_trip(self, id: u64) {
    }

    fn pretty(self) -> (r: &'static str) {
        match self {
            MyEventTag::AdminError => "admin.error",
            MyEventTag::AdminWarn => "admin.warn",
            MyEventTag::AdminInfo => "admin.info",
            MyEventTag::RequestError => "request.error",
            MyEventTag::RequestWarn => "request.warn",
            MyEventTag::RequestInfo => "request.info",
            MyEventTag::RequestTrace => "request.trace",
            MyEventTag::SecurityCritical => "security.critical",
            MyEventTag::SecurityInfo => "security.info",
            MyEventTag::SecurityAccess => "security.access",
            MyEventTag::FilterError => "filter.error",
            MyEventTag::FilterWarn => "filter.warn",
            MyEventTag::FilterInfo => "filter.info",
            MyEventTag::FilterTrace => "filter.trace",
            MyEventTag::PerfTrace => "perf.trace",
        }
    }

    fn emoji(self) -> (r: &'static str) {
        match self {
            MyEventTag::AdminError => "🚨",
            MyEventTag::AdminWarn => "🚧",
            MyEventTag::AdminInfo => "💬",
            MyEventTag::RequestError => "🚨",
            MyEventTag::RequestWarn => "🚧",
            MyEventTag::RequestInfo => "💬",
            MyEventTag::RequestTrace => "📍",
            MyEventTag::SecurityCritical => "🔐",
            MyEventTag::SecurityInfo => "💬",
            MyEventTag::SecurityAccess => "🔓",
            MyEventTag::FilterError => "🚨",
            MyEventTag::FilterWarn => "🚧",
            MyEventTag::FilterInfo => "💬",
            MyEventTag::FilterTrace => "📍",
            MyEventTag::PerfTrace => "📍",
        }
    }

    fn tag_id(self) -> (r: u64) {
        match self {
            MyEventTag::AdminError => 0,
            MyEventTag::AdminWarn => 1,
            MyEventTag::AdminInfo => 2,
            MyEventTag::RequestError => 3,
            MyEventTag::RequestWarn => 4,
            MyEventTag::RequestInfo => 5,
            MyEventTag::RequestTrace => 6,
            MyEventTag::SecurityCritical => 7,
            MyEventTag::SecurityInfo => 8,
            MyEventTag::SecurityAccess => 9,
            MyEventTag::FilterError => 10,
            MyEventTag::FilterWarn => 11,
            MyEventTag::FilterInfo => 12,
            MyEventTag::FilterTrace => 13,
            MyEventTag::PerfTrace => 14,
        }
    }

    fn from_tag_id(id: u64) -> (r: Option<Self>) {
        match id {
            0 => Some(MyEventTag::AdminError),
            1 => Some(MyEventTag::AdminWarn),
            2 => Some(MyEventTag::AdminInfo),
            3 => Some(MyEventTag::RequestError),
            4 => Some(MyEventTag::RequestWarn),
            5 => Some(MyEventTag::RequestInfo),
            6 => Some(MyEventTag::RequestTrace),
            7 => Some(MyEventTag::SecurityCritical),
            8 => Some(MyEventTag::SecurityInfo),
            9 => Some(MyEventTag::SecurityAccess),
            10 => Some(MyEventTag::FilterError),
            11 => Some(MyEventTag::FilterWarn),
            12 => Some(MyEventTag::FilterInfo),
            13 => Some(MyEventTag::FilterTrace),
            14 => Some(MyEventTag::PerfTrace),
            _ => None,
        }
    }
}

impl From<MyEventTag> for u64 {
    fn from(tag: MyEventTag) -> (r: u64) {
        tag.tag_id()
    }
}

impl vstd::std_specs::convert::FromSpecImpl<MyEventTag> for u64 {
    open spec fn obeys_from_spec() -> bool {
        true
    }

    open spec fn from_spec(tag: MyEventTag) -> u64 {
        tag.spec_id()
    }
}

impl TryFrom<u64> for MyEventTag {
    type Error = ();

    fn try_from(value: u64) -> (r: Result<Self, ()>) {
        match Self::from_tag_id(value) {
            Some(t) => Ok(t),
            None => Err(()),
        }
    }
}

impl vstd::std_specs::convert::TryFromSpecImpl<u64> for MyEventTag {
    open spec fn obeys_try_from_spec() -> bool {
        true
    }

    open spec fn try_from_spec(value: u64) -> Result<Self, ()> {
        match Self::spec_from_id(value) {
            Some(t) => Ok(t),
            None => Err(()),
        }
    }
}

/// The value of one recorded field.
#[derive(Debug, PartialEq, Eq)]
pub enum FieldValue {
    U64(u64),
    Bool(bool),
    /// Any other value, already written with its `Debug` format.
    Text(String),
}

/// The text under which a field value is kept.
pub open spec fn field_text(v: FieldValue) -> Seq<char> {
    match v {
        FieldValue::U64(n) => decimal(n as nat),
        FieldValue::Bool(b) => if b { "true"@ } else { "false"@ },
        FieldValue::Text(s) => s@,
    }
}

fn field_string(v: FieldValue) -> (r: String)
    ensures
        r@ == field_text(v),
{
    match v {
        FieldValue::U64(n) => {
            let mut s = String::new();
            push_decimal(&mut s, n as u128);
            s
        },
        FieldValue::Bool(b) => if b {
            String::from_str("true")
        } else {
            String::from_str("false")
        },
        FieldValue::Text(s) => s,
    }
}

/// An `event_tag` field whose number stands for no tag.
#[derive(Clone, Copy, Debug, PartialEq, Eq)]
pub struct InvalidEventTag(pub u64);

/// The fields of an event, gathered one by one as the façade visits them.
pub struct EventFields<T> {
    pub message: String,
    pub tag: Option<T>,
    pub alarm: bool,
    pub values: Vec<(&'static str, String)>,
}

impl<T: EventTagSet> EventFields<T> {
    /// No field recorded yet.
    pub fn new() -> (r: Self)
        ensures
            r.message@ == Seq::<char>::empty(),
            r.tag is None,
            !r.alarm,
            r.values@ == Seq::<(&'static str, String)>::empty(),
    {
        EventFields { message: String::new(), tag: None, alarm: false, values: Vec::new() }
    }

    /// Records one field. `message` becomes the message, whatever its type;
    /// a number under `event_tag` becomes the tag; a boolean under `alarm`
    /// raises or lowers the alarm; any other field is kept, as text, after
    /// those recorded before it. A number under `event_tag` that stands for
    /// no tag is refused and nothing changes.
    pub fn record(&mut self, name: &'static str, value: FieldValue) -> (r: Result<(), InvalidEventTag>)
        ensures
            name@ == "message"@ ==> {
                &&& r is Ok
                &&& final(self).message@ == field_text(value)
                &&& final(self).tag == old(self).tag
                &&& final(self).alarm == old(self).alarm
                &&& final(self).values@ == old(self).values@
            },
            name@ == "event_tag"@ && value is U64 ==> match T::spec_from_id(value->U64_0) {
                Some(t) => {
                    &&& r is Ok
                    &&& final(self).tag == Some(t)
                    &&& final(self).message@ == old(self).message@
                    &&& final(self).alarm == old(self).alarm
                    &&& final(self).values@ == old(self).values@
                },
                None => {
                    &&& r == Err::<(), InvalidEventTag>(InvalidEventTag(value->U64_0))
                    &&& final(self).tag == old(self).tag
                    &&& final(self).message@ == old(self).message@
                    &&& final(self).alarm == old(self).alarm
                    &&& final(self).values@ == old(self).values@
                },
            },
            name@ == "alarm"@ && value is Bool ==> {
                &&& r is Ok
                &&& final(self).alarm == value->Bool_0
                &&& final(self).message@ == old(self).message@
                &&& final(self).tag == old(self).tag
                &&& final(self).values@ == old(self).values@
            },
            name@ != "message"@ && !(name@ == "event_tag"@ && value is U64) && !(name@
                == "alarm"@ && value is Bool) ==> {
                &&& r is Ok
                &&& final(self).values@.len() == old(self).values@.len() + 1
                &&& final(self).values@.drop_last() == old(self).values@
                &&& final(self).values@.last().0 == name
                &&& final(self).values@.last().1@ == field_text(value)
                &&& final(self).message@ == old(self).message@
                &&& final(self).tag == old(self).tag
                &&& final(self).alarm == old(self).alarm
            },
    {
        proof {
            reveal_strlit("message");
            reveal_strlit("event_tag");
            reveal_strlit("alarm");
            assert("message"@.len() != "event_tag"@.len());
            assert("message"@.len() != "alarm"@.len());
        }
        if str_eq(name, "message") {
            self.message = field_string(value);
            return Ok(());
        }
        let is_tag = str_eq(name, "event_tag");
        let is_alarm = str_eq(name, "alarm");
        match value {
            FieldValue::U64(n) if is_tag => {
                match T::from_tag_id(n) {
                    Some(t) => {
                        self.tag = Some(t);
                        Ok(())
                    },
                    None => Err(InvalidEventTag(n)),
                }
            },
            FieldValue::Bool(b) if is_alarm => {
                self.alarm = b;
                Ok(())
            },
            other => {
                let text = field_string(other);
                self.values.push((name, text));
                assert(self.values@.drop_last() =~= old(self).values@);
                Ok(())
            },
        }
    }

    /// The event that these fields make, at a level and an instant.
    pub fn into_event(self, level: Level, timestamp: Timestamp) -> (r: MyEvent<T>)
        ensures
            r.timestamp == timestamp,
            r.level == level,
            r.message == self.message,
            r.tag == self.tag,
            r.values == self.values,
    {
        MyEvent { timestamp, message: self.message, level, tag: self.tag, values: self.values }
    }
}

/// Relies on `uuid::Uuid::new_v4`, written through its `Display` impl: a
/// random identity in the hyphenated form of 36 characters.
#[verifier::external_body]
fn fresh_uuid() -> (r: String)
    ensures
        r@.len() == 36,
{
    uuid::Uuid::new_v4().to_string()
}

/// The identity a span is opened with: the one it was given, else a fresh
/// one for a root, else none (it inherits its ancestors').
pub fn span_uuid_or_fresh(given: Option<String>, is_root: bool) -> (r: Option<String>)
    ensures
        given is Some ==> r == given,
        given is None && is_root ==> r is Some && r->0@.len() == 36,
        given is None && !is_root ==> r is None,
{
    match given {
        Some(u) => Some(u),
        None => if is_root {
            Some(fresh_uuid())
        } else {
            None
        },
    }
}

/// The sink that an `output` field selects: a span with a parent writes
/// into it; a root writes to standard out for `stdout`, to standard error
/// for `stderr` or without the field, and to the file of that path
/// otherwise.
pub open spec fn output_sink(output: Option<Seq<char>>, is_root: bool) -> SinkModel {
    if !is_root {
        SinkModel::Parent
    } else {
        match output {
            None => SinkModel::Stderr,
            Some(o) => if o == "stdout"@ {
                SinkModel::Stdout
            } else if o == "stderr"@ {
                SinkModel::Stderr
            } else {
                SinkModel::File(o)
            },
        }
    }
}

/// The sink of a span opened with the `output` field `output`.
pub fn sink_for(output: Option<String>, is_root: bool) -> (r: Sink)
    ensures
        sink_view(r) == output_sink(crate::tree::opt_view(output), is_root),
{
    if !is_root {
        return Sink::Parent;
    }
    match output {
        None => Sink::Stderr,
        Some(o) => if str_eq(o.as_str(), "stdout") {
            Sink::Stdout
        } else if str_eq(o.as_str(), "stderr") {
            Sink::Stderr
        } else {
            Sink::File(o)
        },
    }
}

/// A span while it is open: its buffer, its timer, and its parent.
pub struct OpenSpan<T> {
    pub buf: MySpanBuf<T>,
    pub timer: Timings,
    pub parent: Option<u64>,
}

/// The model of an open span.
pub struct OpenModel<T> {
    pub head: SpanHead,
    pub children: Seq<LogsModel<T>>,
    pub busy: u64,
    pub parent: Option<u64>,
}

pub open spec fn open_view<T>(o: OpenSpan<T>) -> OpenModel<T> {
    OpenModel {
        head: buf_head(o.buf),
        children: logs_seq_view(o.buf.buf@),
        busy: o.timer.spec_busy(),
        parent: o.parent,
    }
}

/// The registry after a span is opened with no children and no busy time.
pub open spec fn opened<T>(
    m: Map<u64, OpenModel<T>>,
    id: u64,
    head: SpanHead,
    parent: Option<u64>,
) -> Map<u64, OpenModel<T>> {
    m.insert(id, OpenModel { head, children: seq![], busy: 0, parent })
}

/// The registry after `c` is appended to the children of span `id`.
pub open spec fn appended<T>(m: Map<u64, OpenModel<T>>, id: u64, c: LogsModel<T>) -> Map<
    u64,
    OpenModel<T>,
> {
    m.insert(id, OpenModel { children: m[id].children.push(c), ..m[id] })
}

/// The tree that an open span becomes when it closes.
pub open spec fn closed_tree<T>(o: OpenModel<T>) -> LogsModel<T> {
    LogsModel::Span(o.head, o.busy, o.children)
}

/// The registry after an event inside `span`, and what is sent on: an event
/// outside any span goes on alone; one inside a span joins its children.
pub open spec fn event_step<T>(m: Map<u64, OpenModel<T>>, span: Option<u64>, e: MyEvent<T>) -> (
    Map<u64, OpenModel<T>>,
    Option<LogsModel<T>>,
) {
    match span {
        None => (m, Some(LogsModel::Event(e))),
        Some(s) => (appended(m, s, LogsModel::Event(e)), None),
    }
}

/// The registry after span `id` closes, and what is sent on: a span with a
/// parent joins the parent's children; a root goes on with its tree.
pub open spec fn close_step<T>(m: Map<u64, OpenModel<T>>, id: u64) -> (
    Map<u64, OpenModel<T>>,
    Option<LogsModel<T>>,
) {
    let o = m[id];
    match o.parent {
        None => (m.remove(id), Some(closed_tree(o))),
        Some(p) => (appended(m.remove(id), p, closed_tree(o)), None),
    }
}

pub open spec fn opt_logs_view<T>(o: Option<MyLogs<T>>) -> Option<LogsModel<T>> {
    match o {
        Some(t) => Some(logs_view(t)),
        None => None,
    }
}

/// The open spans, by the façade's span id.
pub struct Collector<T> {
    spans: HashMap<u64, OpenSpan<T>>,
}

impl<T> Collector<T> {
    pub closed spec fn view(&self) -> Map<u64, OpenModel<T>> {
        self.spans@.map_values(|o: OpenSpan<T>| open_view(o))
    }

    /// No span open.
    pub fn new() -> (r: Self)
        ensures
            r@ == Map::<u64, OpenModel<T>>::empty(),
    {
        let r = Collector { spans: HashMap::new() };
        assert(r@ =~= Map::<u64, OpenModel<T>>::empty());
        r
    }

    /// Whether span `id` is open.
    pub fn is_open(&self, id: u64) -> (r: bool)
        ensures
            r == self@.contains_key(id),
    {
        self.spans.contains_key(&id)
    }

    /// The parent of an open span.
    pub fn parent_of(&self, id: u64) -> (r: Option<u64>)
        requires
            self@.contains_key(id),
        ensures
            r == self@[id].parent,
    {
        match self.spans.get(&id) {
            Some(o) => o.parent,
            None => None,
        }
    }

    /// Opens span `id` under `parent` (none for a root), named `name`, with
    /// the `uuid` and `output` fields it was given. A root without a `uuid`
    /// gets a fresh one; `output` is heeded on roots only.
    pub fn new_span(
        &mut self,
        id: u64,
        parent: Option<u64>,
        name: &'static str,
        uuid: Option<String>,
        output: Option<String>,
    )
        requires
            !old(self)@.contains_key(id),
            parent matches Some(p) ==> old(self)@.contains_key(p),
        ensures
            final(self)@.contains_key(id),
            final(self)@ == opened(old(self)@, id, final(self)@[id].head, parent),
            final(self)@[id].head.name == name@,
            uuid is Some ==> final(self)@[id].head.uuid == crate::tree::opt_view(uuid),
            uuid is None && parent is None ==> final(self)@[id].head.uuid is Some
                && final(self)@[id].head.uuid->0.len() == 36,
            uuid is None && parent is Some ==> final(self)@[id].head.uuid is None,
            final(self)@[id].head.out == output_sink(crate::tree::opt_view(output), parent is None),
    {
        let is_root = parent.is_none();
        let uuid = span_uuid_or_fresh(uuid, is_root);
        let out = sink_for(output, is_root);
        let buf = MySpanBuf { timestamp: Timestamp::now(), name, buf: Vec::new(), uuid, out };
        let o = OpenSpan { buf, timer: Timings::new(), parent };
        let ghost h = buf_head(o.buf);
        self.spans.insert(id, o);
        proof {
            assert(logs_seq_view(o.buf.buf@) =~= Seq::<LogsModel<T>>::empty());
            assert(self@ =~= opened(old(self)@, id, h, parent));
        }
    }

    /// The span enters its scope.
    pub fn enter(&mut self, id: u64)
        requires
            old(self)@.contains_key(id),
        ensures
            final(self)@ == old(self)@,
    {
        let mut o = self.spans.remove(&id).unwrap();
        o.timer.now_busy();
        self.spans.insert(id, o);
        assert(self@ =~= old(self)@);
    }

    /// The span leaves its scope: the time since it entered is busy time.
    pub fn exit(&mut self, id: u64)
        requires
            old(self)@.contains_key(id),
        ensures
            final(self)@.contains_key(id),
            final(self)@[id].busy >= old(self)@[id].busy,
            final(self)@ == old(self)@.insert(
                id,
                OpenModel { busy: final(self)@[id].busy, ..old(self)@[id] },
            ),
    {
        let mut o = self.spans.remove(&id).unwrap();
        o.timer.now_idle();
        let ghost busy = o.timer.spec_busy();
        self.spans.insert(id, o);
        assert(self@ =~= old(self)@.insert(id, OpenModel { busy, ..old(self)@[id] }));
    }

    fn append(&mut self, id: u64, c: MyLogs<T>)
        requires
            old(self)@.contains_key(id),
        ensures
            final(self)@ == appended(old(self)@, id, logs_view(c)),
    {
        let mut o = self.spans.remove(&id).unwrap();
        let ghost before = o.buf.buf@;
        o.buf.buf.push(c);
        proof {
            assert(o.buf.buf@.drop_last() =~= before);
        }
        self.spans.insert(id, o);
        assert(self@ =~= appended(old(self)@, id, logs_view(c)));
    }

    /// An event fired inside `span` (none when outside every span). Inside
    /// a span it joins that span's children, after those before it; outside
    /// every span it is handed back, to be sent on alone.
    pub fn event(&mut self, span: Option<u64>, e: MyEvent<T>) -> (r: Option<MyLogs<T>>)
        requires
            span matches Some(s) ==> old(self)@.contains_key(s),
        ensures
            (final(self)@, opt_logs_view(r)) == event_step(old(self)@, span, e),
    {
        match span {
            None => Some(MyLogs::Event(e)),
            Some(s) => {
                self.append(s, MyLogs::Event(e));
                None
            },
        }
    }

    /// Span `id` closes. Its tree, timed by its busy time, joins its
    /// parent's children, or is handed back when it is a root.
    pub fn close(&mut self, id: u64) -> (r: Option<MyLogs<T>>)
        requires
            old(self)@.contains_key(id),
            old(self)@[id].parent matches Some(p) ==> p != id && old(self)@.contains_key(p),
        ensures
            (final(self)@, opt_logs_view(r)) == close_step(old(self)@, id),
    {
        let o = self.spans.remove(&id).unwrap();
        let ghost om = open_view(o);
        let ghost removed = self@;
        assert(removed =~= old(self)@.remove(id));
        let OpenSpan { buf, timer, parent } = o;
        let tree = MyLogs::SpanBuf(buf, timer.duration());
        assert(logs_view(tree) == closed_tree(om));
        match parent {
            None => Some(tree),
            Some(p) => {
                self.append(p, tree);
                None
            },
        }
    }
}

/// The event that recorded fields make, at a level and an instant.
pub open spec fn fields_event<T>(f: EventFields<T>, level: Level, timestamp: Timestamp) -> MyEvent<T> {
    MyEvent { timestamp, message: f.message, level, tag: f.tag, values: f.values }
}

impl<T: EventTagSet> Collector<T> {
    /// An event arrives with its recorded fields, inside `span` (none when
    /// outside every span), whose scope is `scope` (span names, root first).
    /// Gives the line to write at once to standard error when the event
    /// raised an alarm, and the tree to send on when it is outside every
    /// span; inside a span the event joins that span's children.
    pub fn on_event(
        &mut self,
        span: Option<u64>,
        fields: EventFields<T>,
        level: Level,
        timestamp: Timestamp,
        scope: &Vec<&'static str>,
    ) -> (r: (Option<String>, Option<MyLogs<T>>))
        requires
            span matches Some(s) ==> old(self)@.contains_key(s),
        ensures
            r.0 is Some <==> fields.alarm,
            r.0 matches Some(line) ==> line@ == alarm_text(
                fields_event(fields, level, timestamp),
                str_views(scope@),
            ),
            (final(self)@, opt_logs_view(r.1)) == event_step(
                old(self)@,
                span,
                fields_event(fields, level, timestamp),
            ),
    {
        let alarm = fields.alarm;
        let e = fields.into_event(level, timestamp);
        let line = if alarm {
            Some(alarm_line(&e, scope))
        } else {
            None
        };
        let sent = self.event(span, e);
        (line, sent)
    }
}

/// An event fired inside span `s` is attached to `s` alone: it becomes the
/// last child of `s`, nothing is sent on, and every other open span is left
/// as it was. Once `s` closes and is processed, the event stands among the
/// processed children of `s` at that same position.
pub proof fn lemma_event_joins_innermost_span<T>(m: Map<u64, OpenModel<T>>, s: u64, e: MyEvent<T>)
    requires
        m.contains_key(s),
    ensures
        event_step(m, Some(s), e).1 is None,
        event_step(m, Some(s), e).0.dom() == m.dom(),
        event_step(m, Some(s), e).0[s].children == m[s].children.push(LogsModel::Event(e)),
        event_step(m, Some(s), e).0[s].head == m[s].head,
        event_step(m, Some(s), e).0[s].parent == m[s].parent,
        forall|o: u64|
            #![trigger event_step(m, Some(s), e).0[o]]
            m.contains_key(o) && o != s ==> event_step(m, Some(s), e).0[o] == m[o],
        ({
            let after = event_step(m, Some(s), e).0[s];
            process_model(closed_tree(after)) matches ProcessedModel::Span(_, _, _, pch) && pch[(
            after.children.len() - 1) as int] == ProcessedModel::<T>::Event(e)
        }),
{
    let after = event_step(m, Some(s), e).0;
    assert(after.dom() =~= m.dom());
    crate::tree::lemma_process_keeps_children(
        after[s].head,
        after[s].busy,
        after[s].children,
    );
}

/// Children keep the order in which they arrived: after an event `e1`, then
/// the closing of a child span `c`, then an event `e2`, the children of `s`
/// are its earlier children followed by `e1`, the tree of `c`, and `e2`.
pub proof fn lemma_children_keep_arrival_order<T>(
    m: Map<u64, OpenModel<T>>,
    s: u64,
    c: u64,
    e1: MyEvent<T>,
    e2: MyEvent<T>,
)
    requires
        m.contains_key(s),
        m.contains_key(c),
        c != s,
        m[c].parent == Some(s),
    ensures
        ({
            let m1 = event_step(m, Some(s), e1).0;
            let m2 = close_step(m1, c).0;
            let m3 = event_step(m2, Some(s), e2).0;
            m3[s].children == m[s].children + seq![
                LogsModel::Event(e1),
                closed_tree(m[c]),
                LogsModel::Event(e2),
            ]
        }),
{
    let m1 = event_step(m, Some(s), e1).0;
    assert(m1[c] == m[c]);
    let m2 = close_step(m1, c).0;
    let m3 = event_step(m2, Some(s), e2).0;
    assert(m3[s].children =~= m[s].children + seq![
        LogsModel::Event(e1),
        closed_tree(m[c]),
        LogsModel::Event(e2),
    ]);
}

/// A span that never left its scope has no busy time: opened, then given
/// any events, it closes with a total duration of exactly zero.
pub proof fn lemma_unentered_span_has_zero_total<T>(
    m: Map<u64, OpenModel<T>>,
    id: u64,
    head: SpanHead,
    parent: Option<u64>,
    events: Seq<MyEvent<T>>,
)
    ensures
        ({
            let opened_map = opened(m, id, head, parent);
            let filled = events.fold_left(
                opened_map,
                |acc: Map<u64, OpenModel<T>>, e: MyEvent<T>| event_step(acc, Some(id), e).0,
            );
            process_model(closed_tree(filled[id])) matches ProcessedModel::Span(_, total, _, _)
                && total == 0
        }),
    decreases events.len(),
{
    lemma_events_keep_busy(opened(m, id, head, parent), id, events);
}

proof fn lemma_events_keep_busy<T>(m: Map<u64, OpenModel<T>>, id: u64, events: Seq<MyEvent<T>>)
    requires
        m.contains_key(id),
    ensures
        ({
            let filled = events.fold_left(
                m,
                |acc: Map<u64, OpenModel<T>>, e: MyEvent<T>| event_step(acc, Some(id), e).0,
            );
            filled.contains_key(id) && filled[id].busy == m[id].busy
        }),
    decreases events.len(),
{
    if events.len() > 0 {
        lemma_events_keep_busy(m, id, events.drop_last());
    }
}

/// A root span writes where its `output` field says: standard out for
/// `stdout`, the file of that path for any other value, standard error
/// without the field; its tree goes to that sink once it closes.
pub proof fn lemma_root_sink_routing<T>(
    m: Map<u64, OpenModel<T>>,
    id: u64,
    head: SpanHead,
    output: Option<Seq<char>>,
)
    requires
        head.out == output_sink(output, true),
    ensures
        close_step(opened(m, id, head, None), id).1 matches Some(tree) && tree_sink(tree)
            == output_sink(output, true),
        output == Some("stdout"@) ==> output_sink(output, true) == SinkModel::Stdout,
        output is None ==> output_sink(output, true) == SinkModel::Stderr,
        output is Some && output->0 != "stdout"@ && output->0 != "stderr"@ ==> output_sink(
            output,
            true,
        ) == SinkModel::File(output->0),
{
}

} // verus!
