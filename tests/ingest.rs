use tracing_tree::formatter::LogFmt;
use tracing_tree::kanidm::KanidmEventTag;
use tracing_tree::middleware::TreeMiddleware;
use tracing_tree::subscriber::{
    sink_for, span_uuid_or_fresh, Collector, EventFields, FieldValue, InvalidEventTag,
};
use tracing_tree::tag::Level;
use tracing_tree::timestamp::Timestamp;
use tracing_tree::tree::{MyLogs, Sink};

const EPOCH: Timestamp = Timestamp { secs: 0, nanos: 0 };

fn fields(message: &str) -> EventFields<KanidmEventTag> {
    let mut f = EventFields::new();
    f.record("message", FieldValue::Text(message.to_string())).unwrap();
    f
}

#[test]
fn fields_are_sorted_by_name() {
    let mut f: EventFields<KanidmEventTag> = EventFields::new();
    assert_eq!(f.record("message", FieldValue::Text("hello".to_string())), Ok(()));
    assert_eq!(f.record("event_tag", FieldValue::U64(7)), Ok(()));
    assert_eq!(f.record("alarm", FieldValue::Bool(true)), Ok(()));
    assert_eq!(f.record("count", FieldValue::U64(42)), Ok(()));
    assert_eq!(f.record("alive", FieldValue::Bool(false)), Ok(()));
    assert_eq!(f.record("status", FieldValue::Text("\"very sad\"".to_string())), Ok(()));
    assert_eq!(f.message, "hello");
    assert_eq!(f.tag, Some(KanidmEventTag::SecurityCritical));
    assert!(f.alarm);
    assert_eq!(
        f.values,
        vec![
            ("count", "42".to_string()),
            ("alive", "false".to_string()),
            ("status", "\"very sad\"".to_string()),
        ]
    );
}

#[test]
fn unknown_event_tag_is_refused() {
    let mut f: EventFields<KanidmEventTag> = EventFields::new();
    assert_eq!(f.record("event_tag", FieldValue::U64(99)), Err(InvalidEventTag(99)));
    assert_eq!(f.tag, None);
    assert!(f.values.is_empty());
}

#[test]
fn event_tag_and_alarm_of_other_types_are_kept_as_values() {
    let mut f: EventFields<KanidmEventTag> = EventFields::new();
    f.record("event_tag", FieldValue::Text("seven".to_string())).unwrap();
    f.record("alarm", FieldValue::U64(1)).unwrap();
    assert_eq!(f.tag, None);
    assert!(!f.alarm);
    assert_eq!(f.values, vec![("event_tag", "seven".to_string()), ("alarm", "1".to_string())]);
}

#[test]
fn uuid_choice() {
    assert_eq!(span_uuid_or_fresh(Some("abc".to_string()), true), Some("abc".to_string()));
    assert_eq!(span_uuid_or_fresh(None, false), None);
    let fresh = span_uuid_or_fresh(None, true).unwrap();
    assert_eq!(fresh.len(), 36);
    assert_eq!(fresh.matches('-').count(), 4);
    assert_ne!(fresh, span_uuid_or_fresh(None, true).unwrap());
}

#[test]
fn sink_choice() {
    assert_eq!(sink_for(Some("stdout".to_string()), true), Sink::Stdout);
    assert_eq!(sink_for(Some("stderr".to_string()), true), Sink::Stderr);
    assert_eq!(sink_for(None, true), Sink::Stderr);
    assert_eq!(
        sink_for(Some("somefile.log".to_string()), true),
        Sink::File("somefile.log".to_string())
    );
    assert_eq!(sink_for(Some("stdout".to_string()), false), Sink::Parent);
}

#[test]
fn event_outside_any_span_is_sent_alone() {
    let mut c: Collector<KanidmEventTag> = Collector::new();
    let (alarm, sent) = c.on_event(None, fields("boom"), Level::Error, EPOCH, &vec![]);
    assert!(alarm.is_none());
    match sent {
        Some(MyLogs::Event(e)) => {
            assert_eq!(e.message, "boom");
            assert_eq!(e.level, Level::Error);
        },
        _ => panic!("the event is sent on"),
    }
}

#[test]
fn root_span_collects_events_in_order() {
    let mut c: Collector<KanidmEventTag> = Collector::new();
    c.new_span(1, None, "r", None, Some("stdout".to_string()));
    assert!(c.is_open(1));
    assert_eq!(c.parent_of(1), None);
    c.enter(1);
    assert!(c.on_event(Some(1), fields("a"), Level::Info, EPOCH, &vec!["r"]).1.is_none());
    assert!(c.on_event(Some(1), fields("b"), Level::Error, EPOCH, &vec!["r"]).1.is_none());
    c.exit(1);
    let tree = c.close(1).expect("a root is sent on when it closes");
    assert!(!c.is_open(1));
    match &tree {
        MyLogs::SpanBuf(b, _) => {
            assert_eq!(b.name, "r");
            assert_eq!(b.out, Sink::Stdout);
            assert_eq!(b.uuid.as_ref().map(|u| u.len()), Some(36));
            assert_eq!(b.buf.len(), 2);
            match (&b.buf[0], &b.buf[1]) {
                (MyLogs::Event(a), MyLogs::Event(bb)) => {
                    assert_eq!(a.message, "a");
                    assert_eq!(bb.message, "b");
                },
                _ => panic!("two events"),
            }
        },
        MyLogs::Event(_) => panic!("a span"),
    }
    let (sink, text) = tree.render(LogFmt::Pretty);
    assert_eq!(sink, Sink::Stdout);
    let lines: Vec<&str> = text.lines().collect();
    assert_eq!(lines.len(), 3);
    assert!(lines[1].contains("┝━ 💬 [_.info]: a"));
    assert!(lines[2].contains("┕━ 🚨 [_.error]: b"));
}

#[test]
fn child_span_inherits_the_root_uuid() {
    let mut c: Collector<KanidmEventTag> = Collector::new();
    c.new_span(1, None, "root", Some("abc".to_string()), None);
    c.new_span(2, Some(1), "child", None, Some("stdout".to_string()));
    assert_eq!(c.parent_of(2), Some(1));
    c.on_event(Some(2), fields("inside"), Level::Info, EPOCH, &vec!["root", "child"]);
    assert!(c.close(2).is_none());
    let tree = c.close(1).expect("the root is sent on");
    let (sink, text) = tree.render(LogFmt::Json);
    assert_eq!(sink, Sink::Stderr);
    let lines: Vec<&str> = text.lines().collect();
    assert_eq!(lines.len(), 3);
    assert!(lines[2].starts_with("{\"uuid\":\"abc\""));
    assert!(lines[2].ends_with("\"spans\":[\"root\",\"child\"]}"));
}

#[test]
fn unentered_span_has_zero_duration() {
    let mut c: Collector<KanidmEventTag> = Collector::new();
    c.new_span(5, None, "idle", None, None);
    c.on_event(Some(5), fields("x"), Level::Trace, EPOCH, &vec!["idle"]);
    match c.close(5) {
        Some(MyLogs::SpanBuf(_, d)) => assert_eq!(d, 0),
        _ => panic!("a span"),
    }
}

#[test]
fn closed_children_keep_closing_order() {
    let mut c: Collector<KanidmEventTag> = Collector::new();
    c.new_span(1, None, "root", None, None);
    c.new_span(2, Some(1), "first", None, None);
    c.new_span(3, Some(1), "second", None, None);
    c.on_event(Some(1), fields("before"), Level::Info, EPOCH, &vec!["root"]);
    c.close(3);
    c.close(2);
    c.on_event(Some(1), fields("after"), Level::Info, EPOCH, &vec!["root"]);
    match c.close(1) {
        Some(MyLogs::SpanBuf(b, _)) => {
            let names: Vec<String> = b
                .buf
                .iter()
                .map(|n| match n {
                    MyLogs::Event(e) => e.message.clone(),
                    MyLogs::SpanBuf(s, _) => s.name.to_string(),
                })
                .collect();
            assert_eq!(names, vec!["before", "second", "first", "after"]);
        },
        _ => panic!("a span"),
    }
}

#[test]
fn alarm_is_written_at_once_and_still_buffered() {
    let mut c: Collector<KanidmEventTag> = Collector::new();
    c.new_span(1, None, "root", None, None);
    let mut f = fields("fire");
    f.record("alarm", FieldValue::Bool(true)).unwrap();
    let (alarm, sent) = c.on_event(Some(1), f, Level::Error, EPOCH, &vec!["root"]);
    let line = alarm.expect("an alarm line");
    assert!(line.starts_with("[ALARM] "));
    assert!(line.contains("[root] 🚨 [_.error]: fire"));
    assert!(sent.is_none());
    match c.close(1) {
        Some(MyLogs::SpanBuf(b, _)) => assert_eq!(b.buf.len(), 1),
        _ => panic!("a span"),
    }
}

#[test]
fn now_is_after_the_epoch() {
    let t = Timestamp::now();
    assert!(t.secs > 1_600_000_000);
    assert!(t.nanos < 1_000_000_000);
}

#[test]
fn responses_are_classified_by_status() {
    let m = TreeMiddleware::new();
    let r = m.response_log(503);
    assert_eq!(r.tag, KanidmEventTag::RequestError);
    assert_eq!(r.level, Level::Error);
    assert_eq!(r.message, "Internal error -> Response sent");
    let r = m.response_log(404);
    assert_eq!(r.tag, KanidmEventTag::RequestWarn);
    assert_eq!(r.level, Level::Warn);
    let r = m.response_log(200);
    assert_eq!(r.tag, KanidmEventTag::RequestInfo);
    assert_eq!(r.message, "--> Response sent");
    assert_eq!(m.status_text(404, "Not Found"), "404 - Not Found");
}
