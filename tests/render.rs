use tracing_tree::formatter::{alarm_line, format_json, format_pretty, LogFmt};
use tracing_tree::kanidm::KanidmEventTag;
use tracing_tree::tag::Level;
use tracing_tree::timestamp::Timestamp;
use tracing_tree::tree::{MyEvent, MyLogs, MyProcessedLogs, MySpanBuf, Sink};

const EPOCH: Timestamp = Timestamp { secs: 0, nanos: 0 };
const TS: &str = "1970-01-01T00:00:00+00:00";
const ZERO: &str = "00000000-0000-0000-0000-000000000000";

fn event(level: Level, message: &str) -> MyEvent<KanidmEventTag> {
    MyEvent { timestamp: EPOCH, message: message.to_string(), level, tag: None, values: vec![] }
}

fn span(
    name: &'static str,
    uuid: Option<&str>,
    out: Sink,
    busy: u64,
    children: Vec<MyLogs<KanidmEventTag>>,
) -> MyLogs<KanidmEventTag> {
    MyLogs::SpanBuf(
        MySpanBuf { timestamp: EPOCH, name, buf: children, uuid: uuid.map(String::from), out },
        busy,
    )
}

#[test]
fn single_event_without_span_pretty() {
    let text = format_pretty(MyLogs::Event(event(Level::Error, "boom")).process());
    assert_eq!(text, format!("{} {} ERROR    🚨 [_.error]: boom\n", ZERO, TS));
}

#[test]
fn single_event_without_span_json() {
    let text = format_json(MyLogs::Event(event(Level::Error, "boom")).process());
    assert_eq!(
        text,
        format!(
            "{{\"uuid\":\"{}\",\"timestamp\":\"{}\",\"level\":\"ERROR\",\"message\":\"boom\",\"log-type\":\"event\",\"tag\":null,\"spans\":[]}}\n",
            ZERO, TS
        )
    );
}

#[test]
fn event_without_span_goes_to_standard_error() {
    let (sink, text) = MyLogs::Event(event(Level::Warn, "careful")).render(LogFmt::Pretty);
    assert_eq!(sink, Sink::Stderr);
    assert!(text.ends_with("WARN     🚧 [_.warn]: careful\n"));
}

#[test]
fn one_span_two_events_pretty() {
    let tree = span(
        "r",
        Some("u-1"),
        Sink::Stdout,
        2_000,
        vec![MyLogs::Event(event(Level::Info, "a")), MyLogs::Event(event(Level::Error, "b"))],
    );
    let (sink, text) = tree.render(LogFmt::Pretty);
    assert_eq!(sink, Sink::Stdout);
    let lines: Vec<&str> = text.lines().collect();
    assert_eq!(lines.len(), 3);
    assert_eq!(lines[0], format!("u-1 {} TRACE    r [ 2.00µs | 100.000% ]", TS));
    assert_eq!(lines[1], format!("u-1 {} INFO     ┝━ 💬 [_.info]: a", TS));
    assert_eq!(lines[2], format!("u-1 {} ERROR    ┕━ 🚨 [_.error]: b", TS));
}

#[test]
fn one_span_two_events_json() {
    let tree = span(
        "r",
        Some("u-1"),
        Sink::Stdout,
        2_000,
        vec![MyLogs::Event(event(Level::Info, "a")), MyLogs::Event(event(Level::Error, "b"))],
    );
    let (sink, text) = tree.render(LogFmt::Json);
    assert_eq!(sink, Sink::Stdout);
    let lines: Vec<&str> = text.lines().collect();
    assert_eq!(lines.len(), 3);
    assert_eq!(
        lines[0],
        format!(
            "{{\"uuid\":\"u-1\",\"timestamp\":\"{}\",\"level\":\"TRACE\",\"message\":\"r\",\"log-type\":\"span\",\"nanos-nested\":0,\"nanos-total\":2000}}",
            TS
        )
    );
    assert_eq!(
        lines[1],
        format!(
            "{{\"uuid\":\"u-1\",\"timestamp\":\"{}\",\"level\":\"INFO\",\"message\":\"a\",\"log-type\":\"event\",\"tag\":null,\"spans\":[\"r\"]}}",
            TS
        )
    );
    assert!(lines[2].contains("\"message\":\"b\""));
    assert!(lines[2].ends_with("\"spans\":[\"r\"]}"));
}

fn nested() -> MyLogs<KanidmEventTag> {
    let inner = span(
        "inner",
        None,
        Sink::Parent,
        10_000_000,
        vec![MyLogs::Event(event(Level::Debug, "deep"))],
    );
    span("outer", Some("abc"), Sink::Stderr, 15_000_000, vec![inner])
}

#[test]
fn nested_spans_resolve_durations() {
    match nested().process() {
        MyProcessedLogs::Span(outer) => {
            assert_eq!(outer.total_duration, 15_000_000);
            assert_eq!(outer.nested_duration, 10_000_000);
            assert_eq!(outer.processed_buf.len(), 1);
            match &outer.processed_buf[0] {
                MyProcessedLogs::Span(inner) => {
                    assert_eq!(inner.total_duration, 10_000_000);
                    assert_eq!(inner.nested_duration, 0);
                },
                MyProcessedLogs::Event(_) => panic!("the child is a span"),
            }
        },
        MyProcessedLogs::Event(_) => panic!("the root is a span"),
    }
}

#[test]
fn nested_spans_pretty_loads_and_inherited_uuid() {
    let text = format_pretty(nested().process());
    let lines: Vec<&str> = text.lines().collect();
    assert_eq!(lines.len(), 3);
    assert_eq!(lines[0], format!("abc {} TRACE    outer [ 15.0ms | 33.333% / 100.000% ]", TS));
    assert_eq!(lines[1], format!("abc {} TRACE    ┕━ inner [ 10.0ms | 66.667% ]", TS));
    assert_eq!(lines[2], format!("abc {} DEBUG       ┕━ 🐛 [_.debug]: deep", TS));
}

#[test]
fn nested_spans_json_paths() {
    let text = format_json(nested().process());
    let lines: Vec<&str> = text.lines().collect();
    assert_eq!(lines.len(), 3);
    assert!(lines[0].contains("\"message\":\"outer\""));
    assert!(lines[0].contains("\"nanos-nested\":10000000,\"nanos-total\":15000000"));
    assert!(lines[1].starts_with("{\"uuid\":\"abc\""));
    assert!(lines[1].contains("\"nanos-nested\":0,\"nanos-total\":10000000"));
    assert!(lines[2].starts_with("{\"uuid\":\"abc\""));
    assert!(lines[2].ends_with("\"spans\":[\"outer\",\"inner\"]}"));
}

#[test]
fn tree_lines_continue_under_open_branches() {
    let a = span("a", None, Sink::Parent, 1, vec![MyLogs::Event(event(Level::Info, "in a"))]);
    let b = MyLogs::Event(event(Level::Info, "after a"));
    let root = span("root", Some("u"), Sink::Stderr, 4, vec![a, b]);
    let text = format_pretty(root.process());
    let lines: Vec<&str> = text.lines().collect();
    assert_eq!(lines.len(), 4);
    assert!(lines[1].contains("TRACE    ┝━ a ["));
    assert!(lines[2].contains("INFO     │  ┕━ 💬 [_.info]: in a"));
    assert!(lines[3].contains("INFO     ┕━ 💬 [_.info]: after a"));
}

#[test]
fn tagged_event_and_values() {
    let mut e = event(Level::Info, "policy trip");
    e.tag = Some(KanidmEventTag::SecurityCritical);
    e.values = vec![("alive", "false".to_string()), ("status", "\"very sad\"".to_string())];
    let pretty = format_pretty(MyLogs::Event(e).process());
    assert!(pretty.ends_with("🔐 [security.critical]: policy trip | alive: false | status: \"very sad\"\n"));
    let mut e = event(Level::Info, "policy trip");
    e.tag = Some(KanidmEventTag::SecurityCritical);
    let json = format_json(MyLogs::Event(e).process());
    assert!(json.contains("\"tag\":\"security.critical\""));
}

#[test]
fn json_strings_are_escaped() {
    let json = format_json(MyLogs::Event(event(Level::Info, "he said \"hi\"\n")).process());
    assert!(json.contains("\"message\":\"he said \\\"hi\\\"\\n\""));
}

#[test]
fn loads_of_children_add_up() {
    let c1 = span("c1", None, Sink::Parent, 3_000, vec![]);
    let c2 = span("c2", None, Sink::Parent, 5_000, vec![]);
    let root = span("root", Some("u"), Sink::Stderr, 10_000, vec![c1, c2]);
    match root.process() {
        MyProcessedLogs::Span(s) => {
            let children: u64 = s
                .processed_buf
                .iter()
                .map(|c| match c {
                    MyProcessedLogs::Span(c) => c.total_duration,
                    MyProcessedLogs::Event(_) => 0,
                })
                .sum();
            let direct = s.total_duration - s.nested_duration;
            let load = |x: u64| 100.0 * x as f64 / s.total_duration as f64;
            assert!((load(direct) + load(children) - load(s.total_duration)).abs() < 1e-9);
        },
        MyProcessedLogs::Event(_) => panic!("the root is a span"),
    }
    let c1 = span("c1", None, Sink::Parent, 3_000, vec![]);
    let c2 = span("c2", None, Sink::Parent, 5_000, vec![]);
    let root = span("root", Some("u"), Sink::Stderr, 10_000, vec![c1, c2]);
    let text = format_pretty(root.process());
    let lines: Vec<&str> = text.lines().collect();
    assert!(lines[0].ends_with("root [ 10.0µs | 20.000% / 100.000% ]"));
    assert!(lines[1].ends_with("c1 [ 3.00µs | 30.000% ]"));
    assert!(lines[2].ends_with("c2 [ 5.00µs | 50.000% ]"));
}

#[test]
fn children_over_their_parent_give_no_negative_load() {
    let c = span("c", None, Sink::Parent, 20, vec![]);
    let root = span("root", Some("u"), Sink::Stderr, 10, vec![c]);
    let text = format_pretty(root.process());
    assert!(text.lines().next().unwrap().ends_with("root [ 10.0ns | 0.000% / 100.000% ]"));
}

#[test]
fn root_without_time_has_undefined_load() {
    let root = span("root", Some("u"), Sink::Stderr, 0, vec![]);
    let text = format_pretty(root.process());
    assert!(text.ends_with("root [ 0.00ns | NaN% ]\n"));
}

#[test]
fn alarm_line_lists_scope_and_values() {
    let mut e = event(Level::Error, "there's been a big mistake");
    e.values = vec![("alive", "false".to_string())];
    let line = alarm_line(&e, &vec!["outer", "inner"]);
    assert_eq!(
        line,
        format!(
            "[ALARM] {} ERROR    [outer > inner] 🚨 [_.error]: there's been a big mistake | alive: false\n",
            TS
        )
    );
}

#[test]
fn file_sink_is_kept_for_the_root() {
    let root = span("root", Some("u"), Sink::File("somefile.log".to_string()), 1, vec![]);
    let (sink, _) = root.render(LogFmt::Json);
    assert_eq!(sink, Sink::File("somefile.log".to_string()));
}

#[test]
fn timestamp_out_of_range_is_marked() {
    let mut e = event(Level::Info, "x");
    e.timestamp = Timestamp { secs: i64::MAX, nanos: 0 };
    let text = format_pretty(MyLogs::Event(e).process());
    assert!(text.contains(" invalid-timestamp "));
}
