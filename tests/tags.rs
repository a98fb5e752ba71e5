use std::convert::TryFrom;
use tracing_tree::kanidm::KanidmEventTag;
use tracing_tree::subscriber::MyEventTag;
use tracing_tree::tag::{EventTagSet, Level};

#[test]
fn kanidm_tags_round_trip_through_numbers() {
    for n in 0u64..15 {
        let t = KanidmEventTag::from_tag_id(n).expect("a tag for each number below 15");
        assert_eq!(t.tag_id(), n);
        assert_eq!(u64::from(t), n);
        assert_eq!(KanidmEventTag::try_from(n), Ok(t));
    }
    assert_eq!(KanidmEventTag::from_tag_id(15), None);
    assert_eq!(KanidmEventTag::try_from(99), Err(()));
}

#[test]
fn kanidm_tag_texts() {
    assert_eq!(KanidmEventTag::SecurityCritical.tag_id(), 7);
    assert_eq!(KanidmEventTag::SecurityCritical.pretty(), "security.critical");
    assert_eq!(KanidmEventTag::SecurityCritical.emoji(), "🔐");
    assert_eq!(KanidmEventTag::SecurityAccess.emoji(), "🔓");
    assert_eq!(KanidmEventTag::AdminError.pretty(), "admin.error");
    assert_eq!(KanidmEventTag::AdminError.emoji(), "🚨");
    assert_eq!(KanidmEventTag::RequestWarn.pretty(), "request.error");
    assert_eq!(KanidmEventTag::FilterWarn.emoji(), "🚧");
    assert_eq!(KanidmEventTag::FilterInfo.emoji(), "💬");
    assert_eq!(KanidmEventTag::PerfTrace.pretty(), "perf.trace");
    assert_eq!(KanidmEventTag::PerfTrace.emoji(), "📍");
}

#[test]
fn default_tags_round_trip_through_numbers() {
    for n in 0u64..15 {
        let t = MyEventTag::from_tag_id(n).expect("a tag for each number below 15");
        assert_eq!(u64::from(t), n);
        assert_eq!(MyEventTag::try_from(n), Ok(t));
    }
    assert_eq!(MyEventTag::try_from(15), Err(()));
    assert_eq!(MyEventTag::RequestWarn.pretty(), "request.warn");
    assert_eq!(MyEventTag::FilterTrace.pretty(), "filter.trace");
}

#[test]
fn level_texts() {
    assert_eq!(Level::Error.name(), "ERROR");
    assert_eq!(Level::Warn.emoji(), "🚧");
    assert_eq!(Level::Info.fallback_tag(), "_.info");
    assert_eq!(Level::Debug.emoji(), "🐛");
    assert_eq!(Level::Trace.fallback_tag(), "_.trace");
}
