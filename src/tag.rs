//! Levels of events and the sets of domain tags that events may carry.

use vstd::prelude::*;

verus! {

/// The severity of an event.
#[derive(Clone, Copy, Debug, PartialEq, Eq)]
pub enum Level {
    Trace,
    Debug,
    Info,
    Warn,
    Error,
}

/// The upper-case name of a level.
pub open spec fn level_name(l: Level) -> Seq<char> {
    match l {
        Level::Trace => "TRACE"@,
        Level::Debug => "DEBUG"@,
        Level::Info => "INFO"@,
        Level::Warn => "WARN"@,
        Level::Error => "ERROR"@,
    }
}

/// The glyph of an untagged event of a level.
pub open spec fn level_emoji(l: Level) -> Seq<char> {
    match l {
        Level::Trace => "📍"@,
        Level::Debug => "🐛"@,
        Level::Info => "💬"@,
        Level::Warn => "🚧"@,
        Level::Error => "🚨"@,
    }
}

/// The tag text shown for an untagged event of a level.
pub open spec fn level_tag(l: Level) -> Seq<char> {
    match l {
        Level::Trace => "_.trace"@,
        Level::Debug => "_.debug"@,
        Level::Info => "_.info"@,
        Level::Warn => "_.warn"@,
        Level::Error => "_.error"@,
    }
}

impl Level {
    /// The upper-case name: `ERROR`, `WARN`, `INFO`, `DEBUG` or `TRACE`.
    pub fn name(self) -> (r: &'static str)
        ensures
            r@ == level_name(self),
    {
        match self {
            Level::Trace => "TRACE",
            Level::Debug => "DEBUG",
            Level::Info => "INFO",
            Level::Warn => "WARN",
            Level::Error => "ERROR",
        }
    }

    /// The glyph of an untagged event of this level.
    pub fn emoji(self) -> (r: &'static str)
        ensures
            r@ == level_emoji(self),
    {
        match self {
            Level::Trace => "📍",
            Level::Debug => "🐛",
            Level::Info => "💬",
            Level::Warn => "🚧",
            Level::Error => "🚨",
        }
    }

    /// The tag text of an untagged event of this level.
    pub fn fallback_tag(self) -> (r: &'static str)
        ensures
            r@ == level_tag(self),
    {
        match self {
            Level::Trace => "_.trace",
            Level::Debug => "_.debug",
            Level::Info => "_.info",
            Level::Warn => "_.warn",
            Level::Error => "_.error",
        }
    }
}

/// A closed set of domain tags that an application attaches to events. A tag
/// crosses the tracing field boundary as a `u64`.
pub trait EventTagSet: Sized + Copy {
    /// The dotted name of the tag, such as `admin.error`.
    spec fn spec_pretty(self) -> Seq<char>;

    /// The glyph shown beside a tagged event.
    spec fn spec_emoji(self) -> Seq<char>;

    /// The number that stands for the tag.
    spec fn spec_id(self) -> u64;

    /// The tag that a number stands for, if any.
    spec fn spec_from_id(id: u64) -> Option<Self>;

    /// Decoding the number of a tag gives the tag back, and a number decodes
    /// only to the tag that it stands for.
    proof fn lemma_id_round_trip(self, id: u64)
        ensures
            Self::spec_from_id(self.spec_id()) == Some(self),
            Self::spec_from_id(id) == Some(self) ==> self.spec_id() == id,
    ;

    fn pretty(self) -> (r: &'static str)
        ensures
            r@ == self.spec_pretty(),
    ;

    fn emoji(self) -> (r: &'static str)
        ensures
            r@ == self.spec_emoji(),
    ;

    fn tag_id(self) -> (r: u64)
        ensures
            r == self.spec_id(),
    ;

    fn from_tag_id(id: u64) -> (r: Option<Self>)
        ensures
            r == Self::spec_from_id(id),
    ;
}

} // verus!
