//! The tag set of an identity-management server.

use vstd::prelude::*;

use crate::tag::EventTagSet;

verus! {

/// Tags of an identity-management server: a domain crossed with a severity.
/// Note that `RequestWarn` shows as `request.error`.
#[derive(Clone, Copy, Debug, PartialEq, Eq)]
pub enum KanidmEventTag {
    AdminError,
    AdminWarn,
    AdminInfo,
    RequestError,
    RequestWarn,
    RequestInfo,
    RequestTrace,
    SecurityCritical,
    SecurityInfo,
    SecurityAccess,
    FilterError,
    FilterWarn,
    FilterInfo,
    FilterTrace,
    PerfTrace,
}

impl EventTagSet for KanidmEventTag {
    open spec fn spec_pretty(self) -> Seq<char> {
        match self {
            KanidmEventTag::AdminError => "admin.error"@,
            KanidmEventTag::AdminWarn => "admin.warn"@,
            KanidmEventTag::AdminInfo => "admin.info"@,
            KanidmEventTag::RequestError => "request.error"@,
            KanidmEventTag::RequestWarn => "request.error"@,
            KanidmEventTag::RequestInfo => "request.info"@,
            KanidmEventTag::RequestTrace => "request.trace"@,
            KanidmEventTag::SecurityCritical => "security.critical"@,
            KanidmEventTag::SecurityInfo => "security.info"@,
            KanidmEventTag::SecurityAccess => "security.access"@,
            KanidmEventTag::FilterError => "filter.error"@,
            KanidmEventTag::FilterWarn => "filter.warn"@,
            KanidmEventTag::FilterInfo => "filter.info"@,
            KanidmEventTag::FilterTrace => "filter.trace"@,
            KanidmEventTag::PerfTrace => "perf.trace"@,
        }
    }

    open spec fn spec_emoji(self) -> Seq<char> {
        match self {
            KanidmEventTag::AdminError => "🚨"@,
            KanidmEventTag::AdminWarn => "🚧"@,
            KanidmEventTag::AdminInfo => "💬"@,
            KanidmEventTag::RequestError => "🚨"@,
            KanidmEventTag::RequestWarn => "🚧"@,
            KanidmEventTag::RequestInfo => "💬"@,
            KanidmEventTag::RequestTrace => "📍"@,
            KanidmEventTag::SecurityCritical => "🔐"@,
            KanidmEventTag::SecurityInfo => "💬"@,
            KanidmEventTag::SecurityAccess => "🔓"@,
            KanidmEventTag::FilterError => "🚨"@,
            KanidmEventTag::FilterWarn => "🚧"@,
            KanidmEventTag::FilterInfo => "💬"@,
            KanidmEventTag::FilterTrace => "📍"@,
            KanidmEventTag::PerfTrace => "📍"@,
        }
    }

    open spec fn spec_id(self) -> u64 {
        match self {
            KanidmEventTag::AdminError => 0,
            KanidmEventTag::AdminWarn => 1,
            KanidmEventTag::AdminInfo => 2,
            KanidmEventTag::RequestError => 3,
            KanidmEventTag::RequestWarn => 4,
            KanidmEventTag::RequestInfo => 5,
            KanidmEventTag::RequestTrace => 6,
            KanidmEventTag::SecurityCritical => 7,
            KanidmEventTag::SecurityInfo => 8,
            KanidmEventTag::SecurityAccess => 9,
            KanidmEventTag::FilterError => 10,
            KanidmEventTag::FilterWarn => 11,
            KanidmEventTag::FilterInfo => 12,
            KanidmEventTag::FilterTrace => 13,
            KanidmEventTag::PerfTrace => 14,
        }
    }

    open spec fn spec_from_id(id: u64) -> Option<Self> {
        match id {
            0 => Some(KanidmEventTag::AdminError),
            1 => Some(KanidmEventTag::AdminWarn),
            2 => Some(KanidmEventTag::AdminInfo),
            3 => Some(KanidmEventTag::RequestError),
            4 => Some(KanidmEventTag::RequestWarn),
            5 => Some(KanidmEventTag::RequestInfo),
            6 => Some(KanidmEventTag::RequestTrace),
            7 => Some(KanidmEventTag::SecurityCritical),
            8 => Some(KanidmEventTag::SecurityInfo),
            9 => Some(KanidmEventTag::SecurityAccess),
            10 => Some(KanidmEventTag::FilterError),
            11 => Some(KanidmEventTag::FilterWarn),
            12 => Some(KanidmEventTag::FilterInfo),
            13 => Some(KanidmEventTag::FilterTrace),
            14 => Some(KanidmEventTag::PerfTrace),
            _ => None,
        }
    }

    proof fn lemma_id_round_trip(self, id: u64) {
    }

    fn pretty(self) -> (r: &'static str) {
        match self {
            KanidmEventTag::AdminError => "admin.error",
            KanidmEventTag::AdminWarn => "admin.warn",
            KanidmEventTag::AdminInfo => "admin.info",
            KanidmEventTag::RequestError => "request.error",
            KanidmEventTag::RequestWarn => "request.error",
            KanidmEventTag::RequestInfo => "request.info",
            KanidmEventTag::RequestTrace => "request.trace",
            KanidmEventTag::SecurityCritical => "security.critical",
            KanidmEventTag::SecurityInfo => "security.info",
            KanidmEventTag::SecurityAccess => "security.access",
            KanidmEventTag::FilterError => "filter.error",
            KanidmEventTag::FilterWarn => "filter.warn",
            KanidmEventTag::FilterInfo => "filter.info",
            KanidmEventTag::FilterTrace => "filter.trace",
            KanidmEventTag::PerfTrace => "perf.trace",
        }
    }

    fn emoji(self) -> (r: &'static str) {
        match self {
            KanidmEventTag::AdminError => "🚨",
            KanidmEventTag::AdminWarn => "🚧",
            KanidmEventTag::AdminInfo => "💬",
            KanidmEventTag::RequestError => "🚨",
            KanidmEventTag::RequestWarn => "🚧",
            KanidmEventTag::RequestInfo => "💬",
            KanidmEventTag::RequestTrace => "📍",
            KanidmEventTag::SecurityCritical => "🔐",
            KanidmEventTag::SecurityInfo => "💬",
            KanidmEventTag::SecurityAccess => "🔓",
            KanidmEventTag::FilterError => "🚨",
            KanidmEventTag::FilterWarn => "🚧",
            KanidmEventTag::FilterInfo => "💬",
            KanidmEventTag::FilterTrace => "📍",
            KanidmEventTag::PerfTrace => "📍",
        }
    }

    fn tag_id(self) -> (r: u64) {
        match self {
            KanidmEventTag::AdminError => 0,
            KanidmEventTag::AdminWarn => 1,
            KanidmEventTag::AdminInfo => 2,
            KanidmEventTag::RequestError => 3,
            KanidmEventTag::RequestWarn => 4,
            KanidmEventTag::RequestInfo => 5,
            KanidmEventTag::RequestTrace => 6,
            KanidmEventTag::SecurityCritical => 7,
            KanidmEventTag::SecurityInfo => 8,
            KanidmEventTag::SecurityAccess => 9,
            KanidmEventTag::FilterError => 10,
            KanidmEventTag::FilterWarn => 11,
            KanidmEventTag::FilterInfo => 12,
            KanidmEventTag::FilterTrace => 13,
            KanidmEventTag::PerfTrace => 14,
        }
    }

    fn from_tag_id(id: u64) -> (r: Option<Self>) {
        match id {
            0 => Some(KanidmEventTag::AdminError),
            1 => Some(KanidmEventTag::AdminWarn),
            2 => Some(KanidmEventTag::AdminInfo),
            3 => Some(KanidmEventTag::RequestError),
            4 => Some(KanidmEventTag::RequestWarn),
            5 => Some(KanidmEventTag::RequestInfo),
            6 => Some(KanidmEventTag::RequestTrace),
            7 => Some(KanidmEventTag::SecurityCritical),
            8 => Some(KanidmEventTag::SecurityInfo),
            9 => Some(KanidmEventTag::SecurityAccess),
            10 => Some(KanidmEventTag::FilterError),
            11 => Some(KanidmEventTag::FilterWarn),
            12 => Some(KanidmEventTag::FilterInfo),
            13 => Some(KanidmEventTag::FilterTrace),
            14 => Some(KanidmEventTag::PerfTrace),
            _ => None,
        }
    }
}

impl From<KanidmEventTag> for u64 {
    fn from(tag: KanidmEventTag) -> (r: u64) {
        tag.tag_id()
    }
}

impl vstd::std_specs::convert::FromSpecImpl<KanidmEventTag> for u64 {
    open spec fn obeys_from_spec() -> bool {
        true
    }

    open spec fn from_spec(tag: KanidmEventTag) -> u64 {
        tag.spec_id()
    }
}

impl TryFrom<u64> for KanidmEventTag {
    type Error = ();

    fn try_from(value: u64) -> (r: Result<Self, ()>) {
        match Self::from_tag_id(value) {
            Some(t) => Ok(t),
            None => Err(()),
        }
    }
}

impl vstd::std_specs::convert::TryFromSpecImpl<u64> for KanidmEventTag {
    open spec fn obeys_try_from_spec() -> bool {
        true
    }

    open spec fn try_from_spec(value: u64) -> Result<Self, ()> {
        match Self::spec_from_id(value) {
            Some(t) => Ok(t),
            None => Err(()),
        }
    }
}

} // verus!
