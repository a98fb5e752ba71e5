//! Request logging for an HTTP server: which event a finished response
//! gives.

use vstd::prelude::*;

use crate::kanidm::KanidmEventTag;
use crate::tag::Level;
use crate::text::{decimal, push_decimal};

verus! {

/// Logs each request and the response sent for it inside a span of its own.
pub struct TreeMiddleware {}

/// The event that a response is logged with.
#[derive(Clone, Copy, Debug, PartialEq, Eq)]
pub struct ResponseLog {
    pub tag: KanidmEventTag,
    pub level: Level,
    pub message: &'static str,
}

impl TreeMiddleware {
    pub fn new() -> (r: Self) {
        TreeMiddleware {}
    }

    /// The event for a response of status `status`: a server error (5xx) is
    /// a request error, a client error (4xx) a request warning, anything
    /// else request information.
    pub fn response_log(&self, status: u16) -> (r: ResponseLog)
        ensures
            500 <= status < 600 ==> r.tag == KanidmEventTag::RequestError && r.level
                == Level::Error && r.message@ == "Internal error -> Response sent"@,
            400 <= status < 500 ==> r.tag == KanidmEventTag::RequestWarn && r.level
                == Level::Warn && r.message@ == "Client error --> Response sent"@,
            !(400 <= status < 600) ==> r.tag == KanidmEventTag::RequestInfo && r.level
                == Level::Info && r.message@ == "--> Response sent"@,
    {
        if 500 <= status && status < 600 {
            ResponseLog {
                tag: KanidmEventTag::RequestError,
                level: Level::Error,
                message: "Internal error -> Response sent",
            }
        } else if 400 <= status && status < 500 {
            ResponseLog {
                tag: KanidmEventTag::RequestWarn,
                level: Level::Warn,
                message: "Client error --> Response sent",
            }
        } else {
            ResponseLog {
                tag: KanidmEventTag::RequestInfo,
                level: Level::Info,
                message: "--> Response sent",
            }
        }
    }

    /// The `status` field of a response: `<code> - <reason>`.
    pub fn status_text(&self, status: u16, reason: &str) -> (r: String)
        ensures
            r@ == decimal(status as nat) + " - "@ + reason@,
    {
        let mut out = String::new();
        push_decimal(&mut out, status as u128);
        out.append(" - ");
        out.append(reason);
        out
    }
}

} // verus!
