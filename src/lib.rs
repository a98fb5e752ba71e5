//! Hierarchical tracing: spans and events are buffered tree-wise while a
//! root span is open, then the finished tree is timed, processed and rendered
//! as an indented pretty tree or as line-delimited JSON records.

pub mod formatter;
pub mod kanidm;
pub mod middleware;
pub mod tag;
pub mod subscriber;
pub mod text;
pub mod timestamp;
pub mod timings;
pub mod tree;
