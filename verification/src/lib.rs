//! Verified core of an audio control-state monitor: line-oriented parsers
//! that turn control-process listing text into typed card, endpoint and
//! stream-association records, and the topic-keyed broadcast registry that
//! distributes assembled snapshots to consumers.

pub mod device;
pub mod parse_error;
pub mod pubsub;
mod scan;
mod text;
mod util;

pub use scan::{scan_line, scan_spec, ScanView, ScannedLine};
pub use text::parse_u64;
pub use util::unquote_parsed_string_value;
