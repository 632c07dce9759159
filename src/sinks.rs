use vstd::prelude::*;

verus! {

/// Where a sink forwards frames.
#[derive(Debug, Clone, PartialEq, Eq)]
pub enum SinkType {
    Http { url: String },
    Udp { host: String, port: u16 },
    File { path: String },
}

/// A configured output sink with its optional projection expression.
#[derive(Debug, Clone, PartialEq, Eq)]
pub struct SinkConfig {
    pub id: String,
    pub sink_type: SinkType,
    /// Comma-separated field names, as `FieldMask::parse` reads them.
    pub field_mask: Option<String>,
}

} // verus!
