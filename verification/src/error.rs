use vstd::prelude::*;

verus! {

/// The library's unified error type.
///
/// Failures of the storage, serialization and network layers are carried
/// as their rendered message text.
#[derive(Debug, Clone)]
pub enum Error {
    /// Storage (SQLite) failure, with the backend's message.
    Sqlite(String),
    /// JSON serialization or deserialization failure, with its message.
    Json(String),
    /// HTTP failure (network, TLS or non-success status), with its message.
    Http(String),
    /// Input validation failure.
    Validation(String),
    /// A requested record was not found.
    NotFound,
    /// An external id resolves to a different stored record than expected.
    ConflictingExternalId { provider: String, source_id: String },
    /// An internal synchronization failure.
    Sync(String),
}

} // verus!
