//! Metadata catalog core for local media servers: the normalized data model,
//! text normalization, the field-level merge engine, the provider record
//! mappers and the sync/episode planning logic, all verified with Verus.

mod error;
pub mod model;
pub mod text;
pub mod repository;
pub mod merge;
pub mod remote;
pub mod provider;
pub mod sync;
pub mod api;

pub use error::Error;
pub use merge::{
    make_provenance, merge_canonical_episodes_by_effective_number, merge_episode_source_records,
    merge_media, provider_weight, MergeDecision,
};
pub use model::{
    CanonicalEpisode, CanonicalMedia, EpisodeSourceRecord, ExternalId, FieldProvenance,
    MediaDocument, MediaKind, PersistedSyncState, SearchOptions, SourceName, SourcePayload,
    StoredEpisode, StoredMedia, SyncCursor, SyncMode, SyncOutcome, SyncReport, SyncRequest,
};
pub use provider::FetchPage;
pub use remote::{EpisodeFetchCandidate, RemoteSource};
