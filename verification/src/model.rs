//! The normalized data model shared by every part of the library.
//!
//! Provider ratings are carried as basis points of the normalized 0.0–1.0
//! scale (`0..=10000`), and raw provider payloads as JSON text.

use vstd::prelude::*;
use crate::error::Error;
use crate::text::{char_is_whitespace, chars_of, concat_str, is_ws, str_eq};
use vstd::string::StringExecFns;


verus! {

/// The four supported media kinds.
#[derive(Debug, Clone, Copy, PartialEq, Eq, Hash, Structural)]
pub enum MediaKind {
    Anime,
    Manga,
    Show,
    Movie,
}

pub open spec fn media_kind_name(kind: MediaKind) -> Seq<char> {
    match kind {
        MediaKind::Anime => "anime"@,
        MediaKind::Manga => "manga"@,
        MediaKind::Show => "show"@,
        MediaKind::Movie => "movie"@,
    }
}

impl MediaKind {
    pub fn as_str(self) -> (r: &'static str)
        ensures
            r@ == media_kind_name(self),
    {
        match self {
            MediaKind::Anime => "anime",
            MediaKind::Manga => "manga",
            MediaKind::Show => "show",
            MediaKind::Movie => "movie",
        }
    }
}

/// The remote metadata sources.
#[derive(Debug, Clone, Copy, PartialEq, Eq, Hash, Structural)]
pub enum SourceName {
    AniList,
    MyAnimeList,
    Jikan,
    Kitsu,
    Tvmaze,
    Imdb,
}

pub open spec fn source_name(source: SourceName) -> Seq<char> {
    match source {
        SourceName::AniList => "anilist"@,
        SourceName::MyAnimeList => "myanimelist"@,
        SourceName::Jikan => "jikan"@,
        SourceName::Kitsu => "kitsu"@,
        SourceName::Tvmaze => "tvmaze"@,
        SourceName::Imdb => "imdb"@,
    }
}

impl SourceName {
    pub fn as_str(self) -> (r: &'static str)
        ensures
            r@ == source_name(self),
    {
        match self {
            SourceName::AniList => "anilist",
            SourceName::MyAnimeList => "myanimelist",
            SourceName::Jikan => "jikan",
            SourceName::Kitsu => "kitsu",
            SourceName::Tvmaze => "tvmaze",
            SourceName::Imdb => "imdb",
        }
    }
}


/// What `parse_media_kind` accepts: the lowercase or uppercase kind name.
pub open spec fn spec_parse_media_kind(v: Seq<char>) -> Option<MediaKind> {
    if v == "anime"@ || v == "ANIME"@ {
        Some(MediaKind::Anime)
    } else if v == "manga"@ || v == "MANGA"@ {
        Some(MediaKind::Manga)
    } else if v == "show"@ || v == "SHOW"@ {
        Some(MediaKind::Show)
    } else if v == "movie"@ || v == "MOVIE"@ {
        Some(MediaKind::Movie)
    } else {
        None
    }
}

/// Parses a media kind name (`"anime"` or `"ANIME"`, and so on).
pub fn parse_media_kind(value: &str) -> (r: Result<MediaKind, Error>)
    ensures
        spec_parse_media_kind(value@) matches Some(k) ==> r == Ok::<MediaKind, Error>(k),
        spec_parse_media_kind(value@) is None ==> (r matches Err(Error::Validation(msg))
            && msg@ == "unsupported media kind: "@ + value@),
{
    if str_eq(value, "anime") || str_eq(value, "ANIME") {
        Ok(MediaKind::Anime)
    } else if str_eq(value, "manga") || str_eq(value, "MANGA") {
        Ok(MediaKind::Manga)
    } else if str_eq(value, "show") || str_eq(value, "SHOW") {
        Ok(MediaKind::Show)
    } else if str_eq(value, "movie") || str_eq(value, "MOVIE") {
        Ok(MediaKind::Movie)
    } else {
        Err(Error::Validation(concat_str("unsupported media kind: ", value)))
    }
}

/// What `parse_source` accepts: the lowercase source name.
pub open spec fn spec_parse_source(v: Seq<char>) -> Option<SourceName> {
    if v == "anilist"@ {
        Some(SourceName::AniList)
    } else if v == "myanimelist"@ {
        Some(SourceName::MyAnimeList)
    } else if v == "jikan"@ {
        Some(SourceName::Jikan)
    } else if v == "kitsu"@ {
        Some(SourceName::Kitsu)
    } else if v == "tvmaze"@ {
        Some(SourceName::Tvmaze)
    } else if v == "imdb"@ {
        Some(SourceName::Imdb)
    } else {
        None
    }
}

/// Parses a source name (`"anilist"`, `"myanimelist"`, ...).
pub fn parse_source(value: &str) -> (r: Result<SourceName, Error>)
    ensures
        spec_parse_source(value@) matches Some(s) ==> r == Ok::<SourceName, Error>(s),
        spec_parse_source(value@) is None ==> (r matches Err(Error::Validation(msg))
            && msg@ == "unsupported source: "@ + value@),
{
    if str_eq(value, "anilist") {
        Ok(SourceName::AniList)
    } else if str_eq(value, "myanimelist") {
        Ok(SourceName::MyAnimeList)
    } else if str_eq(value, "jikan") {
        Ok(SourceName::Jikan)
    } else if str_eq(value, "kitsu") {
        Ok(SourceName::Kitsu)
    } else if str_eq(value, "tvmaze") {
        Ok(SourceName::Tvmaze)
    } else if str_eq(value, "imdb") {
        Ok(SourceName::Imdb)
    } else {
        Err(Error::Validation(concat_str("unsupported source: ", value)))
    }
}

impl core::str::FromStr for MediaKind {
    type Err = Error;

    fn from_str(value: &str) -> (r: Result<MediaKind, Error>)
        ensures
            spec_parse_media_kind(value@) matches Some(k) ==> r == Ok::<MediaKind, Error>(k),
            spec_parse_media_kind(value@) is None ==> (r matches Err(Error::Validation(msg))
                && msg@ == "unsupported media kind: "@ + value@),
    {
        parse_media_kind(value)
    }
}

impl core::str::FromStr for SourceName {
    type Err = Error;

    fn from_str(value: &str) -> (r: Result<SourceName, Error>)
        ensures
            spec_parse_source(value@) matches Some(s) ==> r == Ok::<SourceName, Error>(s),
            spec_parse_source(value@) is None ==> (r matches Err(Error::Validation(msg))
                && msg@ == "unsupported source: "@ + value@),
    {
        parse_source(value)
    }
}

/// Parsing a kind's own name gives the kind back.
pub proof fn lemma_media_kind_name_roundtrip(kind: MediaKind)
    ensures
        spec_parse_media_kind(media_kind_name(kind)) == Some(kind),
{
    reveal_strlit("anime");
    reveal_strlit("ANIME");
    reveal_strlit("manga");
    reveal_strlit("MANGA");
    reveal_strlit("show");
    reveal_strlit("SHOW");
    reveal_strlit("movie");
    reveal_strlit("MOVIE");
    assert("anime"@[0] == 'a' && "ANIME"@[0] == 'A' && "manga"@[0] == 'm' && "MANGA"@[0] == 'M');
    assert("show"@[0] == 's' && "SHOW"@[0] == 'S' && "movie"@[0] == 'm' && "MOVIE"@[0] == 'M');
    assert("manga"@[1] == 'a' && "MANGA"@[1] == 'A' && "movie"@[1] == 'o' && "MOVIE"@[1] == 'O');
}

/// Parsing a source's own name gives the source back.
pub proof fn lemma_source_name_roundtrip(source: SourceName)
    ensures
        spec_parse_source(source_name(source)) == Some(source),
{
    reveal_strlit("anilist");
    reveal_strlit("myanimelist");
    reveal_strlit("jikan");
    reveal_strlit("kitsu");
    reveal_strlit("tvmaze");
    reveal_strlit("imdb");
    assert("anilist"@[0] == 'a' && "myanimelist"@[0] == 'm' && "jikan"@[0] == 'j');
    assert("kitsu"@[0] == 'k' && "tvmaze"@[0] == 't' && "imdb"@[0] == 'i');
}


/// A source-specific identifier for a media record.
#[derive(Debug, Clone, PartialEq)]
pub struct ExternalId {
    pub source: SourceName,
    pub source_id: String,
    pub url: Option<String>,
}

impl ExternalId {
    /// AniList and MyAnimeList ids are the strong identity anchors.
    pub fn is_strong_identity(&self) -> (r: bool)
        ensures
            r == (self.source == SourceName::MyAnimeList || self.source == SourceName::AniList),
    {
        match self.source {
            SourceName::MyAnimeList | SourceName::AniList => true,
            _ => false,
        }
    }
}

/// Raw per-source payload as received from a provider; `raw_json` holds
/// the provider's JSON text for the record.
#[derive(Debug, Clone, PartialEq)]
pub struct SourcePayload {
    pub source: SourceName,
    pub source_id: String,
    pub url: Option<String>,
    pub remote_updated_at: Option<String>,
    pub raw_json: Option<String>,
}

/// Records which provider supplied a field's value during a merge.
///
/// `score` is the merge score in units of 1/1_200_000 of the 0.0–1.0 scale.
#[derive(Debug, Clone, PartialEq)]
pub struct FieldProvenance {
    pub field_name: String,
    pub source: SourceName,
    pub source_id: String,
    pub score: u64,
    pub reason: String,
    pub updated_at: String,
}

/// Normalized media record as produced by a provider mapper.
///
/// `provider_rating` is in basis points of the normalized scale (`0..=10000`).
#[derive(Debug, Clone, PartialEq)]
pub struct CanonicalMedia {
    pub media_kind: MediaKind,
    pub title_display: String,
    pub title_romaji: Option<String>,
    pub title_english: Option<String>,
    pub title_native: Option<String>,
    pub synopsis: Option<String>,
    pub format: Option<String>,
    pub status: Option<String>,
    pub season: Option<String>,
    pub season_year: Option<i32>,
    pub episodes: Option<i32>,
    pub chapters: Option<i32>,
    pub volumes: Option<i32>,
    pub country_of_origin: Option<String>,
    pub cover_image: Option<String>,
    pub banner_image: Option<String>,
    pub provider_rating: Option<u64>,
    pub nsfw: bool,
    pub aliases: Vec<String>,
    pub genres: Vec<String>,
    pub tags: Vec<String>,
    pub external_ids: Vec<ExternalId>,
    pub source_payloads: Vec<SourcePayload>,
    pub field_provenance: Vec<FieldProvenance>,
}

/// Every character of `s` is whitespace (so `s` trims to nothing).
pub open spec fn is_blank(s: Seq<char>) -> bool {
    forall|i: int| 0 <= i < s.len() ==> is_ws(#[trigger] s[i])
}

/// Tests whether every character of `s` is whitespace.
pub fn str_is_blank(s: &str) -> (r: bool)
    ensures
        r == is_blank(s@),
{
    let v = chars_of(s);
    let mut i: usize = 0;
    while i < v.len()
        invariant
            v@ == s@,
            i <= v@.len(),
            forall|j: int| 0 <= j < i ==> is_ws(#[trigger] v@[j]),
        decreases v.len() - i,
    {
        if !char_is_whitespace(v[i]) {
            return false;
        }
        i = i + 1;
    }
    true
}

impl CanonicalMedia {
    /// A record can be persisted when its display title is not blank and it
    /// carries at least one external id.
    pub fn validate(&self) -> (r: Result<(), Error>)
        ensures
            is_blank(self.title_display@) ==> (r matches Err(Error::Validation(m))
                && m@ == "title_display cannot be empty"@),
            !is_blank(self.title_display@) && self.external_ids.len() == 0 ==> (r matches Err(
                Error::Validation(m),
            ) && m@ == "at least one external id is required to persist media"@),
            !is_blank(self.title_display@) && self.external_ids.len() > 0 ==> r is Ok,
    {
        if str_is_blank(self.title_display.as_str()) {
            return Err(Error::Validation(String::from_str("title_display cannot be empty")));
        }
        if self.external_ids.len() == 0 {
            return Err(
                Error::Validation(
                    String::from_str("at least one external id is required to persist media"),
                ),
            );
        }
        Ok(())
    }

    pub fn name(&self) -> (r: &str)
        ensures
            r@ == self.title_display@,
    {
        self.title_display.as_str()
    }
}

/// A media record as persisted in the local catalog.
#[derive(Debug, Clone, PartialEq)]
pub struct StoredMedia {
    pub id: i64,
    pub media_kind: MediaKind,
    pub title_display: String,
    pub title_romaji: Option<String>,
    pub title_english: Option<String>,
    pub title_native: Option<String>,
    pub synopsis: Option<String>,
    pub format: Option<String>,
    pub status: Option<String>,
    pub season: Option<String>,
    pub season_year: Option<i32>,
    pub episodes: Option<i32>,
    pub chapters: Option<i32>,
    pub volumes: Option<i32>,
    pub country_of_origin: Option<String>,
    pub cover_image: Option<String>,
    pub banner_image: Option<String>,
    pub provider_rating: Option<u64>,
    pub nsfw: bool,
    pub aliases: Vec<String>,
    pub genres: Vec<String>,
    pub tags: Vec<String>,
    pub external_ids: Vec<ExternalId>,
    pub source_payloads: Vec<SourcePayload>,
    pub field_provenance: Vec<FieldProvenance>,
}

impl StoredMedia {
    pub fn name(&self) -> (r: &str)
        ensures
            r@ == self.title_display@,
    {
        self.title_display.as_str()
    }
}

/// Options for local search and remote provider queries.
#[derive(Debug, Clone, PartialEq)]
pub struct SearchOptions {
    pub limit: usize,
    pub offset: usize,
    pub media_kind: Option<MediaKind>,
    pub format: Option<String>,
}

impl Default for SearchOptions {
    fn default() -> (r: SearchOptions)
        ensures
            r.limit == 20 && r.offset == 0 && r.media_kind is None && r.format is None,
    {
        SearchOptions { limit: 20, offset: 0, media_kind: None, format: None }
    }
}

impl SearchOptions {
    pub fn with_limit(self, limit: usize) -> (r: SearchOptions)
        ensures
            r == (SearchOptions { limit, ..self }),
    {
        SearchOptions { limit, ..self }
    }

    pub fn with_offset(self, offset: usize) -> (r: SearchOptions)
        ensures
            r == (SearchOptions { offset, ..self }),
    {
        SearchOptions { offset, ..self }
    }

    pub fn with_media_kind(self, media_kind: MediaKind) -> (r: SearchOptions)
        ensures
            r == (SearchOptions { media_kind: Some(media_kind), ..self }),
    {
        SearchOptions { media_kind: Some(media_kind), ..self }
    }

    pub fn with_format(self, format: &str) -> (r: SearchOptions)
        ensures
            r.limit == self.limit && r.offset == self.offset && r.media_kind == self.media_kind,
            r.format matches Some(f) && f@ == format@,
    {
        SearchOptions { format: Some(String::from_str(format)), ..self }
    }
}

/// Whether a sync overwrites all fields or only fills empty ones.
#[derive(Debug, Clone, Copy, PartialEq, Eq, Structural)]
pub enum SyncMode {
    Full,
    Incremental,
}

pub open spec fn sync_mode_name(mode: SyncMode) -> Seq<char> {
    match mode {
        SyncMode::Full => "full"@,
        SyncMode::Incremental => "incremental"@,
    }
}

impl SyncMode {
    pub fn as_str(self) -> (r: &'static str)
        ensures
            r@ == sync_mode_name(self),
    {
        match self {
            SyncMode::Full => "full",
            SyncMode::Incremental => "incremental",
        }
    }
}

/// What `parse_sync_mode` accepts.
pub open spec fn spec_parse_sync_mode(v: Seq<char>) -> Option<SyncMode> {
    if v == "full"@ {
        Some(SyncMode::Full)
    } else if v == "incremental"@ {
        Some(SyncMode::Incremental)
    } else {
        None
    }
}

/// Parses a stored sync mode name.
pub fn parse_sync_mode(value: &str) -> (r: Result<SyncMode, Error>)
    ensures
        spec_parse_sync_mode(value@) matches Some(m) ==> r == Ok::<SyncMode, Error>(m),
        spec_parse_sync_mode(value@) is None ==> (r matches Err(Error::Validation(msg))
            && msg@ == "unsupported sync mode: "@ + value@),
{
    if str_eq(value, "full") {
        Ok(SyncMode::Full)
    } else if str_eq(value, "incremental") {
        Ok(SyncMode::Incremental)
    } else {
        Err(Error::Validation(concat_str("unsupported sync mode: ", value)))
    }
}

/// Parsing a sync mode's stored name gives the mode back.
pub proof fn lemma_sync_mode_name_roundtrip(mode: SyncMode)
    ensures
        spec_parse_sync_mode(sync_mode_name(mode)) == Some(mode),
{
    reveal_strlit("full");
    reveal_strlit("incremental");
    assert("full"@[0] == 'f' && "incremental"@[0] == 'i');
}

/// Cursor for paginating through a provider's result set (1-based page).
#[derive(Debug, Clone, Copy, PartialEq, Eq, Structural)]
pub struct SyncCursor {
    pub page: usize,
}

impl Default for SyncCursor {
    fn default() -> (r: SyncCursor)
        ensures
            r.page == 1,
    {
        SyncCursor { page: 1 }
    }
}

/// Parameters of one provider-to-catalog sync run.
#[derive(Debug, Clone, PartialEq)]
pub struct SyncRequest {
    pub source: SourceName,
    pub media_kind: Option<MediaKind>,
    pub mode: SyncMode,
    pub page_size: usize,
    pub max_pages: Option<usize>,
    pub start_cursor: Option<SyncCursor>,
}

impl SyncRequest {
    pub fn new(source: SourceName) -> (r: SyncRequest)
        ensures
            r == (SyncRequest {
                source,
                media_kind: None,
                mode: SyncMode::Full,
                page_size: 50,
                max_pages: None,
                start_cursor: None,
            }),
    {
        SyncRequest {
            source,
            media_kind: None,
            mode: SyncMode::Full,
            page_size: 50,
            max_pages: None,
            start_cursor: None,
        }
    }

    pub fn with_media_kind(self, media_kind: MediaKind) -> (r: SyncRequest)
        ensures
            r == (SyncRequest { media_kind: Some(media_kind), ..self }),
    {
        SyncRequest { media_kind: Some(media_kind), ..self }
    }

    pub fn with_mode(self, mode: SyncMode) -> (r: SyncRequest)
        ensures
            r == (SyncRequest { mode, ..self }),
    {
        SyncRequest { mode, ..self }
    }

    pub fn with_page_size(self, page_size: usize) -> (r: SyncRequest)
        ensures
            r == (SyncRequest { page_size, ..self }),
    {
        SyncRequest { page_size, ..self }
    }

    pub fn with_max_pages(self, max_pages: usize) -> (r: SyncRequest)
        ensures
            r == (SyncRequest { max_pages: Some(max_pages), ..self }),
    {
        SyncRequest { max_pages: Some(max_pages), ..self }
    }

    pub fn with_start_cursor(self, cursor: SyncCursor) -> (r: SyncRequest)
        ensures
            r == (SyncRequest { start_cursor: Some(cursor), ..self }),
    {
        SyncRequest { start_cursor: Some(cursor), ..self }
    }
}

/// Outcome of a single provider sync run.
#[derive(Debug, Clone, PartialEq)]
pub struct SyncOutcome {
    pub source: SourceName,
    pub media_kind: Option<MediaKind>,
    pub fetched_pages: usize,
    pub upserted_records: usize,
    pub last_cursor: Option<SyncCursor>,
}

/// Aggregated result of a multi-source sync.
#[derive(Debug, Clone, PartialEq)]
pub struct SyncReport {
    pub outcomes: Vec<SyncOutcome>,
    pub total_upserted_records: usize,
}

/// Persistent checkpoint for a provider sync.
#[derive(Debug, Clone, PartialEq)]
pub struct PersistedSyncState {
    pub source: SourceName,
    pub scope: String,
    pub cursor: Option<SyncCursor>,
    pub last_success_at: Option<String>,
    pub last_error: Option<String>,
    pub last_page: Option<i64>,
    pub mode: SyncMode,
}

/// Episode data produced by a provider mapper; the JSON fields hold JSON text.
#[derive(Debug, Clone, PartialEq)]
pub struct CanonicalEpisode {
    pub source: SourceName,
    pub source_id: String,
    pub media_kind: MediaKind,
    pub season_number: Option<i32>,
    pub episode_number: Option<i32>,
    pub absolute_number: Option<i32>,
    pub title_display: Option<String>,
    pub title_original: Option<String>,
    pub synopsis: Option<String>,
    pub air_date: Option<String>,
    pub runtime_minutes: Option<i32>,
    pub thumbnail_url: Option<String>,
    pub raw_titles_json: Option<String>,
    pub raw_json: Option<String>,
}

/// A merged (canonical) episode as persisted in the local catalog.
#[derive(Debug, Clone, PartialEq)]
pub struct StoredEpisode {
    pub id: i64,
    pub media_id: i64,
    pub season_number: Option<i32>,
    pub episode_number: Option<i32>,
    pub absolute_number: Option<i32>,
    pub title_display: Option<String>,
    pub title_original: Option<String>,
    pub titles_json: Option<String>,
    pub synopsis: Option<String>,
    pub air_date: Option<String>,
    pub runtime_minutes: Option<i32>,
    pub thumbnail_url: Option<String>,
}

/// Episode record as received from one provider and stored for re-merging.
#[derive(Debug, Clone, PartialEq)]
pub struct EpisodeSourceRecord {
    pub id: i64,
    pub episode_id: Option<i64>,
    pub source: SourceName,
    pub source_id: String,
    pub media_id: i64,
    pub media_kind: MediaKind,
    pub season_number: Option<i32>,
    pub episode_number: Option<i32>,
    pub absolute_number: Option<i32>,
    pub title_display: Option<String>,
    pub title_original: Option<String>,
    pub titles_json: Option<String>,
    pub synopsis: Option<String>,
    pub air_date: Option<String>,
    pub runtime_minutes: Option<i32>,
    pub thumbnail_url: Option<String>,
    pub raw_json: Option<String>,
    pub fetched_at: String,
}

/// A media record paired with its canonical episode list.
#[derive(Debug, Clone, PartialEq)]
pub struct MediaDocument {
    pub media: StoredMedia,
    pub episodes: Vec<StoredEpisode>,
}

} // verus!
