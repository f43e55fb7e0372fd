//! The decisions of the media write and lookup paths: which stored record
//! an incoming one resolves to, which external ids conflict, which stored
//! record a bare external id names, and the text indexed for search.

use vstd::prelude::*;
use vstd::string::StringExecFns;
use crate::error::Error;
use crate::model::{source_name, spec_parse_media_kind, parse_media_kind, ExternalId, MediaKind, SourceName, StoredMedia};
use crate::text::{clone_string, join_str, join_strings, json_string, views};
use super::common::{normalize_aliases, spec_normalize_aliases};

verus! {

/// The first id found, looking at the external ids in order.
pub open spec fn spec_first_resolved(found: Seq<Option<i64>>) -> Option<i64>
    decreases found.len(),
{
    if found.len() == 0 {
        None
    } else if found[0] is Some {
        found[0]
    } else {
        spec_first_resolved(found.skip(1))
    }
}

/// The stored record an incoming record resolves to: `found[i]` is the
/// record that already holds the `i`-th external id of the incoming one,
/// and the first such record wins.
pub fn first_resolved(found: &Vec<Option<i64>>) -> (r: Option<i64>)
    ensures
        r == spec_first_resolved(found@),
{
    let mut i: usize = 0;
    assert(found@.skip(0) =~= found@);
    while i < found.len()
        invariant
            i <= found@.len(),
            spec_first_resolved(found@) == spec_first_resolved(found@.skip(i as int)),
        decreases found.len() - i,
    {
        proof {
            assert(found@.skip(i as int).skip(1) =~= found@.skip(i + 1));
        }
        if found[i].is_some() {
            return found[i];
        }
        i = i + 1;
    }
    None
}

/// The `i`-th external id is held by another record than the expected one.
pub open spec fn conflicts_at(expected: Option<i64>, found: Seq<Option<i64>>, i: int) -> bool {
    expected matches Some(e) && found[i] matches Some(f) && e != f
}

/// Refuses a write when one of the incoming external ids (`found[i]` being
/// the record that holds the `i`-th) belongs to another record than the
/// one the write resolved to; the error names the first such id.
pub fn ensure_no_conflicts(expected: Option<i64>, external_ids: &Vec<ExternalId>, found: &Vec<Option<i64>>) -> (r:
    Result<(), Error>)
    requires
        found@.len() == external_ids@.len(),
    ensures
        (forall|i: int| 0 <= i < found@.len() ==> !conflicts_at(expected, found@, i)) <==> r is Ok,
        r is Err ==> exists|i: int|
            0 <= i < found@.len() && conflicts_at(expected, found@, i) && (forall|j: int|
                0 <= j < i ==> !conflicts_at(expected, found@, j)) && (r matches Err(
                Error::ConflictingExternalId { provider, source_id },
            ) && provider@ == source_name(external_ids@[i].source) && source_id
                == external_ids@[i].source_id),
{
    let mut i: usize = 0;
    while i < found.len()
        invariant
            i <= found@.len(),
            found@.len() == external_ids@.len(),
            forall|j: int| 0 <= j < i ==> !conflicts_at(expected, found@, j),
        decreases found.len() - i,
    {
        if let (Some(e), Some(f)) = (expected, found[i]) {
            if e != f {
                let r = Err(
                    Error::ConflictingExternalId {
                        provider: String::from_str(external_ids[i].source.as_str()),
                        source_id: clone_string(&external_ids[i].source_id),
                    },
                );
                assert(conflicts_at(expected, found@, i as int));
                return r;
            }
        }
        i = i + 1;
    }
    Ok(())
}

/// The one stored record that holds an external id (of any kind): none is
/// not found; several (records of different kinds) are a conflict that
/// names the provider and the id.
pub fn unique_media_id(source: SourceName, source_id: &str, media_ids: &Vec<i64>) -> (r: Result<
    i64,
    Error,
>)
    ensures
        media_ids@.len() == 0 ==> r matches Err(Error::NotFound),
        media_ids@.len() == 1 ==> r == Ok::<i64, Error>(media_ids@[0]),
        media_ids@.len() > 1 ==> (r matches Err(Error::ConflictingExternalId { provider, source_id: id })
            && provider@ == source_name(source) && id@ == source_id@),
{
    if media_ids.len() == 0 {
        return Err(Error::NotFound);
    }
    if media_ids.len() == 1 {
        return Ok(media_ids[0]);
    }
    Err(
        Error::ConflictingExternalId {
            provider: String::from_str(source.as_str()),
            source_id: String::from_str(source_id),
        },
    )
}

/// The alias text indexed for full-text search: the normalized aliases
/// joined with spaces.
pub fn fts_aliases(aliases: &[String]) -> (r: String)
    ensures
        r@ == join_str(spec_normalize_aliases(views(aliases@)), " "@),
{
    let normalized = normalize_aliases(aliases);
    join_strings(&normalized, " ")
}

// ---------------------------------------------------------------------------
// The stored row of a media record
// ---------------------------------------------------------------------------

/// What serde_json makes of a text read as a JSON array of strings: the
/// strings, or the message of the error that refused the text.
pub uninterp spec fn spec_json_string_list(text: Seq<char>) -> Result<Seq<Seq<char>>, Seq<char>>;

/// `serde_json::from_str::<Vec<String>>`: the strings of a JSON array, or
/// the parser's error message. The contract claims that the outcome depends
/// on the text alone.
#[verifier::external_body]
pub fn decode_string_list(text: &str) -> (r: Result<Vec<String>, String>)
    ensures
        match r {
            Ok(v) => spec_json_string_list(text@) == Ok::<Seq<Seq<char>>, Seq<char>>(views(v@)),
            Err(m) => spec_json_string_list(text@) == Err::<Seq<Seq<char>>, Seq<char>>(m@),
        },
{
    match serde_json::from_str::<Vec<String>>(text) {
        Ok(v) => Ok(v),
        Err(e) => Err(e.to_string()),
    }
}

/// The strings joined with commas, each as a JSON string literal.
pub open spec fn json_items(v: Seq<Seq<char>>) -> Seq<char>
    decreases v.len(),
{
    if v.len() == 0 {
        seq![]
    } else if v.len() == 1 {
        json_string(v[0])
    } else {
        json_items(v.drop_last()) + ","@ + json_string(v.last())
    }
}

/// The compact JSON array of the strings, as serde_json writes it.
pub open spec fn json_string_array(v: Seq<Seq<char>>) -> Seq<char> {
    "["@ + json_items(v) + "]"@
}

/// serde_json's compact rendering (`Display` of `Value::Array`) of a list of
/// strings: a JSON array of string literals, escaped as `json_string` says.
#[verifier::external_body]
pub fn encode_string_list(v: &Vec<String>) -> (r: String)
    ensures
        r@ == json_string_array(views(v@)),
{
    serde_json::Value::from(v.clone()).to_string()
}

/// The columns of a stored media row, as read.
#[derive(Debug, Clone)]
pub struct MediaColumns {
    pub id: i64,
    pub media_kind: String,
    pub title_display: String,
    pub title_romaji: Option<String>,
    pub title_english: Option<String>,
    pub title_native: Option<String>,
    pub synopsis: Option<String>,
    pub format: Option<String>,
    pub status: Option<String>,
    pub season: Option<String>,
    pub season_year: Option<i32>,
    pub episodes: Option<i32>,
    pub chapters: Option<i32>,
    pub volumes: Option<i32>,
    pub country_of_origin: Option<String>,
    pub cover_image: Option<String>,
    pub banner_image: Option<String>,
    pub provider_rating: Option<u64>,
    pub nsfw: i64,
    pub tags_json: String,
    pub genres_json: String,
}

/// The column a stored row could not be decoded from, and why.
#[derive(Debug, Clone)]
pub enum ColumnError {
    /// The `media_kind` column (column 1) names no media kind.
    MediaKind(Error),
    /// A JSON list column (`tags_json` is column 19, `genres_json` 20) is
    /// not a JSON array of strings; the parser's message.
    Json { column: usize, message: String },
}

/// Decodes a stored media row: the media kind first, then the tags and the
/// genres from their JSON columns; `nsfw` is set for any non-zero value.
/// The aliases, ids, payloads and provenance, kept in other tables, start
/// empty.
pub fn stored_media_from_columns(c: MediaColumns) -> (r: Result<StoredMedia, ColumnError>)
    ensures
        spec_parse_media_kind(c.media_kind@) is None ==> (r matches Err(ColumnError::MediaKind(
            Error::Validation(m),
        )) && m@ == "unsupported media kind: "@ + c.media_kind@),
        spec_parse_media_kind(c.media_kind@) is Some && spec_json_string_list(c.tags_json@) is Err
            ==> (r matches Err(ColumnError::Json { column, message }) && column == 19 && Err::<
            Seq<Seq<char>>,
            Seq<char>,
        >(message@) == spec_json_string_list(c.tags_json@)),
        spec_parse_media_kind(c.media_kind@) is Some && spec_json_string_list(c.tags_json@) is Ok
            && spec_json_string_list(c.genres_json@) is Err ==> (r matches Err(
            ColumnError::Json { column, message },
        ) && column == 20 && Err::<Seq<Seq<char>>, Seq<char>>(message@) == spec_json_string_list(
            c.genres_json@,
        )),
        r is Ok <==> (spec_parse_media_kind(c.media_kind@) is Some && spec_json_string_list(
            c.tags_json@,
        ) is Ok && spec_json_string_list(c.genres_json@) is Ok),
        r matches Ok(s) ==> ({
            &&& Some(s.media_kind) == spec_parse_media_kind(c.media_kind@)
            &&& spec_json_string_list(c.tags_json@) == Ok::<Seq<Seq<char>>, Seq<char>>(views(s.tags@))
            &&& spec_json_string_list(c.genres_json@) == Ok::<Seq<Seq<char>>, Seq<char>>(views(s.genres@))
            &&& s.id == c.id
            &&& s.title_display == c.title_display
            &&& s.title_romaji == c.title_romaji
            &&& s.title_english == c.title_english
            &&& s.title_native == c.title_native
            &&& s.synopsis == c.synopsis
            &&& s.format == c.format
            &&& s.status == c.status
            &&& s.season == c.season
            &&& s.season_year == c.season_year
            &&& s.episodes == c.episodes
            &&& s.chapters == c.chapters
            &&& s.volumes == c.volumes
            &&& s.country_of_origin == c.country_of_origin
            &&& s.cover_image == c.cover_image
            &&& s.banner_image == c.banner_image
            &&& s.provider_rating == c.provider_rating
            &&& s.nsfw == (c.nsfw != 0)
            &&& s.aliases@.len() == 0 && s.external_ids@.len() == 0
            &&& s.source_payloads@.len() == 0 && s.field_provenance@.len() == 0
        }),
{
    let media_kind: MediaKind = match parse_media_kind(c.media_kind.as_str()) {
        Ok(k) => k,
        Err(e) => {
            return Err(ColumnError::MediaKind(e));
        },
    };
    let tags = match decode_string_list(c.tags_json.as_str()) {
        Ok(v) => v,
        Err(m) => {
            return Err(ColumnError::Json { column: 19, message: m });
        },
    };
    let genres = match decode_string_list(c.genres_json.as_str()) {
        Ok(v) => v,
        Err(m) => {
            return Err(ColumnError::Json { column: 20, message: m });
        },
    };
    Ok(
        StoredMedia {
            id: c.id,
            media_kind,
            title_display: c.title_display,
            title_romaji: c.title_romaji,
            title_english: c.title_english,
            title_native: c.title_native,
            synopsis: c.synopsis,
            format: c.format,
            status: c.status,
            season: c.season,
            season_year: c.season_year,
            episodes: c.episodes,
            chapters: c.chapters,
            volumes: c.volumes,
            country_of_origin: c.country_of_origin,
            cover_image: c.cover_image,
            banner_image: c.banner_image,
            provider_rating: c.provider_rating,
            nsfw: c.nsfw != 0,
            aliases: Vec::new(),
            genres,
            tags,
            external_ids: Vec::new(),
            source_payloads: Vec::new(),
            field_provenance: Vec::new(),
        },
    )
}

} // verus!
