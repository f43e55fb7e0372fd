//! What the GraphQL layer decides from its inputs: search options, sync
//! requests and which remote operations a source offers.

use vstd::prelude::*;
use vstd::string::StringExecFns;
use crate::error::Error;
use crate::model::{MediaKind, SearchOptions, SourceName, SyncOutcome, SyncReport, SyncRequest};
use crate::remote::{anime_collection_options, manga_collection_options, show_collection_options};

verus! {

/// A positive count from an input integer: values below one count as one.
pub open spec fn at_least_one(v: i32) -> usize {
    if v < 1 {
        1usize
    } else {
        v as usize
    }
}

/// A count from an input integer: negative values count as zero.
pub open spec fn at_least_zero(v: i32) -> usize {
    if v < 0 {
        0usize
    } else {
        v as usize
    }
}

fn clamp_one(v: i32) -> (r: usize)
    ensures
        r == at_least_one(v),
{
    if v < 1 {
        1
    } else {
        v as usize
    }
}

/// The options of a search input: a limit of at least one, an offset of at
/// least zero, and the kind and format filters when given; the defaults
/// otherwise.
pub fn search_options_from(
    limit: Option<i32>,
    offset: Option<i32>,
    media_kind: Option<MediaKind>,
    format: Option<String>,
) -> (r: SearchOptions)
    ensures
        r.limit == (match limit {
            Some(l) => at_least_one(l),
            None => 20usize,
        }),
        r.offset == (match offset {
            Some(o) => at_least_zero(o),
            None => 0usize,
        }),
        r.media_kind == media_kind,
        r.format == format,
{
    let mut options = SearchOptions::default();
    if let Some(l) = limit {
        options = options.with_limit(clamp_one(l));
    }
    if let Some(o) = offset {
        let off: usize = if o < 0 {
            0
        } else {
            o as usize
        };
        options = options.with_offset(off);
    }
    if let Some(k) = media_kind {
        options = options.with_media_kind(k);
    }
    SearchOptions { format, ..options }
}

/// The page cap of a generate request: at least one page when given.
pub fn max_pages_input(max_pages: Option<i32>) -> (r: Option<usize>)
    ensures
        r == (match max_pages {
            Some(m) => Some(at_least_one(m)),
            None => None,
        }),
{
    match max_pages {
        Some(m) => Some(clamp_one(m)),
        None => None,
    }
}

/// The error for a sync addressed to MyAnimeList, which has no sync of its own.
pub open spec fn no_mal_sync_message() -> Seq<char> {
    "sync direto para MyAnimeList não existe; use AniList, Jikan, Kitsu, Tvmaze ou Imdb"@
}

/// The request of a sync input for one source: its kind, and a page size
/// and page cap of at least one when given. MyAnimeList is refused.
pub fn sync_input_request(
    source: SourceName,
    media_kind: Option<MediaKind>,
    page_size: Option<i32>,
    max_pages: Option<i32>,
) -> (r: Result<SyncRequest, Error>)
    ensures
        source == SourceName::MyAnimeList ==> (r matches Err(Error::Validation(m)) && m@
            == no_mal_sync_message()),
        source != SourceName::MyAnimeList ==> (r matches Ok(req) && req.source == source
            && req.media_kind == media_kind && req.mode == crate::model::SyncMode::Full
            && req.page_size == (match page_size {
            Some(p) => at_least_one(p),
            None => 50usize,
        }) && req.max_pages == (match max_pages {
            Some(m) => Some(at_least_one(m)),
            None => None,
        }) && req.start_cursor is None),
{
    if source == SourceName::MyAnimeList {
        return Err(
            Error::Validation(
                String::from_str(
                    "sync direto para MyAnimeList não existe; use AniList, Jikan, Kitsu, Tvmaze ou Imdb",
                ),
            ),
        );
    }
    let mut request = SyncRequest::new(source);
    if let Some(k) = media_kind {
        request = request.with_media_kind(k);
    }
    if let Some(p) = page_size {
        request = request.with_page_size(clamp_one(p));
    }
    if let Some(m) = max_pages {
        request = request.with_max_pages(clamp_one(m));
    }
    Ok(request)
}

/// The report of a single run.
pub fn single_outcome_report(outcome: SyncOutcome) -> (r: SyncReport)
    ensures
        r.outcomes@ == seq![outcome],
        r.total_upserted_records == outcome.upserted_records,
{
    let total = outcome.upserted_records;
    let mut outcomes: Vec<SyncOutcome> = Vec::new();
    outcomes.push(outcome);
    SyncReport { outcomes, total_upserted_records: total }
}

/// The error for direct remote queries against MyAnimeList.
pub open spec fn no_mal_remote_message() -> Seq<char> {
    "consulta remota direta para MyAnimeList nao esta disponivel"@
}

/// The error for a remote search against IMDb.
pub open spec fn imdb_search_message() -> Seq<char> {
    "IMDb remote search requires downloading the full dataset; use sync instead"@
}

/// The error for a remote lookup against IMDb.
pub open spec fn imdb_lookup_message() -> Seq<char> {
    "IMDb remote lookup requires downloading the full dataset; use sync instead"@
}

/// Whether a source answers remote searches: IMDb and MyAnimeList do not.
pub fn remote_search_allowed(source: SourceName) -> (r: Result<(), Error>)
    ensures
        source == SourceName::Imdb ==> (r matches Err(Error::Validation(m)) && m@
            == imdb_search_message()),
        source == SourceName::MyAnimeList ==> (r matches Err(Error::Validation(m)) && m@
            == no_mal_remote_message()),
        source != SourceName::Imdb && source != SourceName::MyAnimeList ==> r is Ok,
{
    match source {
        SourceName::Imdb => Err(
            Error::Validation(
                String::from_str(
                    "IMDb remote search requires downloading the full dataset; use sync instead",
                ),
            ),
        ),
        SourceName::MyAnimeList => Err(
            Error::Validation(
                String::from_str("consulta remota direta para MyAnimeList nao esta disponivel"),
            ),
        ),
        _ => Ok(()),
    }
}

/// The collection a remote lookup goes through: TVmaze looks up shows; the
/// anime providers look up manga for manga and anime otherwise; IMDb and
/// MyAnimeList are refused.
pub fn remote_lookup_options(source: SourceName, media_kind: MediaKind) -> (r: Result<
    SearchOptions,
    Error,
>)
    ensures
        source == SourceName::Imdb ==> (r matches Err(Error::Validation(m)) && m@
            == imdb_lookup_message()),
        source == SourceName::MyAnimeList ==> (r matches Err(Error::Validation(m)) && m@
            == no_mal_remote_message()),
        source == SourceName::Tvmaze ==> (r matches Ok(o) && o.media_kind == Some(MediaKind::Show)
            && o.format is None && o.limit == 20 && o.offset == 0),
        source == SourceName::AniList || source == SourceName::Jikan || source == SourceName::Kitsu
            ==> (r matches Ok(o) && o.media_kind == Some(
            if media_kind == MediaKind::Manga {
                MediaKind::Manga
            } else {
                MediaKind::Anime
            },
        ) && o.format is None && o.limit == 20 && o.offset == 0),
{
    match source {
        SourceName::Imdb => Err(
            Error::Validation(
                String::from_str(
                    "IMDb remote lookup requires downloading the full dataset; use sync instead",
                ),
            ),
        ),
        SourceName::MyAnimeList => Err(
            Error::Validation(
                String::from_str("consulta remota direta para MyAnimeList nao esta disponivel"),
            ),
        ),
        SourceName::Tvmaze => Ok(show_collection_options()),
        _ => {
            if media_kind == MediaKind::Manga {
                Ok(manga_collection_options())
            } else {
                Ok(anime_collection_options())
            }
        },
    }
}

} // verus!
