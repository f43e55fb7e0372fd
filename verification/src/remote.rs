//! Remote-first planning: which provider ids can supply episodes, how the
//! outcomes of several episode fetches are combined, and the search options
//! of the per-kind collections.

use vstd::prelude::*;
use crate::error::Error;
use crate::model::{
    media_kind_name, source_name, CanonicalEpisode, CanonicalMedia, ExternalId, MediaKind, SearchOptions,
    SourceName,
};
use crate::text::{join_str, clone_string, concat_str, eq_ci, str_eq, str_eq_ignore_ascii_case};
use crate::merge::clone_episode;
use crate::repository::common::join_with;
use vstd::string::StringExecFns;

verus! {

/// Named variants for the built-in providers.
#[derive(Debug, Clone, Copy, PartialEq, Eq, Structural)]
pub enum RemoteSource {
    AniList,
    Jikan,
    Kitsu,
    Tvmaze,
    Imdb,
}

pub open spec fn remote_source_name(s: RemoteSource) -> Seq<char> {
    match s {
        RemoteSource::AniList => "anilist"@,
        RemoteSource::Jikan => "jikan"@,
        RemoteSource::Kitsu => "kitsu"@,
        RemoteSource::Tvmaze => "tvmaze"@,
        RemoteSource::Imdb => "imdb"@,
    }
}

impl RemoteSource {
    pub fn as_str(self) -> (r: &'static str)
        ensures
            r@ == remote_source_name(self),
    {
        match self {
            RemoteSource::AniList => "anilist",
            RemoteSource::Jikan => "jikan",
            RemoteSource::Kitsu => "kitsu",
            RemoteSource::Tvmaze => "tvmaze",
            RemoteSource::Imdb => "imdb",
        }
    }

    /// The source name of the provider this variant stands for.
    pub fn source(self) -> (r: SourceName)
        ensures
            source_name(r) == remote_source_name(self),
    {
        match self {
            RemoteSource::AniList => SourceName::AniList,
            RemoteSource::Jikan => SourceName::Jikan,
            RemoteSource::Kitsu => SourceName::Kitsu,
            RemoteSource::Tvmaze => SourceName::Tvmaze,
            RemoteSource::Imdb => SourceName::Imdb,
        }
    }
}

/// A provider-native episode lookup derived from a media record's ids.
#[derive(Debug, Clone, PartialEq, Eq)]
pub struct EpisodeFetchCandidate {
    pub source: SourceName,
    pub source_id: String,
}

/// The episode-capable provider that answers for an id of a media kind:
/// Jikan for Jikan and MyAnimeList ids of anime, Kitsu for Kitsu ids of
/// anime, TVmaze for TVmaze ids of shows.
pub open spec fn episode_provider_for(kind: MediaKind, source: SourceName) -> Option<SourceName> {
    match (kind, source) {
        (MediaKind::Anime, SourceName::Jikan) => Some(SourceName::Jikan),
        (MediaKind::Anime, SourceName::MyAnimeList) => Some(SourceName::Jikan),
        (MediaKind::Anime, SourceName::Kitsu) => Some(SourceName::Kitsu),
        (MediaKind::Show, SourceName::Tvmaze) => Some(SourceName::Tvmaze),
        _ => None,
    }
}

pub open spec fn cand_view(c: EpisodeFetchCandidate) -> (SourceName, Seq<char>) {
    (c.source, c.source_id@)
}

pub open spec fn cand_views(v: Seq<EpisodeFetchCandidate>) -> Seq<(SourceName, Seq<char>)> {
    v.map_values(|c: EpisodeFetchCandidate| cand_view(c))
}

/// The candidates of a media record's ids, in id order, without repeats.
pub open spec fn spec_episode_candidates(kind: MediaKind, ids: Seq<ExternalId>) -> Seq<
    (SourceName, Seq<char>),
>
    decreases ids.len(),
{
    if ids.len() == 0 {
        seq![]
    } else {
        let acc = spec_episode_candidates(kind, ids.drop_last());
        match episode_provider_for(kind, ids.last().source) {
            Some(s) => if acc.contains((s, ids.last().source_id@)) {
                acc
            } else {
                acc.push((s, ids.last().source_id@))
            },
            None => acc,
        }
    }
}

/// A media record's episode candidates never repeat a (provider, id) pair.
pub proof fn lemma_episode_candidates_unique(kind: MediaKind, ids: Seq<ExternalId>)
    ensures
        spec_episode_candidates(kind, ids).no_duplicates(),
    decreases ids.len(),
{
    if ids.len() > 0 {
        lemma_episode_candidates_unique(kind, ids.drop_last());
        let acc = spec_episode_candidates(kind, ids.drop_last());
        match episode_provider_for(kind, ids.last().source) {
            Some(s) => {
                let x = (s, ids.last().source_id@);
                if !acc.contains(x) {
                    let b = acc.push(x);
                    assert forall|i: int, j: int| 0 <= i < b.len() && 0 <= j < b.len() && i != j
                        implies b[i] != b[j] by {
                        if i == acc.len() as int {
                            assert(b[j] == acc[j]);
                        } else if j == acc.len() as int {
                            assert(b[i] == acc[i]);
                        } else {
                            assert(b[i] == acc[i] && b[j] == acc[j]);
                        }
                    }
                }
            },
            None => {},
        }
    }
}

fn contains_candidate(v: &Vec<EpisodeFetchCandidate>, source: SourceName, id: &String) -> (r: bool)
    ensures
        r == cand_views(v@).contains((source, id@)),
{
    let mut j: usize = 0;
    while j < v.len()
        invariant
            j <= v@.len(),
            forall|k: int| 0 <= k < j ==> cand_views(v@)[k] != (source, id@),
        decreases v.len() - j,
    {
        if v[j].source == source && str_eq(v[j].source_id.as_str(), id.as_str()) {
            assert(cand_views(v@)[j as int] == (source, id@));
            return true;
        }
        j = j + 1;
    }
    false
}

/// The episode-capable provider lookups for a merged media record: Jikan
/// (for Jikan and MyAnimeList ids) and Kitsu for anime, TVmaze for shows,
/// in id order and without repeats; other ids are skipped.
pub fn episode_fetch_candidates(media_kind: MediaKind, external_ids: &Vec<ExternalId>) -> (r: Vec<
    EpisodeFetchCandidate,
>)
    ensures
        cand_views(r@) == spec_episode_candidates(media_kind, external_ids@),
{
    let mut out: Vec<EpisodeFetchCandidate> = Vec::new();
    let mut i: usize = 0;
    while i < external_ids.len()
        invariant
            i <= external_ids@.len(),
            cand_views(out@) == spec_episode_candidates(media_kind, external_ids@.subrange(0, i as int)),
        decreases external_ids.len() - i,
    {
        proof {
            assert(external_ids@.subrange(0, i + 1).drop_last() =~= external_ids@.subrange(0, i as int));
        }
        let id = &external_ids[i];
        let target: Option<SourceName> = match (media_kind, id.source) {
            (MediaKind::Anime, SourceName::Jikan) => Some(SourceName::Jikan),
            (MediaKind::Anime, SourceName::MyAnimeList) => Some(SourceName::Jikan),
            (MediaKind::Anime, SourceName::Kitsu) => Some(SourceName::Kitsu),
            (MediaKind::Show, SourceName::Tvmaze) => Some(SourceName::Tvmaze),
            _ => None,
        };
        match target {
            Some(s) => {
                if !contains_candidate(&out, s, &id.source_id) {
                    out.push(EpisodeFetchCandidate { source: s, source_id: clone_string(&id.source_id) });
                    assert(cand_views(out@) =~= spec_episode_candidates(
                        media_kind,
                        external_ids@.subrange(0, i + 1),
                    ));
                }
            },
            None => {},
        }
        i = i + 1;
    }
    assert(external_ids@.subrange(0, external_ids@.len() as int) =~= external_ids@);
    out
}

/// The episodes of every successful fetch, concatenated in candidate order.
pub open spec fn collected_episodes(results: Seq<Result<Vec<CanonicalEpisode>, String>>) -> Seq<
    CanonicalEpisode,
>
    decreases results.len(),
{
    if results.len() == 0 {
        seq![]
    } else {
        let acc = collected_episodes(results.drop_last());
        match results.last() {
            Ok(v) => acc + v@,
            Err(_) => acc,
        }
    }
}

/// "source:id failed: message" for each failed fetch, in candidate order.
pub open spec fn failure_lines(
    cands: Seq<EpisodeFetchCandidate>,
    results: Seq<Result<Vec<CanonicalEpisode>, String>>,
) -> Seq<Seq<char>>
    decreases results.len(),
{
    if results.len() == 0 {
        seq![]
    } else {
        let acc = failure_lines(cands, results.drop_last());
        let i = results.len() - 1;
        match results.last() {
            Ok(_) => acc,
            Err(m) => acc.push(
                source_name(cands[i].source) + ":"@ + cands[i].source_id@ + " failed: "@ + m@,
            ),
        }
    }
}

/// Combines the outcomes of fetching episodes for each candidate (the
/// error text of a failed fetch in place of its episodes): the episodes of
/// the successful fetches in order, or a validation error listing every
/// failure when no episode was fetched and some fetch failed.
pub fn aggregate_episode_fetches(
    candidates: &Vec<EpisodeFetchCandidate>,
    results: Vec<Result<Vec<CanonicalEpisode>, String>>,
) -> (r: Result<Vec<CanonicalEpisode>, Error>)
    requires
        candidates@.len() == results@.len(),
    ensures
        collected_episodes(results@).len() == 0 && failure_lines(candidates@, results@).len() > 0
            ==> (r matches Err(Error::Validation(m)) && m@
            == "episode aggregation failed for all candidates: "@ + join_str(
            failure_lines(candidates@, results@),
            "; "@,
        )),
        !(collected_episodes(results@).len() == 0 && failure_lines(candidates@, results@).len()
            > 0) ==> (r matches Ok(v) && v@ == collected_episodes(results@)),
{
    let mut episodes: Vec<CanonicalEpisode> = Vec::new();
    let mut failures: String = String::new();
    let mut n_failures: usize = 0;
    let mut i: usize = 0;
    while i < results.len()
        invariant
            i <= results@.len(),
            candidates@.len() == results@.len(),
            episodes@ == collected_episodes(results@.subrange(0, i as int)),
            failures@ == join_str(failure_lines(candidates@, results@.subrange(0, i as int)), "; "@),
            n_failures == failure_lines(candidates@, results@.subrange(0, i as int)).len(),
            n_failures <= i,
        decreases results.len() - i,
    {
        let ghost pre = results@.subrange(0, i as int);
        let ghost next = results@.subrange(0, i + 1);
        proof {
            assert(next.drop_last() =~= pre);
        }
        match &results[i] {
            Ok(v) => {
                let mut k: usize = 0;
                let ghost base = episodes@;
                while k < v.len()
                    invariant
                        k <= v@.len(),
                        episodes@ == base + v@.subrange(0, k as int),
                    decreases v.len() - k,
                {
                    episodes.push(clone_episode(&v[k]));
                    k = k + 1;
                    assert(episodes@ =~= base + v@.subrange(0, k as int));
                }
                assert(v@.subrange(0, v@.len() as int) =~= v@);
            },
            Err(m) => {
                if n_failures > 0 {
                    failures.append("; ");
                }
                failures.append(candidates[i].source.as_str());
                failures.append(":");
                failures.append(candidates[i].source_id.as_str());
                failures.append(" failed: ");
                failures.append(m.as_str());
                proof {
                    let fl = failure_lines(candidates@, next);
                    assert(fl.drop_last() =~= failure_lines(candidates@, pre));
                    if n_failures > 0 {
                        assert(failures@ =~= join_str(fl, "; "@));
                    } else {
                        assert(failures@ =~= join_str(fl, "; "@));
                    }
                }
                n_failures = n_failures + 1;
            },
        }
        i = i + 1;
    }
    assert(results@.subrange(0, results@.len() as int) =~= results@);
    if episodes.len() == 0 && n_failures > 0 {
        return Err(Error::Validation(concat_str(
            "episode aggregation failed for all candidates: ",
            failures.as_str(),
        )));
    }
    Ok(episodes)
}

/// The error a provider registry gives for a source it does not hold.
pub fn provider_not_found(source: SourceName) -> (r: Error)
    ensures
        r matches Error::Validation(m) && m@ == "Provider not found for source: "@ + source_name(
            source,
        ),
{
    Error::Validation(concat_str("Provider not found for source: ", source.as_str()))
}

/// The error a provider gives for an operation it does not offer, such as
/// "trending", "recommendations", "relations" or "episode metadata".
pub fn unsupported_operation(source: SourceName, operation: &str) -> (r: Error)
    ensures
        r matches Error::Validation(m) && m@ == source_name(source) + " does not support "@
            + operation@,
{
    let mut s = String::from_str(source.as_str());
    s.append(" does not support ");
    s.append(operation);
    Error::Validation(s)
}

// ---------------------------------------------------------------------------
// Collections
// ---------------------------------------------------------------------------

/// Options of the anime collection.
pub fn anime_collection_options() -> (r: SearchOptions)
    ensures
        r.limit == 20 && r.offset == 0 && r.media_kind == Some(MediaKind::Anime) && r.format is None,
{
    SearchOptions::default().with_media_kind(MediaKind::Anime)
}

/// Options of the manga collection.
pub fn manga_collection_options() -> (r: SearchOptions)
    ensures
        r.limit == 20 && r.offset == 0 && r.media_kind == Some(MediaKind::Manga) && r.format is None,
{
    SearchOptions::default().with_media_kind(MediaKind::Manga)
}

/// Options of the anime movie collection (anime with format "MOVIE").
pub fn movie_collection_options() -> (r: SearchOptions)
    ensures
        r.limit == 20 && r.offset == 0 && r.media_kind == Some(MediaKind::Anime),
        r.format matches Some(f) && f@ == "MOVIE"@,
{
    SearchOptions::default().with_media_kind(MediaKind::Anime).with_format("MOVIE")
}

/// Options of the TV show collection.
pub fn show_collection_options() -> (r: SearchOptions)
    ensures
        r.limit == 20 && r.offset == 0 && r.media_kind == Some(MediaKind::Show) && r.format is None,
{
    SearchOptions::default().with_media_kind(MediaKind::Show)
}

/// Options of the (live-action) movie collection.
pub fn tv_movie_collection_options() -> (r: SearchOptions)
    ensures
        r.limit == 20 && r.offset == 0 && r.media_kind == Some(MediaKind::Movie) && r.format is None,
{
    SearchOptions::default().with_media_kind(MediaKind::Movie)
}

/// The kind a collection queries: its own, else anime.
pub fn collection_kind(options: &SearchOptions) -> (r: MediaKind)
    ensures
        r == (match options.media_kind {
            Some(k) => k,
            None => MediaKind::Anime,
        }),
{
    match options.media_kind {
        Some(k) => k,
        None => MediaKind::Anime,
    }
}

/// A format filter admits a value: no filter, or a value equal to the
/// filter ignoring ASCII case.
pub open spec fn spec_format_matches(filter: Option<String>, value: Option<String>) -> bool {
    match filter {
        None => true,
        Some(f) => match value {
            Some(v) => eq_ci(v@, f@),
            None => false,
        },
    }
}

pub fn format_matches(filter: &Option<String>, value: &Option<String>) -> (r: bool)
    ensures
        r == spec_format_matches(*filter, *value),
{
    match filter {
        None => true,
        Some(f) => match value {
            Some(v) => str_eq_ignore_ascii_case(v.as_str(), f.as_str()),
            None => false,
        },
    }
}

/// A stored record belongs to a collection: same kind (when the collection
/// has one) and a matching format (when it has one).
pub open spec fn spec_matches_media(
    options: SearchOptions,
    kind: MediaKind,
    format: Option<String>,
) -> bool {
    (match options.media_kind {
        Some(k) => kind == k,
        None => true,
    }) && spec_format_matches(options.format, format)
}

pub fn matches_media(options: &SearchOptions, kind: MediaKind, format: &Option<String>) -> (r: bool)
    ensures
        r == spec_matches_media(*options, kind, *format),
{
    if let Some(k) = options.media_kind {
        if kind != k {
            return false;
        }
    }
    format_matches(&options.format, format)
}

/// A record looked up by id stays in a collection only when its format
/// passes the collection's filter.
pub fn filter_by_format(format: &Option<String>, media: Option<CanonicalMedia>) -> (r: Option<
    CanonicalMedia,
>)
    ensures
        media matches Some(m) && spec_format_matches(*format, m.format) ==> r == media,
        !(media matches Some(m) && spec_format_matches(*format, m.format)) ==> r is None,
{
    match media {
        Some(m) => if format_matches(format, &m.format) {
            Some(m)
        } else {
            None
        },
        None => None,
    }
}

} // verus!
