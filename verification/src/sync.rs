//! The decisions of a paginated provider-to-catalog sync run, as a state
//! machine: the caller fetches each page, upserts its records and persists
//! the checkpoint this module computes, until the run says it is done.

use vstd::prelude::*;
use vstd::string::StringExecFns;
use crate::error::Error;
use crate::model::{
    media_kind_name, source_name, MediaKind, PersistedSyncState, SourceName, SyncCursor, SyncMode,
    SyncOutcome, SyncReport, SyncRequest,
};
use crate::text::clone_string;

verus! {

/// The scope under which a run's checkpoint is kept: the media kind's
/// name, or "all".
pub open spec fn spec_sync_scope(kind: Option<MediaKind>) -> Seq<char> {
    match kind {
        Some(k) => media_kind_name(k),
        None => "all"@,
    }
}

/// The scope name of a media kind filter.
pub fn sync_scope(kind: Option<MediaKind>) -> (r: String)
    ensures
        r@ == spec_sync_scope(kind),
{
    match kind {
        Some(k) => String::from_str(k.as_str()),
        None => String::from_str("all"),
    }
}

/// The error for a request addressed to another provider.
pub open spec fn mismatch_message(request: SourceName, provider: SourceName) -> Seq<char> {
    "sync source mismatch: request="@ + source_name(request) + " provider="@ + source_name(provider)
}

/// The cursor a run starts from: the request's, else the saved one, else
/// the first page.
pub open spec fn spec_start_cursor(start: Option<SyncCursor>, saved: Option<SyncCursor>) -> SyncCursor {
    match start {
        Some(c) => c,
        None => match saved {
            Some(c) => c,
            None => SyncCursor { page: 1 },
        },
    }
}

/// A sync run in progress.
#[derive(Debug, Clone)]
pub struct SyncRun {
    pub source: SourceName,
    pub media_kind: Option<MediaKind>,
    pub mode: SyncMode,
    pub scope: String,
    pub cursor: SyncCursor,
    pub max_pages: usize,
    pub fetched_pages: usize,
    pub upserted_records: usize,
    pub last_cursor: Option<SyncCursor>,
    pub done: bool,
}

impl SyncRun {
    /// A run never fetches more pages than it may.
    pub open spec fn wf(self) -> bool {
        self.fetched_pages <= self.max_pages
    }
}

/// Starts a run of `request` with a provider whose source is
/// `provider_source`; `saved_cursor` is the checkpoint kept for the
/// request's source and scope, if any. A request addressed to another
/// provider is refused.
pub fn sync_begin(provider_source: SourceName, request: &SyncRequest, saved_cursor: Option<SyncCursor>) -> (r:
    Result<SyncRun, Error>)
    ensures
        provider_source != request.source ==> (r matches Err(Error::Validation(m)) && m@
            == mismatch_message(request.source, provider_source)),
        provider_source == request.source ==> (r matches Ok(run) && run.wf() && run.source
            == request.source && run.media_kind == request.media_kind && run.mode == request.mode
            && run.scope@ == spec_sync_scope(request.media_kind) && run.cursor
            == spec_start_cursor(request.start_cursor, saved_cursor) && run.max_pages == (match request.max_pages {
            Some(n) => n,
            None => usize::MAX,
        }) && run.fetched_pages == 0 && run.upserted_records == 0 && run.last_cursor is None
            && !run.done),
{
    if provider_source != request.source {
        let mut m = String::from_str("sync source mismatch: request=");
        m.append(request.source.as_str());
        m.append(" provider=");
        m.append(provider_source.as_str());
        return Err(Error::Validation(m));
    }
    let cursor = match request.start_cursor {
        Some(c) => c,
        None => match saved_cursor {
            Some(c) => c,
            None => SyncCursor { page: 1 },
        },
    };
    let max_pages = match request.max_pages {
        Some(n) => n,
        None => usize::MAX,
    };
    Ok(
        SyncRun {
            source: request.source,
            media_kind: request.media_kind,
            mode: request.mode,
            scope: sync_scope(request.media_kind),
            cursor,
            max_pages,
            fetched_pages: 0,
            upserted_records: 0,
            last_cursor: None,
            done: false,
        },
    )
}

/// Whether the run fetches another page: it is not done and has not
/// fetched its maximum.
pub fn sync_should_fetch(run: &SyncRun) -> (r: bool)
    ensures
        r == (!run.done && run.fetched_pages < run.max_pages),
{
    !run.done && run.fetched_pages < run.max_pages
}

/// The checkpoint recorded after a page.
pub open spec fn checkpoint(run: SyncRun, cursor: Option<SyncCursor>, now: Seq<char>, s: PersistedSyncState) -> bool {
    &&& s.source == run.source
    &&& s.scope@ == run.scope@
    &&& s.cursor == cursor
    &&& (s.last_success_at matches Some(t) && t@ == now)
    &&& s.last_error is None
    &&& s.last_page == (match cursor {
        Some(c) => Some(c.page as i64),
        None => None,
    })
    &&& s.mode == run.mode
}

/// Records the page fetched at the run's cursor, which held `item_count`
/// records (all upserted) and pointed to `next_cursor`; `now` is the time
/// of the checkpoint. An empty page ends the run and keeps the last
/// fetched cursor; otherwise the page is counted, becomes the last fetched
/// cursor, and the run moves to the next page or ends when there is none.
/// Gives the checkpoint to persist.
pub fn sync_on_page(run: &mut SyncRun, item_count: usize, next_cursor: Option<SyncCursor>, now: &str) -> (r:
    PersistedSyncState)
    requires
        old(run).wf(),
        !old(run).done,
        old(run).fetched_pages < old(run).max_pages,
        old(run).upserted_records + item_count <= usize::MAX,
    ensures
        final(run).wf(),
        final(run).source == old(run).source && final(run).media_kind == old(run).media_kind
            && final(run).mode == old(run).mode && final(run).scope == old(run).scope
            && final(run).max_pages == old(run).max_pages,
        item_count == 0 ==> {
            &&& final(run).done
            &&& final(run).fetched_pages == old(run).fetched_pages
            &&& final(run).upserted_records == old(run).upserted_records
            &&& final(run).last_cursor == old(run).last_cursor
            &&& checkpoint(*old(run), old(run).last_cursor, now@, r)
        },
        item_count > 0 ==> {
            &&& final(run).fetched_pages == old(run).fetched_pages + 1
            &&& final(run).upserted_records == old(run).upserted_records + item_count
            &&& final(run).last_cursor == Some(old(run).cursor)
            &&& final(run).done == next_cursor is None
            &&& (next_cursor matches Some(c) ==> final(run).cursor == c)
            &&& checkpoint(*old(run), Some(old(run).cursor), now@, r)
        },
{
    if item_count == 0 {
        run.done = true;
        let last_page: Option<i64> = match run.last_cursor {
            Some(c) => Some(c.page as i64),
            None => None,
        };
        return PersistedSyncState {
            source: run.source,
            scope: clone_string(&run.scope),
            cursor: run.last_cursor,
            last_success_at: Some(String::from_str(now)),
            last_error: None,
            last_page,
            mode: run.mode,
        };
    }
    run.upserted_records = run.upserted_records + item_count;
    run.fetched_pages = run.fetched_pages + 1;
    let current = run.cursor;
    run.last_cursor = Some(current);
    match next_cursor {
        Some(c) => {
            run.cursor = c;
        },
        None => {
            run.done = true;
        },
    }
    PersistedSyncState {
        source: run.source,
        scope: clone_string(&run.scope),
        cursor: Some(current),
        last_success_at: Some(String::from_str(now)),
        last_error: None,
        last_page: Some(current.page as i64),
        mode: run.mode,
    }
}

/// The outcome of a run.
pub fn sync_outcome(run: &SyncRun) -> (r: SyncOutcome)
    ensures
        r.source == run.source && r.media_kind == run.media_kind && r.fetched_pages
            == run.fetched_pages && r.upserted_records == run.upserted_records && r.last_cursor
            == run.last_cursor,
{
    SyncOutcome {
        source: run.source,
        media_kind: run.media_kind,
        fetched_pages: run.fetched_pages,
        upserted_records: run.upserted_records,
        last_cursor: run.last_cursor,
    }
}

/// The total of the records upserted by each outcome.
pub open spec fn total_upserted(outcomes: Seq<SyncOutcome>) -> int
    decreases outcomes.len(),
{
    if outcomes.len() == 0 {
        0
    } else {
        total_upserted(outcomes.drop_last()) + outcomes.last().upserted_records
    }
}

proof fn lemma_total_monotone(outcomes: Seq<SyncOutcome>, i: int)
    requires
        0 <= i <= outcomes.len(),
    ensures
        0 <= total_upserted(outcomes.subrange(0, i)) <= total_upserted(outcomes),
    decreases outcomes.len() - i,
{
    if i < outcomes.len() {
        lemma_total_monotone(outcomes, i + 1);
        assert(outcomes.subrange(0, i + 1).drop_last() =~= outcomes.subrange(0, i));
        lemma_total_nonneg(outcomes.subrange(0, i));
    } else {
        assert(outcomes.subrange(0, i) =~= outcomes);
        lemma_total_nonneg(outcomes);
    }
}

proof fn lemma_total_nonneg(outcomes: Seq<SyncOutcome>)
    ensures
        total_upserted(outcomes) >= 0,
    decreases outcomes.len(),
{
    if outcomes.len() > 0 {
        lemma_total_nonneg(outcomes.drop_last());
    }
}

/// The report of several runs, with the total of their upserted records.
pub fn sync_report(outcomes: Vec<SyncOutcome>) -> (r: SyncReport)
    requires
        total_upserted(outcomes@) <= usize::MAX,
    ensures
        r.outcomes@ == outcomes@,
        r.total_upserted_records == total_upserted(outcomes@),
{
    let mut total: usize = 0;
    let mut i: usize = 0;
    while i < outcomes.len()
        invariant
            i <= outcomes@.len(),
            total == total_upserted(outcomes@.subrange(0, i as int)),
            total_upserted(outcomes@) <= usize::MAX,
        decreases outcomes.len() - i,
    {
        proof {
            assert(outcomes@.subrange(0, i + 1).drop_last() =~= outcomes@.subrange(0, i as int));
            lemma_total_monotone(outcomes@, i + 1);
        }
        total = total + outcomes[i].upserted_records;
        i = i + 1;
    }
    assert(outcomes@.subrange(0, outcomes@.len() as int) =~= outcomes@);
    SyncReport { outcomes, total_upserted_records: total }
}

/// The request of each default run, in order: AniList, Jikan and Kitsu for
/// anime then manga, TVmaze for shows, IMDb for shows then movies; each
/// capped at `max_pages` pages when given.
pub open spec fn default_plan(max_pages: Option<usize>) -> Seq<SyncRequest> {
    let r = |s: SourceName, k: MediaKind|
        SyncRequest {
            source: s,
            media_kind: Some(k),
            mode: SyncMode::Full,
            page_size: 50,
            max_pages,
            start_cursor: None,
        };
    seq![
        r(SourceName::AniList, MediaKind::Anime),
        r(SourceName::Jikan, MediaKind::Anime),
        r(SourceName::Kitsu, MediaKind::Anime),
        r(SourceName::AniList, MediaKind::Manga),
        r(SourceName::Jikan, MediaKind::Manga),
        r(SourceName::Kitsu, MediaKind::Manga),
        r(SourceName::Tvmaze, MediaKind::Show),
        r(SourceName::Imdb, MediaKind::Show),
        r(SourceName::Imdb, MediaKind::Movie),
    ]
}

fn plan_request(source: SourceName, kind: MediaKind, max_pages: Option<usize>) -> (r: SyncRequest)
    ensures
        r == (SyncRequest {
            source,
            media_kind: Some(kind),
            mode: SyncMode::Full,
            page_size: 50,
            max_pages,
            start_cursor: None,
        }),
{
    let req = SyncRequest::new(source).with_media_kind(kind);
    match max_pages {
        Some(n) => req.with_max_pages(n),
        None => req,
    }
}

/// The requests of the default sync, in the order they run.
pub fn default_sync_requests(max_pages: Option<usize>) -> (r: Vec<SyncRequest>)
    ensures
        r@ == default_plan(max_pages),
{
    let mut v: Vec<SyncRequest> = Vec::new();
    v.push(plan_request(SourceName::AniList, MediaKind::Anime, max_pages));
    v.push(plan_request(SourceName::Jikan, MediaKind::Anime, max_pages));
    v.push(plan_request(SourceName::Kitsu, MediaKind::Anime, max_pages));
    v.push(plan_request(SourceName::AniList, MediaKind::Manga, max_pages));
    v.push(plan_request(SourceName::Jikan, MediaKind::Manga, max_pages));
    v.push(plan_request(SourceName::Kitsu, MediaKind::Manga, max_pages));
    v.push(plan_request(SourceName::Tvmaze, MediaKind::Show, max_pages));
    v.push(plan_request(SourceName::Imdb, MediaKind::Show, max_pages));
    v.push(plan_request(SourceName::Imdb, MediaKind::Movie, max_pages));
    assert(v@ =~= default_plan(max_pages));
    v
}

/// A sync interrupted after a page resumes at that page: the checkpoint
/// recorded for the page at the run's cursor is where a later run of a
/// request without its own cursor begins.
pub proof fn lemma_resume_from_checkpoint(run: SyncRun, now: Seq<char>, state: PersistedSyncState)
    requires
        checkpoint(run, Some(run.cursor), now, state),
    ensures
        spec_start_cursor(None, state.cursor) == run.cursor,
{
}

/// Whether a stored external id is a target of the episode sync: the
/// providers whose APIs serve per-title episode lists (TVmaze, Jikan and
/// Kitsu). IMDb episodes come from bulk dumps instead.
pub fn is_episode_sync_target(source: SourceName) -> (r: bool)
    ensures
        r <==> (source == SourceName::Tvmaze || source == SourceName::Jikan || source
            == SourceName::Kitsu),
{
    match source {
        SourceName::Tvmaze | SourceName::Jikan | SourceName::Kitsu => true,
        _ => false,
    }
}

} // verus!
