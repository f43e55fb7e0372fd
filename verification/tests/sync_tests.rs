use animedb::sync::is_episode_sync_target;
use animedb::sync::{
    default_sync_requests, sync_begin, sync_on_page, sync_outcome, sync_report, sync_scope,
    sync_should_fetch,
};
use animedb::{
    Error, MediaKind, PersistedSyncState, SourceName, SyncCursor, SyncOutcome, SyncRequest,
};

/// A provider with fixed pages of records: page `n` (1-based) holds
/// `pages[n - 1]` records and points to the next page while there is one.
struct PagedSource {
    pages: Vec<usize>,
}

impl PagedSource {
    fn fetch(&self, cursor: SyncCursor) -> (usize, Option<SyncCursor>) {
        let idx = cursor.page.saturating_sub(1);
        let items = self.pages.get(idx).copied().unwrap_or(0);
        let next = if cursor.page < self.pages.len() {
            Some(SyncCursor { page: cursor.page + 1 })
        } else {
            None
        };
        (items, next)
    }
}

struct Trace {
    calls: Vec<usize>,
    checkpoints: Vec<PersistedSyncState>,
}

fn drive(
    provider_source: SourceName,
    source: &PagedSource,
    request: SyncRequest,
    saved: Option<SyncCursor>,
) -> (Result<SyncOutcome, Error>, Trace) {
    let mut trace = Trace { calls: Vec::new(), checkpoints: Vec::new() };
    let mut run = match sync_begin(provider_source, &request, saved) {
        Ok(run) => run,
        Err(e) => return (Err(e), trace),
    };
    while sync_should_fetch(&run) {
        trace.calls.push(run.cursor.page);
        let (items, next) = source.fetch(run.cursor);
        let state = sync_on_page(&mut run, items, next, "1700000000");
        trace.checkpoints.push(state);
    }
    (Ok(sync_outcome(&run)), trace)
}

fn two_pages() -> PagedSource {
    PagedSource { pages: vec![1, 1] }
}

#[test]
fn sync_from_paginates_through_all_pages() {
    let (outcome, trace) = drive(SourceName::Jikan, &two_pages(), SyncRequest::new(SourceName::Jikan), None);
    let outcome = outcome.unwrap();

    assert_eq!(outcome.fetched_pages, 2);
    assert_eq!(outcome.upserted_records, 2);
    assert_eq!(
        outcome.last_cursor.as_ref().map(|c| c.page),
        Some(2),
        "last_cursor should be page 2 after exhausting 2 pages"
    );
    assert_eq!(trace.calls.len(), 2);
    assert_eq!(trace.calls[0], 1);
    assert_eq!(trace.calls[1], 2);
}

#[test]
fn sync_from_validates_source_mismatch() {
    let (result, _) = drive(
        SourceName::Tvmaze,
        &PagedSource { pages: vec![] },
        SyncRequest::new(SourceName::Jikan).with_max_pages(1),
        None,
    );
    assert!(result.is_err());
    match result.unwrap_err() {
        Error::Validation(m) => {
            assert!(m.contains("mismatch"), "expected mismatch error, got: {m}");
            assert_eq!(m, "sync source mismatch: request=jikan provider=tvmaze");
        }
        other => panic!("expected mismatch error, got: {other:?}"),
    }
}

#[test]
fn sync_from_persists_cursor_after_each_page() {
    let (_, trace) = drive(SourceName::Jikan, &two_pages(), SyncRequest::new(SourceName::Jikan), None);
    assert_eq!(trace.checkpoints.len(), 2);
    let state = trace.checkpoints.last().unwrap();
    assert_eq!(state.scope, "all");
    assert!(state.cursor.is_some(), "cursor should be persisted after sync completes");
    assert_eq!(
        state.cursor.as_ref().unwrap().page,
        2,
        "cursor should be the last fetched page (2) after exhausting pages"
    );
    assert_eq!(state.last_page, Some(2));
    assert_eq!(state.last_success_at.as_deref(), Some("1700000000"));
    assert_eq!(trace.checkpoints[0].cursor, Some(SyncCursor { page: 1 }));
}

#[test]
fn sync_from_resumes_from_prior_cursor() {
    let source = PagedSource { pages: vec![1, 1, 1] };
    let (_, trace) = drive(
        SourceName::Jikan,
        &source,
        SyncRequest::new(SourceName::Jikan).with_start_cursor(SyncCursor { page: 2 }),
        None,
    );
    assert_eq!(trace.calls.first().copied(), Some(2), "resume should start from saved cursor page 2");
}

#[test]
fn sync_resumes_from_saved_checkpoint_without_start_cursor() {
    let source = PagedSource { pages: vec![1, 1, 1] };
    let (_, trace) = drive(SourceName::Jikan, &source, SyncRequest::new(SourceName::Jikan), Some(SyncCursor { page: 3 }));
    assert_eq!(trace.calls, vec![3]);
}

#[test]
fn sync_stops_at_max_pages() {
    let source = PagedSource { pages: vec![2, 2, 2] };
    let (outcome, trace) = drive(
        SourceName::Kitsu,
        &source,
        SyncRequest::new(SourceName::Kitsu).with_media_kind(MediaKind::Manga).with_max_pages(2),
        None,
    );
    let outcome = outcome.unwrap();
    assert_eq!(outcome.fetched_pages, 2);
    assert_eq!(outcome.upserted_records, 4);
    assert_eq!(trace.calls, vec![1, 2]);
    assert_eq!(trace.checkpoints[1].scope, "manga");
}

#[test]
fn empty_page_ends_run_and_keeps_last_cursor() {
    let source = PagedSource { pages: vec![3, 0, 5] };
    let (outcome, trace) = drive(SourceName::AniList, &source, SyncRequest::new(SourceName::AniList), None);
    let outcome = outcome.unwrap();
    assert_eq!(outcome.fetched_pages, 1);
    assert_eq!(outcome.upserted_records, 3);
    assert_eq!(trace.calls, vec![1, 2]);
    let last = trace.checkpoints.last().unwrap();
    assert_eq!(last.cursor, Some(SyncCursor { page: 1 }));
    assert_eq!(last.last_page, Some(1));
}

#[test]
fn default_plan_covers_every_provider_in_order() {
    let plan = default_sync_requests(None);
    let pairs: Vec<(SourceName, Option<MediaKind>)> =
        plan.iter().map(|r| (r.source, r.media_kind)).collect();
    assert_eq!(
        pairs,
        vec![
            (SourceName::AniList, Some(MediaKind::Anime)),
            (SourceName::Jikan, Some(MediaKind::Anime)),
            (SourceName::Kitsu, Some(MediaKind::Anime)),
            (SourceName::AniList, Some(MediaKind::Manga)),
            (SourceName::Jikan, Some(MediaKind::Manga)),
            (SourceName::Kitsu, Some(MediaKind::Manga)),
            (SourceName::Tvmaze, Some(MediaKind::Show)),
            (SourceName::Imdb, Some(MediaKind::Show)),
            (SourceName::Imdb, Some(MediaKind::Movie)),
        ]
    );
    assert!(plan.iter().all(|r| r.max_pages.is_none()));
    assert!(default_sync_requests(Some(3)).iter().all(|r| r.max_pages == Some(3)));
}

#[test]
fn report_sums_upserted_records() {
    let outcome = |n: usize| SyncOutcome {
        source: SourceName::Jikan,
        media_kind: None,
        fetched_pages: 1,
        upserted_records: n,
        last_cursor: None,
    };
    let report = sync_report(vec![outcome(3), outcome(4), outcome(0)]);
    assert_eq!(report.total_upserted_records, 7);
    assert_eq!(report.outcomes.len(), 3);
    assert_eq!(sync_scope(None), "all");
    assert_eq!(sync_scope(Some(MediaKind::Movie)), "movie");
}

#[test]
fn episode_sync_targets_are_per_title_episode_providers() {
    assert!(is_episode_sync_target(animedb::SourceName::Tvmaze));
    assert!(is_episode_sync_target(animedb::SourceName::Jikan));
    assert!(is_episode_sync_target(animedb::SourceName::Kitsu));
    assert!(!is_episode_sync_target(animedb::SourceName::Imdb));
    assert!(!is_episode_sync_target(animedb::SourceName::AniList));
    assert!(!is_episode_sync_target(animedb::SourceName::MyAnimeList));
}
