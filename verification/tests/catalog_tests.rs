use animedb::api::{
    max_pages_input, remote_lookup_options, remote_search_allowed, search_options_from,
    single_outcome_report, sync_input_request,
};
use animedb::repository::common::{
    build_fts_query, normalize_aliases, normalize_for_lookup, stable_payload_hash,
};
use animedb::repository::episodes::group_episode_records;
use animedb::repository::media::{ensure_no_conflicts, first_resolved, fts_aliases, unique_media_id};
use animedb::repository::search::search_plan;
use animedb::{
    EpisodeSourceRecord, Error, ExternalId, MediaKind, SearchOptions, SourceName, SyncOutcome,
};

#[test]
fn lookup_keys_are_lowercase_single_spaced() {
    assert_eq!(normalize_for_lookup("  Fullmetal   Alchemist: Brotherhood! "), "fullmetal alchemist brotherhood");
    assert_eq!(normalize_for_lookup("Naruto\tShippuden"), "naruto shippuden");
    assert_eq!(normalize_for_lookup("!!!"), "");
}

#[test]
fn fts_query_uses_prefix_terms() {
    assert_eq!(build_fts_query("Serial Killer, Europe").unwrap(), "serial* killer* europe*");
    assert_eq!(build_fts_query("a b").unwrap(), "a b");
    match build_fts_query("   ") {
        Err(Error::Validation(m)) => assert_eq!(m, "search query cannot be empty"),
        other => panic!("unexpected {:?}", other),
    }
}

#[test]
fn aliases_are_trimmed_and_case_insensitively_unique() {
    let aliases = vec![
        " Monster ".to_string(),
        "".to_string(),
        "MONSTER".to_string(),
        "Monstruo".to_string(),
    ];
    assert_eq!(normalize_aliases(&aliases), vec!["Monster", "Monstruo"]);
    assert_eq!(fts_aliases(&aliases), "Monster Monstruo");
}

#[test]
fn payload_hash_is_byte_length() {
    assert_eq!(stable_payload_hash("{\"a\":1}").unwrap(), "7");
    assert_eq!(stable_payload_hash("é").unwrap(), "2");
}

#[test]
fn write_path_resolution_and_conflicts() {
    assert_eq!(first_resolved(&vec![None, Some(4), Some(9)]), Some(4));
    assert_eq!(first_resolved(&vec![None, None]), None);
    let ids = vec![
        ExternalId { source: SourceName::Tvmaze, source_id: "169".into(), url: None },
        ExternalId { source: SourceName::Imdb, source_id: "tt0903747".into(), url: None },
    ];
    assert!(ensure_no_conflicts(Some(4), &ids, &vec![Some(4), None]).is_ok());
    assert!(ensure_no_conflicts(None, &ids, &vec![Some(4), Some(5)]).is_ok());
    match ensure_no_conflicts(Some(4), &ids, &vec![Some(4), Some(5)]) {
        Err(Error::ConflictingExternalId { provider, source_id }) => {
            assert_eq!(provider, "imdb");
            assert_eq!(source_id, "tt0903747");
        }
        other => panic!("unexpected {:?}", other),
    }
}

#[test]
fn bare_external_id_lookup_needs_one_record() {
    assert!(matches!(unique_media_id(SourceName::Imdb, "tt1", &vec![]), Err(Error::NotFound)));
    assert_eq!(unique_media_id(SourceName::Imdb, "tt1", &vec![3]).unwrap(), 3);
    match unique_media_id(SourceName::Imdb, "tt1", &vec![3, 8]) {
        Err(Error::ConflictingExternalId { provider, source_id }) => {
            assert_eq!(provider, "imdb");
            assert_eq!(source_id, "tt1");
        }
        other => panic!("unexpected {:?}", other),
    }
}

#[test]
fn search_plan_normalizes_page_and_format() {
    let options = SearchOptions::default().with_limit(0).with_offset(5).with_format("movie");
    let plan = search_plan("Spirited Away", &options).unwrap();
    assert_eq!(plan.fts_query, "spirited* away*");
    assert_eq!(plan.limit, 1);
    assert_eq!(plan.offset, 5);
    assert_eq!(plan.format_upper.as_deref(), Some("MOVIE"));
}

fn rec(id: i64, source: SourceName, abs: Option<i32>, season: Option<i32>, ep: Option<i32>) -> EpisodeSourceRecord {
    EpisodeSourceRecord {
        id,
        episode_id: None,
        source,
        source_id: format!("s{id}"),
        media_id: 1,
        media_kind: MediaKind::Anime,
        season_number: season,
        episode_number: ep,
        absolute_number: abs,
        title_display: None,
        title_original: None,
        titles_json: None,
        synopsis: None,
        air_date: None,
        runtime_minutes: None,
        thumbnail_url: None,
        raw_json: None,
        fetched_at: "0".into(),
    }
}

#[test]
fn source_records_group_by_episode_identity() {
    let records = vec![
        rec(1, SourceName::Jikan, Some(13), None, None),
        rec(2, SourceName::Kitsu, None, Some(2), Some(1)),
        rec(3, SourceName::Kitsu, Some(13), Some(2), Some(1)),
        rec(4, SourceName::Tvmaze, None, Some(2), Some(1)),
        rec(5, SourceName::Tvmaze, None, None, None),
    ];
    let groups = group_episode_records(records);
    let ids: Vec<Vec<i64>> = groups.iter().map(|g| g.iter().map(|r| r.id).collect()).collect();
    assert_eq!(ids, vec![vec![1, 3], vec![2, 4], vec![5]]);
}

#[test]
fn search_input_clamps_limit_and_offset() {
    let o = search_options_from(Some(-3), Some(-1), Some(MediaKind::Show), Some("TV".into()));
    assert_eq!(o.limit, 1);
    assert_eq!(o.offset, 0);
    assert_eq!(o.media_kind, Some(MediaKind::Show));
    assert_eq!(o.format.as_deref(), Some("TV"));
    let d = search_options_from(None, None, None, None);
    assert_eq!(d, SearchOptions::default());
    assert_eq!(max_pages_input(Some(0)), Some(1));
    assert_eq!(max_pages_input(None), None);
}

#[test]
fn sync_input_refuses_myanimelist() {
    match sync_input_request(SourceName::MyAnimeList, None, None, None) {
        Err(Error::Validation(m)) => assert_eq!(
            m,
            "sync direto para MyAnimeList não existe; use AniList, Jikan, Kitsu, Tvmaze ou Imdb"
        ),
        other => panic!("unexpected {:?}", other),
    }
    let r = sync_input_request(SourceName::Kitsu, Some(MediaKind::Manga), Some(0), Some(4)).unwrap();
    assert_eq!(r.page_size, 1);
    assert_eq!(r.max_pages, Some(4));
    assert_eq!(r.media_kind, Some(MediaKind::Manga));
}

#[test]
fn remote_operations_per_source() {
    assert!(remote_search_allowed(SourceName::Kitsu).is_ok());
    match remote_search_allowed(SourceName::Imdb) {
        Err(Error::Validation(m)) => assert_eq!(
            m,
            "IMDb remote search requires downloading the full dataset; use sync instead"
        ),
        other => panic!("unexpected {:?}", other),
    }
    assert_eq!(
        remote_lookup_options(SourceName::Jikan, MediaKind::Movie).unwrap().media_kind,
        Some(MediaKind::Anime)
    );
    assert_eq!(
        remote_lookup_options(SourceName::Tvmaze, MediaKind::Anime).unwrap().media_kind,
        Some(MediaKind::Show)
    );
    assert!(remote_lookup_options(SourceName::MyAnimeList, MediaKind::Anime).is_err());
    let report = single_outcome_report(SyncOutcome {
        source: SourceName::Jikan,
        media_kind: None,
        fetched_pages: 2,
        upserted_records: 5,
        last_cursor: None,
    });
    assert_eq!(report.total_upserted_records, 5);
}

#[test]
fn lookup_key_is_its_own_lookup_key() {
    for text in ["  Fullmetal   Alchemist: BROTHERHOOD!! ", "Ōkami—Den", "tab\there", ""] {
        let once = normalize_for_lookup(text);
        assert_eq!(normalize_for_lookup(&once), once);
    }
    assert_eq!(normalize_for_lookup("Fullmetal Alchemist: BROTHERHOOD!!"), "fullmetal alchemist brotherhood");
}

#[test]
fn normalized_aliases_are_clean_and_stable() {
    let aliases = vec![
        "  Cowboy Bebop ".to_string(),
        "   ".to_string(),
        "COWBOY BEBOP".to_string(),
        "Kauboi Bibappu".to_string(),
    ];
    let once = normalize_aliases(&aliases);
    assert_eq!(once, vec!["Cowboy Bebop", "Kauboi Bibappu"]);
    assert_eq!(normalize_aliases(&once), once);
}
