use animedb::remote::{
    aggregate_episode_fetches, anime_collection_options, collection_kind, episode_fetch_candidates,
    filter_by_format, format_matches, movie_collection_options, provider_not_found,
    show_collection_options, tv_movie_collection_options, unsupported_operation,
};
use animedb::{
    merge_canonical_episodes_by_effective_number, CanonicalEpisode, CanonicalMedia,
    EpisodeFetchCandidate, Error, ExternalId, MediaKind, RemoteSource, SourceName,
};

#[test]
fn movie_collection_defaults_to_anime_movie_format() {
    let options = movie_collection_options();
    assert_eq!(options.media_kind, Some(MediaKind::Anime));
    assert_eq!(options.format.as_deref(), Some("MOVIE"));
}

#[test]
fn collections_scope_their_kind() {
    assert_eq!(anime_collection_options().media_kind, Some(MediaKind::Anime));
    assert_eq!(show_collection_options().media_kind, Some(MediaKind::Show));
    assert_eq!(tv_movie_collection_options().media_kind, Some(MediaKind::Movie));
    assert_eq!(collection_kind(&show_collection_options()), MediaKind::Show);
    assert_eq!(collection_kind(&animedb::SearchOptions::default()), MediaKind::Anime);
    assert_eq!(RemoteSource::Tvmaze.as_str(), "tvmaze");
    assert_eq!(RemoteSource::Kitsu.source(), SourceName::Kitsu);
}

#[test]
fn episode_fetch_candidates_map_external_ids_to_episode_providers() {
    let external_ids = vec![
        ExternalId { source: SourceName::AniList, source_id: "1".into(), url: None },
        ExternalId { source: SourceName::MyAnimeList, source_id: "19".into(), url: None },
        ExternalId { source: SourceName::Jikan, source_id: "19".into(), url: None },
        ExternalId { source: SourceName::Kitsu, source_id: "42".into(), url: None },
    ];

    let candidates = episode_fetch_candidates(MediaKind::Anime, &external_ids);

    assert_eq!(
        candidates,
        vec![
            EpisodeFetchCandidate { source: SourceName::Jikan, source_id: "19".into() },
            EpisodeFetchCandidate { source: SourceName::Kitsu, source_id: "42".into() }
        ]
    );
}

#[test]
fn show_candidates_use_tvmaze_only() {
    let external_ids = vec![
        ExternalId { source: SourceName::Imdb, source_id: "tt0903747".into(), url: None },
        ExternalId { source: SourceName::Tvmaze, source_id: "169".into(), url: None },
        ExternalId { source: SourceName::Jikan, source_id: "5".into(), url: None },
    ];
    let candidates = episode_fetch_candidates(MediaKind::Show, &external_ids);
    assert_eq!(
        candidates,
        vec![EpisodeFetchCandidate { source: SourceName::Tvmaze, source_id: "169".into() }]
    );
}

fn provider_episode(source: SourceName, source_id: &str, title: String, runtime: Option<i32>) -> CanonicalEpisode {
    CanonicalEpisode {
        source,
        source_id: format!("ep-{source_id}"),
        media_kind: MediaKind::Anime,
        season_number: Some(1),
        episode_number: Some(1),
        absolute_number: Some(1),
        title_display: Some(title),
        title_original: None,
        synopsis: None,
        air_date: None,
        runtime_minutes: runtime,
        thumbnail_url: None,
        raw_titles_json: None,
        raw_json: None,
    }
}

fn candidates() -> Vec<EpisodeFetchCandidate> {
    vec![
        EpisodeFetchCandidate { source: SourceName::Jikan, source_id: "19".into() },
        EpisodeFetchCandidate { source: SourceName::Kitsu, source_id: "42".into() },
    ]
}

#[test]
fn episode_aggregation_collects_successes_and_ignores_failed_candidates() {
    let results = vec![
        Ok(vec![provider_episode(SourceName::Jikan, "19", "Episode 1".into(), None)]),
        Err("test failure".to_string()),
    ];
    let episodes = aggregate_episode_fetches(&candidates(), results).unwrap();

    assert_eq!(episodes.len(), 1);
    assert_eq!(episodes[0].source, SourceName::Jikan);
}

#[test]
fn merged_episode_fetch_deduplicates_provider_results() {
    let results = vec![
        Ok(vec![provider_episode(SourceName::Jikan, "19", "jikan title".into(), None)]),
        Ok(vec![provider_episode(SourceName::Kitsu, "42", "kitsu title".into(), Some(24))]),
    ];
    let raw = aggregate_episode_fetches(&candidates(), results).unwrap();
    let episodes = merge_canonical_episodes_by_effective_number(&raw);

    assert_eq!(episodes.len(), 1);
    assert_eq!(episodes[0].source, SourceName::Jikan);
    assert_eq!(episodes[0].title_display.as_deref(), Some("jikan title"));
    assert_eq!(episodes[0].runtime_minutes, Some(24));
}

#[test]
fn aggregation_fails_when_every_candidate_fails() {
    let results = vec![Err("timeout".to_string()), Err("404".to_string())];
    match aggregate_episode_fetches(&candidates(), results) {
        Err(Error::Validation(m)) => assert_eq!(
            m,
            "episode aggregation failed for all candidates: jikan:19 failed: timeout; kitsu:42 failed: 404"
        ),
        other => panic!("unexpected {:?}", other),
    }
}

#[test]
fn provider_errors_name_the_source() {
    match provider_not_found(SourceName::Imdb) {
        Error::Validation(m) => assert_eq!(m, "Provider not found for source: imdb"),
        other => panic!("unexpected {:?}", other),
    }
    match unsupported_operation(SourceName::AniList, "episode metadata") {
        Error::Validation(m) => assert_eq!(m, "anilist does not support episode metadata"),
        other => panic!("unexpected {:?}", other),
    }
}

fn bare(format: Option<&str>) -> CanonicalMedia {
    CanonicalMedia {
        media_kind: MediaKind::Anime,
        title_display: "Perfect Blue".into(),
        title_romaji: None,
        title_english: None,
        title_native: None,
        synopsis: None,
        format: format.map(str::to_string),
        status: None,
        season: None,
        season_year: None,
        episodes: None,
        chapters: None,
        volumes: None,
        country_of_origin: None,
        cover_image: None,
        banner_image: None,
        provider_rating: None,
        nsfw: false,
        aliases: vec![],
        genres: vec![],
        tags: vec![],
        external_ids: vec![],
        source_payloads: vec![],
        field_provenance: vec![],
    }
}

#[test]
fn lookups_by_id_keep_only_matching_formats() {
    let movie = Some("MOVIE".to_string());
    assert!(filter_by_format(&movie, Some(bare(Some("movie")))).is_some());
    assert!(filter_by_format(&movie, Some(bare(Some("TV")))).is_none());
    assert!(filter_by_format(&movie, Some(bare(None))).is_none());
    assert!(filter_by_format(&None, Some(bare(None))).is_some());
    assert!(format_matches(&movie, &Some("Movie".to_string())));
}
