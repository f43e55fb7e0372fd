use animedb::model::{parse_media_kind, parse_source, parse_sync_mode};
use animedb::{Error, ExternalId, MediaKind, SourceName, SyncCursor, SyncMode, SyncRequest};

#[test]
fn invalid_media_kind_rejected() {
    let result = "tvshow".parse::<MediaKind>();
    assert!(result.is_err());
    let result = "film".parse::<MediaKind>();
    assert!(result.is_err());
}

#[test]
fn invalid_source_name_rejected() {
    let result = "netflix".parse::<SourceName>();
    assert!(result.is_err());
}

#[test]
fn media_kind_names_round_trip() {
    for kind in [MediaKind::Anime, MediaKind::Manga, MediaKind::Show, MediaKind::Movie] {
        assert_eq!(parse_media_kind(kind.as_str()).unwrap(), kind);
    }
    assert_eq!("MOVIE".parse::<MediaKind>().unwrap(), MediaKind::Movie);
}

#[test]
fn source_names_round_trip() {
    for source in [
        SourceName::AniList,
        SourceName::MyAnimeList,
        SourceName::Jikan,
        SourceName::Kitsu,
        SourceName::Tvmaze,
        SourceName::Imdb,
    ] {
        assert_eq!(parse_source(source.as_str()).unwrap(), source);
    }
}

#[test]
fn unsupported_kind_message_names_the_value() {
    match parse_media_kind("film") {
        Err(Error::Validation(m)) => assert_eq!(m, "unsupported media kind: film"),
        other => panic!("unexpected {:?}", other),
    }
    match parse_source("netflix") {
        Err(Error::Validation(m)) => assert_eq!(m, "unsupported source: netflix"),
        other => panic!("unexpected {:?}", other),
    }
}

#[test]
fn sync_mode_names_round_trip() {
    assert_eq!(parse_sync_mode("full").unwrap(), SyncMode::Full);
    assert_eq!(parse_sync_mode(SyncMode::Incremental.as_str()).unwrap(), SyncMode::Incremental);
    assert!(parse_sync_mode("partial").is_err());
}

#[test]
fn strong_identities_are_anilist_and_myanimelist() {
    let id = |source| ExternalId { source, source_id: "1".into(), url: None };
    assert!(id(SourceName::AniList).is_strong_identity());
    assert!(id(SourceName::MyAnimeList).is_strong_identity());
    assert!(!id(SourceName::Kitsu).is_strong_identity());
}

#[test]
fn request_builders_set_their_field() {
    let r = SyncRequest::new(SourceName::Kitsu)
        .with_mode(SyncMode::Incremental)
        .with_page_size(10)
        .with_max_pages(3)
        .with_start_cursor(SyncCursor { page: 4 })
        .with_media_kind(MediaKind::Manga);
    assert_eq!(r.mode, SyncMode::Incremental);
    assert_eq!(r.page_size, 10);
    assert_eq!(r.max_pages, Some(3));
    assert_eq!(r.start_cursor, Some(SyncCursor { page: 4 }));
    assert_eq!(r.media_kind, Some(MediaKind::Manga));
    assert_eq!(SyncRequest::new(SourceName::Imdb).page_size, 50);
    assert_eq!(SyncCursor::default().page, 1);
}
