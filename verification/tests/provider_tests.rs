use animedb::provider::anilist::{
    self, AniListCoverImage, AniListMedia, AniListPage, AniListTitle,
};
use animedb::provider::http::{clamp_page_size, page_to_offset, retry_after_rate_limit, RetryStep};
use animedb::provider::imdb::{
    by_id_step, imdb_i32, imdb_str, page_scan_new, page_scan_next_cursor, page_scan_step,
    parse_basics_line, parse_title_type, search_step, split_ratings_line, RowAction,
};
use animedb::provider::jikan::{
    self, JikanImageSet, JikanMedia, JikanPartialEntry, JikanRelationEntry, JikanTrailer,
};
use animedb::provider::kitsu::{
    self, KitsuAttributes, KitsuEpisodeAttributes, KitsuEpisodeResource, KitsuImageSet,
    KitsuIncluded, KitsuMapping, KitsuRef, KitsuRelationships, KitsuResource, KitsuTitles,
};
use animedb::provider::tvmaze::{self, strip_html, TvmazeChannel, TvmazeCountry, TvmazeImage, TvmazeShow};
use animedb::provider::{parse_provider_id, search_query};
use animedb::{Error, MediaKind, SourceName, SyncCursor};

fn anilist_media(id: i64) -> AniListMedia {
    AniListMedia {
        id,
        id_mal: Some(19),
        title: AniListTitle {
            romaji: Some("Monster".into()),
            english: None,
            native: Some("モンスター".into()),
        },
        synonyms: vec!["MONSTER".into()],
        description: Some("Dr. Tenma".into()),
        format: Some("TV".into()),
        status: Some("FINISHED".into()),
        episodes: Some(74),
        chapters: None,
        volumes: None,
        country_of_origin: Some("JP".into()),
        season: Some("SPRING".into()),
        season_year: Some(2004),
        genres: vec!["Drama".into()],
        updated_at: Some(1700000000),
        site_url: Some("https://anilist.co/anime/19".into()),
        is_adult: None,
        average_score: Some(8800),
        banner_image: None,
        cover_image: Some(AniListCoverImage {
            medium: Some("m.jpg".into()),
            large: Some("l.jpg".into()),
            extra_large: None,
        }),
        tags: vec!["Psychological".into()],
        raw_json: "{\"id\":19}".into(),
    }
}

#[test]
fn anilist_record_maps_onto_canonical_model() {
    let m = anilist::into_canonical(anilist_media(19), MediaKind::Anime).unwrap();
    assert_eq!(m.title_display, "Monster");
    assert_eq!(m.season.as_deref(), Some("spring"));
    assert_eq!(m.cover_image.as_deref(), Some("l.jpg"));
    assert_eq!(m.provider_rating, Some(8800));
    assert!(!m.nsfw);
    assert_eq!(m.external_ids.len(), 2);
    assert_eq!(m.external_ids[0].source, SourceName::AniList);
    assert_eq!(m.external_ids[0].source_id, "19");
    assert_eq!(m.external_ids[1].source, SourceName::MyAnimeList);
    assert_eq!(m.external_ids[1].source_id, "19");
    assert_eq!(m.source_payloads[0].remote_updated_at.as_deref(), Some("1700000000"));
    assert_eq!(m.source_payloads[0].raw_json.as_deref(), Some("{\"id\":19}"));
    assert_eq!(m.aliases, vec!["MONSTER"]);
    assert_eq!(m.tags, vec!["Psychological"]);
}

#[test]
fn anilist_record_without_title_is_refused() {
    let mut item = anilist_media(-7);
    item.title = AniListTitle { romaji: None, english: None, native: None };
    match anilist::into_canonical(item, MediaKind::Anime) {
        Err(Error::Validation(m)) => assert_eq!(m, "AniList media -7 has no usable title"),
        other => panic!("unexpected {:?}", other),
    }
}

#[test]
fn anilist_scores_are_clamped() {
    let mut item = anilist_media(1);
    item.average_score = Some(12000);
    assert_eq!(anilist::into_canonical(item, MediaKind::Anime).unwrap().provider_rating, Some(10000));
    let mut item = anilist_media(1);
    item.average_score = Some(-5);
    assert_eq!(anilist::into_canonical(item, MediaKind::Anime).unwrap().provider_rating, Some(0));
}

#[test]
fn anilist_errors_and_page_limit() {
    let errors = vec!["bad".to_string(), "worse".to_string()];
    match anilist::check_errors(&errors) {
        Err(Error::Validation(m)) => assert_eq!(m, "AniList API errors: bad, worse"),
        other => panic!("unexpected {:?}", other),
    }
    assert!(anilist::check_errors(&vec![]).is_ok());
    let limit = vec!["Page must be between 1 and 100".to_string()];
    assert!(anilist::is_anilist_page_exhausted(&limit));
    assert!(!anilist::is_anilist_page_exhausted(&errors));
    let page = anilist::page_result(&limit, None, MediaKind::Anime, SyncCursor { page: 101 }).unwrap();
    assert!(page.items.is_empty());
    assert!(page.next_cursor.is_none());
    assert_eq!(anilist::media_kind_str(MediaKind::Show), "ANIME");
    assert_eq!(anilist::media_kind_str(MediaKind::Manga), "MANGA");
}

#[test]
fn anilist_page_maps_records_and_cursor() {
    let page = AniListPage { has_next_page: true, media: vec![anilist_media(1), anilist_media(2)] };
    let fp = anilist::page_result(&vec![], Some(page), MediaKind::Anime, SyncCursor { page: 4 }).unwrap();
    assert_eq!(fp.items.len(), 2);
    assert_eq!(fp.next_cursor, Some(SyncCursor { page: 5 }));
    match anilist::page_result(&vec![], None, MediaKind::Anime, SyncCursor { page: 1 }) {
        Err(Error::Validation(m)) => assert_eq!(m, "AniList response missing data"),
        other => panic!("unexpected {:?}", other),
    }
}

#[test]
fn anilist_search_filters_by_format() {
    let mut movie = anilist_media(3);
    movie.format = Some("MOVIE".into());
    let page = AniListPage { has_next_page: false, media: vec![anilist_media(1), movie] };
    let items =
        anilist::search_result(&vec![], Some(page), MediaKind::Anime, &Some("movie".into())).unwrap();
    assert_eq!(items.len(), 1);
    assert_eq!(items[0].external_ids[0].source_id, "3");
}

#[test]
fn anilist_linked_records_skip_missing_nodes() {
    let linked = vec![None, Some(anilist_media(5)), None];
    let items = anilist::linked_result(&vec![], linked, MediaKind::Anime).unwrap();
    assert_eq!(items.len(), 1);
}

fn jikan_media() -> JikanMedia {
    JikanMedia {
        mal_id: 19,
        url: Some("https://myanimelist.net/anime/19".into()),
        title: Some("Monster".into()),
        title_english: Some("Monster".into()),
        title_japanese: None,
        title_synonyms: vec!["Naoki Urasawa's Monster".into()],
        titles: vec![Some("Default".into()), None],
        synopsis: None,
        media_type: Some("TV".into()),
        status: None,
        episodes: Some(74),
        chapters: None,
        volumes: None,
        season: Some("spring".into()),
        year: Some(2004),
        score: Some(889),
        rating: Some("R+ - Mild Nudity".into()),
        images: JikanImageSet { image_url: Some("s.jpg".into()), large_image_url: None },
        trailer: Some(JikanTrailer { maximum_image_url: Some("t.jpg".into()) }),
        genres: vec!["Drama".into()],
        themes: vec!["Adult Cast".into()],
        demographics: vec!["Seinen".into()],
        raw_json: "{}".into(),
    }
}

#[test]
fn jikan_record_maps_onto_canonical_model() {
    let m = jikan::into_canonical(jikan_media(), MediaKind::Anime).unwrap();
    assert_eq!(m.title_display, "Monster");
    assert_eq!(m.aliases, vec!["Default", "Naoki Urasawa's Monster", "Monster"]);
    assert_eq!(m.tags, vec!["Adult Cast", "Seinen"]);
    assert_eq!(m.cover_image.as_deref(), Some("s.jpg"));
    assert_eq!(m.banner_image.as_deref(), Some("t.jpg"));
    assert_eq!(m.provider_rating, Some(8890));
    assert!(m.nsfw);
    assert_eq!(m.external_ids[0].source, SourceName::Jikan);
    assert_eq!(m.external_ids[1].source, SourceName::MyAnimeList);
    assert_eq!(jikan::kind_path(MediaKind::Movie), "manga");
    assert!(!jikan::is_nsfw(&Some("PG-13".into())));
    assert!(jikan::is_nsfw(&Some("Rx - Hentai".into())));
}

#[test]
fn jikan_entries_map_to_partial_records() {
    let rec = jikan::partial_entry_into_canonical(
        JikanPartialEntry {
            mal_id: 1,
            url: "u1".into(),
            images: Some(JikanImageSet { image_url: Some("a".into()), large_image_url: Some("b".into()) }),
            title: "Cowboy Bebop".into(),
        },
        MediaKind::Anime,
    );
    assert_eq!(rec.title_romaji.as_deref(), Some("Cowboy Bebop"));
    assert_eq!(rec.cover_image.as_deref(), Some("b"));
    let rel = jikan::relation_entry_into_canonical(JikanRelationEntry {
        mal_id: 2,
        kind: "manga".into(),
        name: "Bebop".into(),
        url: "u2".into(),
    });
    assert_eq!(rel.media_kind, MediaKind::Manga);
    assert_eq!(rel.external_ids[0].source_id, "2");
    let related = jikan::related_result(vec![
        vec![JikanRelationEntry { mal_id: 3, kind: "anime".into(), name: "A".into(), url: "x".into() }],
        vec![],
        vec![JikanRelationEntry { mal_id: 4, kind: "manga".into(), name: "B".into(), url: "y".into() }],
    ]);
    assert_eq!(related.len(), 2);
    assert_eq!(related[1].media_kind, MediaKind::Manga);
}

fn kitsu_resource() -> KitsuResource {
    KitsuResource {
        id: "1".into(),
        attributes: KitsuAttributes {
            updated_at: Some("2024-01-01".into()),
            description: Some("desc".into()),
            synopsis: None,
            canonical_title: Some("Cowboy Bebop".into()),
            titles: KitsuTitles {
                en: Some("Cowboy Bebop".into()),
                en_jp: Some("Cowboy Bebop".into()),
                ja_jp: None,
            },
            abbreviated_titles: vec!["COWBOY BEBOP".into()],
            average_rating: Some(8245),
            start_date: Some("1998-04-03".into()),
            age_rating: Some("R18".into()),
            status: Some("finished".into()),
            episode_count: Some(26),
            chapter_count: None,
            volume_count: None,
            subtype: Some("TV".into()),
            nsfw: Some(false),
            cover_image: None,
            poster_image: Some(KitsuImageSet {
                tiny: Some("t".into()),
                small: None,
                medium: Some("m".into()),
                large: None,
                original: None,
            }),
        },
        relationships: Some(KitsuRelationships {
            categories: Some(vec![
                KitsuRef { id: "c1".into(), kind: "categories".into() },
                KitsuRef { id: "c9".into(), kind: "categories".into() },
            ]),
            mappings: Some(vec![
                KitsuRef { id: "m1".into(), kind: "mappings".into() },
                KitsuRef { id: "m2".into(), kind: "mappings".into() },
            ]),
        }),
        raw_json: "{}".into(),
    }
}

fn kitsu_included() -> Vec<KitsuIncluded> {
    vec![
        KitsuIncluded::Category { id: "c1".into(), title: Some("Space".into()) },
        KitsuIncluded::Mapping {
            id: "m1".into(),
            mapping: KitsuMapping { external_site: "MyAnimeList/Anime".into(), external_id: Some("1".into()) },
        },
        KitsuIncluded::Mapping {
            id: "m2".into(),
            mapping: KitsuMapping { external_site: "anidb".into(), external_id: Some("23".into()) },
        },
        KitsuIncluded::Unknown,
    ]
}

#[test]
fn kitsu_resource_maps_with_sideloaded_data() {
    let m = kitsu::into_canonical(&kitsu_resource(), &kitsu_included(), MediaKind::Anime).unwrap();
    assert_eq!(m.title_display, "Cowboy Bebop");
    assert_eq!(m.synopsis.as_deref(), Some("desc"));
    assert_eq!(m.season_year, Some(1998));
    assert_eq!(m.cover_image.as_deref(), Some("m"));
    assert_eq!(m.provider_rating, Some(8245));
    assert!(m.nsfw);
    assert_eq!(m.tags, vec!["Space"]);
    assert_eq!(m.aliases, vec!["COWBOY BEBOP", "Cowboy Bebop", "Cowboy Bebop"]);
    assert_eq!(m.external_ids.len(), 2);
    assert_eq!(m.external_ids[0].url.as_deref(), Some("https://kitsu.io/anime"));
    assert_eq!(m.external_ids[1].source, SourceName::MyAnimeList);
    assert_eq!(m.external_ids[1].source_id, "1");
    assert_eq!(kitsu::trending_path(MediaKind::Manga), "trending/manga");
    assert_eq!(kitsu::extract_mappings(&kitsu_resource(), &kitsu_included()).len(), 2);
    assert_eq!(kitsu::extract_categories(&kitsu_resource(), &vec![]).len(), 0);
}

#[test]
fn kitsu_best_image_prefers_largest() {
    let set = KitsuImageSet {
        tiny: Some("t".into()),
        small: Some("s".into()),
        medium: None,
        large: Some("l".into()),
        original: None,
    };
    assert_eq!(kitsu::best_image(&set).as_deref(), Some("l"));
}

#[test]
fn kitsu_episode_maps_titles_and_thumbnail() {
    let res = KitsuEpisodeResource {
        id: "e1".into(),
        attributes: KitsuEpisodeAttributes {
            titles: KitsuTitles { en: None, en_jp: Some("Asteroid Blues".into()), ja_jp: Some("アステロイド・ブルース".into()) },
            description: None,
            synopsis: Some("Spike".into()),
            number: Some(1),
            relative_number: Some(1),
            airdate: Some("1998-10-24".into()),
            runtime: Some(24),
            season_number: Some(1),
            thumbnail: Some(KitsuImageSet { tiny: None, small: Some("s".into()), medium: None, large: None, original: None }),
        },
        titles_json: "{\"en_jp\":\"Asteroid Blues\"}".into(),
        raw_json: "{}".into(),
    };
    let ep = kitsu::into_episode(&res, MediaKind::Anime);
    assert_eq!(ep.source, SourceName::Kitsu);
    assert_eq!(ep.title_display.as_deref(), Some("Asteroid Blues"));
    assert_eq!(ep.thumbnail_url.as_deref(), Some("s"));
    assert_eq!(ep.raw_titles_json.as_deref(), Some("{\"en_jp\":\"Asteroid Blues\"}"));
}

fn show(name: &str) -> TvmazeShow {
    TvmazeShow {
        id: 169,
        url: Some("https://www.tvmaze.com/shows/169/breaking-bad".into()),
        name: name.into(),
        genres: Some(vec!["Drama".into(), "Crime".into()]),
        status: Some("Ended".into()),
        summary: Some("<p><b>Breaking Bad</b> follows<br>Walter.</p>".into()),
        premiered: Some("2008-01-20".into()),
        image: Some(TvmazeImage { medium: Some("m".into()), original: None }),
        rating_average: Some(920),
        network: Some(TvmazeChannel { country: None }),
        web_channel: Some(TvmazeChannel { country: Some(TvmazeCountry { code: Some("US".into()) }) }),
        imdb: Some("tt0903747".into()),
        updated: Some(1704794122),
        raw_json: "{}".into(),
    }
}

#[test]
fn tvmaze_show_maps_onto_canonical_model() {
    let m = tvmaze::into_canonical(show("  Breaking Bad ")).unwrap();
    assert_eq!(m.title_display, "Breaking Bad");
    assert_eq!(m.synopsis.as_deref(), Some("Breaking Bad follows\nWalter."));
    assert_eq!(m.season_year, Some(2008));
    assert_eq!(m.country_of_origin.as_deref(), Some("US"));
    assert_eq!(m.provider_rating, Some(9200));
    assert_eq!(m.external_ids[1].url.as_deref(), Some("https://www.imdb.com/title/tt0903747"));
    assert_eq!(m.source_payloads[0].remote_updated_at.as_deref(), Some("1704794122"));
    assert!(tvmaze::into_canonical(show("   ")).is_none());
}

#[test]
fn tvmaze_pages_end_when_empty() {
    let page = tvmaze::page_result(true, vec![show("A"), show(" ")], SyncCursor { page: 3 });
    assert_eq!(page.items.len(), 1);
    assert_eq!(page.next_cursor, Some(SyncCursor { page: 4 }));
    let last = tvmaze::page_result(true, vec![], SyncCursor { page: 3 });
    assert!(last.next_cursor.is_none());
    let missing = tvmaze::page_result(false, vec![show("A")], SyncCursor { page: 3 });
    assert!(missing.items.is_empty());
    match tvmaze::check_trending_kind(MediaKind::Anime) {
        Err(Error::Validation(m)) => assert_eq!(m, "TVmaze only supports shows"),
        other => panic!("unexpected {:?}", other),
    }
}

#[test]
fn strip_html_removes_summary_tags() {
    assert_eq!(strip_html("<p>Hello <i>there</i></p>"), "Hello there");
    assert_eq!(strip_html("  a<br/>b  "), "a\nb");
}

#[test]
fn imdb_columns_and_title_types() {
    assert_eq!(imdb_str("\\N"), None);
    assert_eq!(imdb_str(""), None);
    assert_eq!(imdb_str("x"), Some("x"));
    assert_eq!(imdb_i32("1994"), Some(1994));
    assert_eq!(imdb_i32("\\N"), None);
    assert_eq!(imdb_i32("abc"), None);
    assert_eq!(parse_title_type("tvMiniSeries"), Some(MediaKind::Show));
    assert_eq!(parse_title_type("video"), Some(MediaKind::Movie));
    assert_eq!(parse_title_type("short"), None);
}

#[test]
fn imdb_basics_line_parses_into_row() {
    let line = "tt0111161\tmovie\tThe Shawshank Redemption\tThe Shawshank Redemption\t0\t1994\t\\N\t142\tDrama\r\n";
    let row = parse_basics_line(line).unwrap();
    assert_eq!(row.tconst, "tt0111161");
    assert_eq!(row.kind, MediaKind::Movie);
    assert_eq!(row.start_year, Some(1994));
    assert_eq!(row.end_year, None);
    assert_eq!(row.runtime_minutes, Some(142));
    assert_eq!(row.genres, vec!["Drama"]);
    assert!(!row.is_adult);
    let m = row.into_canonical(Some(930));
    assert_eq!(m.title_display, "The Shawshank Redemption");
    assert!(m.aliases.is_empty());
    assert_eq!(m.season.as_deref(), Some("1994"));
    assert_eq!(m.episodes, Some(142));
    assert_eq!(m.provider_rating, Some(9300));
    assert_eq!(m.format.as_deref(), Some("movie"));
    assert_eq!(
        m.source_payloads[0].raw_json.as_deref(),
        Some("{\"endYear\":null,\"isAdult\":false,\"primaryTitle\":\"The Shawshank Redemption\",\"runtimeMinutes\":142,\"startYear\":1994,\"tconst\":\"tt0111161\",\"titleType\":\"movie\"}")
    );
}

#[test]
fn imdb_raw_payload_escapes_titles_as_json() {
    let line = "tt7\tmovie\tSay \"Hi\" \\ Bye\tSay Hi\t1\t2001\t\\N\t90\tComedy";
    let row = parse_basics_line(line).unwrap();
    let m = row.into_canonical(None);
    assert_eq!(
        m.source_payloads[0].raw_json.as_deref(),
        Some("{\"endYear\":null,\"isAdult\":true,\"primaryTitle\":\"Say \\\"Hi\\\" \\\\ Bye\",\"runtimeMinutes\":90,\"startYear\":2001,\"tconst\":\"tt7\",\"titleType\":\"movie\"}")
    );
}

#[test]
fn imdb_basics_line_rejections_and_aliases() {
    assert!(parse_basics_line("tt1\tshort\tA\tA\t0\t2000\t\\N\t5\tDrama").is_none());
    assert!(parse_basics_line("tt1\tmovie\t\\N\tA\t0\t2000\t\\N\t5\tDrama").is_none());
    assert!(parse_basics_line("tt1\tmovie\tA").is_none());
    let row = parse_basics_line("tt2\ttvSeries\tDark\tDark Original\t1\t2017\t2020\t60\tCrime,Drama,Mystery").unwrap();
    assert!(row.is_adult);
    assert_eq!(row.genres, vec!["Crime", "Drama", "Mystery"]);
    let m = row.into_canonical(None);
    assert_eq!(m.title_display, "Dark Original");
    assert_eq!(m.aliases, vec!["Dark Original"]);
    assert!(m.nsfw);
    assert_eq!(m.provider_rating, None);
}

#[test]
fn imdb_ratings_line_splits_fields() {
    assert_eq!(
        split_ratings_line("tt0111161\t9.3\t2900000\n"),
        Some(("tt0111161".to_string(), "9.3".to_string()))
    );
    assert_eq!(split_ratings_line("header-only"), None);
}

#[test]
fn imdb_page_scan_skips_then_takes_a_page() {
    let mut scan = page_scan_new(MediaKind::Movie, 2, 2);
    assert_eq!(scan.skip, 2);
    let kinds = [
        MediaKind::Movie,
        MediaKind::Show,
        MediaKind::Movie,
        MediaKind::Movie,
        MediaKind::Movie,
        MediaKind::Movie,
    ];
    let actions: Vec<RowAction> = kinds.iter().map(|k| page_scan_step(&mut scan, *k)).collect();
    assert_eq!(
        actions,
        vec![
            RowAction::Skip,
            RowAction::Skip,
            RowAction::Skip,
            RowAction::Continue,
            RowAction::Continue,
            RowAction::Stop,
        ]
    );
    assert_eq!(page_scan_next_cursor(&scan, SyncCursor { page: 2 }), Some(SyncCursor { page: 3 }));
}

#[test]
fn imdb_search_and_lookup_steps() {
    assert_eq!(
        search_step(MediaKind::Movie, 10, 0, MediaKind::Movie, "Spirited Away", "spirited"),
        (RowAction::Continue, true)
    );
    assert_eq!(
        search_step(MediaKind::Movie, 10, 0, MediaKind::Movie, "Ponyo", "spirited"),
        (RowAction::Continue, false)
    );
    assert_eq!(
        search_step(MediaKind::Movie, 1, 1, MediaKind::Movie, "Spirited Away", "spirited"),
        (RowAction::Stop, false)
    );
    assert_eq!(by_id_step("tt1", MediaKind::Movie, "tt2", MediaKind::Movie), (RowAction::Skip, false));
    assert_eq!(by_id_step("tt1", MediaKind::Movie, "tt1", MediaKind::Show), (RowAction::Stop, false));
    assert_eq!(by_id_step("tt1", MediaKind::Movie, "tt1", MediaKind::Movie), (RowAction::Stop, true));
}

#[test]
fn paging_helpers() {
    assert_eq!(clamp_page_size(0, 50), 1);
    assert_eq!(clamp_page_size(80, 50), 50);
    assert_eq!(clamp_page_size(25, 50), 25);
    assert_eq!(page_to_offset(1, 20), 0);
    assert_eq!(page_to_offset(3, 20), 40);
    assert_eq!(page_to_offset(0, 20), 0);
    assert_eq!(search_query("  monster \n"), Some("monster".to_string()));
    assert_eq!(search_query(" \t "), None);
}

#[test]
fn retry_rule_backs_off() {
    assert_eq!(retry_after_rate_limit(3, 3, 2000, None), RetryStep::GiveUp);
    assert_eq!(
        retry_after_rate_limit(0, 3, 2000, None),
        RetryStep::Wait { sleep_ms: 2000, next_delay_ms: 4000 }
    );
    assert_eq!(
        retry_after_rate_limit(1, 3, 4000, Some(5)),
        RetryStep::Wait { sleep_ms: 6000, next_delay_ms: 12000 }
    );
    let secs: u64 = 1 << 62;
    let wait = (secs as u128 + 1) * 1000;
    assert_eq!(
        retry_after_rate_limit(0, 3, 2000, Some(secs)),
        RetryStep::Wait { sleep_ms: wait, next_delay_ms: wait * 2 }
    );
    assert!(wait * 2 <= animedb::provider::http::MAX_DELAY_MS);
}

#[test]
fn provider_ids_must_be_integers() {
    assert_eq!(parse_provider_id("19", "AniList").unwrap(), 19);
    match parse_provider_id("abc", "Jikan/MAL") {
        Err(Error::Validation(m)) => assert_eq!(m, "invalid Jikan/MAL id: abc"),
        other => panic!("unexpected {:?}", other),
    }
}
