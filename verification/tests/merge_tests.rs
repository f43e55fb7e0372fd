use animedb::merge::{
    episode_provider_priority, format_score, merge_external_ids, merge_string_lists, score_text_field,
};
use animedb::{
    merge_canonical_episodes_by_effective_number, merge_episode_source_records, merge_media,
    provider_weight, CanonicalEpisode, CanonicalMedia, EpisodeSourceRecord, ExternalId, MediaKind,
    SourceName, SourcePayload, StoredMedia,
};

fn episode(
    source: SourceName,
    source_id: &str,
    absolute_number: Option<i32>,
    episode_number: Option<i32>,
) -> CanonicalEpisode {
    CanonicalEpisode {
        source,
        source_id: source_id.to_string(),
        media_kind: MediaKind::Anime,
        season_number: None,
        episode_number,
        absolute_number,
        title_display: None,
        title_original: None,
        synopsis: None,
        air_date: None,
        runtime_minutes: None,
        thumbnail_url: None,
        raw_titles_json: None,
        raw_json: None,
    }
}

#[test]
fn merges_canonical_episodes_by_field_priority() {
    let mut kitsu = episode(SourceName::Kitsu, "kitsu-5", None, Some(5));
    kitsu.title_display = Some("Kitsu title".to_string());
    kitsu.synopsis = Some("Kitsu synopsis".to_string());
    kitsu.runtime_minutes = Some(24);
    kitsu.air_date = Some("2024-01-01".to_string());

    let mut jikan = episode(SourceName::Jikan, "mal-5", Some(5), Some(5));
    jikan.title_display = Some("Jikan title".to_string());
    jikan.air_date = Some("2024-01-02".to_string());

    let merged = merge_canonical_episodes_by_effective_number(&vec![kitsu, jikan]);

    assert_eq!(merged.len(), 1);
    let episode = &merged[0];
    assert_eq!(episode.source, SourceName::Jikan);
    assert_eq!(episode.source_id, "mal-5");
    assert_eq!(episode.absolute_number, Some(5));
    assert_eq!(episode.title_display.as_deref(), Some("Jikan title"));
    assert_eq!(episode.synopsis.as_deref(), Some("Kitsu synopsis"));
    assert_eq!(episode.runtime_minutes, Some(24));
    assert_eq!(episode.air_date.as_deref(), Some("2024-01-02"));
}

#[test]
fn skips_canonical_episodes_without_effective_number() {
    let invalid = episode(SourceName::Jikan, "missing-number", None, None);
    let valid = episode(SourceName::Kitsu, "kitsu-2", None, Some(2));

    let merged = merge_canonical_episodes_by_effective_number(&vec![invalid, valid]);

    assert_eq!(merged.len(), 1);
    assert_eq!(merged[0].episode_number, Some(2));
}

#[test]
fn groups_by_absolute_number_before_episode_number() {
    let season_relative = episode(SourceName::Kitsu, "kitsu-s2e1", Some(13), Some(1));
    let absolute = episode(SourceName::Jikan, "mal-13", Some(13), Some(13));

    let merged = merge_canonical_episodes_by_effective_number(&vec![season_relative, absolute]);

    assert_eq!(merged.len(), 1);
    assert_eq!(merged[0].absolute_number, Some(13));
    assert_eq!(merged[0].source, SourceName::Jikan);
}

#[test]
fn merged_episodes_come_out_in_number_order() {
    let e3 = episode(SourceName::Kitsu, "k3", None, Some(3));
    let e1 = episode(SourceName::Kitsu, "k1", None, Some(1));
    let e2 = episode(SourceName::Jikan, "j2", Some(2), None);
    let merged = merge_canonical_episodes_by_effective_number(&vec![e3, e1, e2]);
    let ids: Vec<&str> = merged.iter().map(|e| e.source_id.as_str()).collect();
    assert_eq!(ids, vec!["k1", "j2", "k3"]);
}

fn record(id: i64, source: SourceName, title: Option<&str>, runtime: Option<i32>) -> EpisodeSourceRecord {
    EpisodeSourceRecord {
        id,
        episode_id: None,
        source,
        source_id: format!("{}", id),
        media_id: 7,
        media_kind: MediaKind::Anime,
        season_number: Some(1),
        episode_number: Some(3),
        absolute_number: None,
        title_display: title.map(str::to_string),
        title_original: None,
        titles_json: None,
        synopsis: None,
        air_date: None,
        runtime_minutes: runtime,
        thumbnail_url: None,
        raw_json: None,
        fetched_at: "0".to_string(),
    }
}

#[test]
fn source_records_merge_by_provider_priority() {
    let records = vec![
        record(1, SourceName::Kitsu, Some("kitsu"), Some(25)),
        record(2, SourceName::AniList, Some("anilist"), None),
        record(3, SourceName::Jikan, Some("jikan"), Some(24)),
    ];
    let merged = merge_episode_source_records(&records);
    assert_eq!(merged.title_display.as_deref(), Some("anilist"));
    assert_eq!(merged.runtime_minutes, Some(24));
    assert_eq!(merged.media_id, 7);
    assert_eq!(merged.episode_number, Some(3));
}

#[test]
fn source_record_numbering_comes_from_highest_priority_record() {
    let mut kitsu = record(1, SourceName::Kitsu, Some("kitsu"), None);
    kitsu.media_id = 8;
    kitsu.episode_number = Some(9);
    kitsu.titles_json = Some("{\"en\":\"kitsu\"}".to_string());
    let anilist = record(2, SourceName::AniList, None, None);
    let merged = merge_episode_source_records(&vec![kitsu, anilist]);
    assert_eq!(merged.media_id, 7);
    assert_eq!(merged.episode_number, Some(3));
    assert_eq!(merged.titles_json, None);
    assert_eq!(merged.title_display.as_deref(), Some("kitsu"));
}

#[test]
fn episode_provider_priority_is_strictly_ordered() {
    let order = [
        SourceName::AniList,
        SourceName::Imdb,
        SourceName::Tvmaze,
        SourceName::MyAnimeList,
        SourceName::Jikan,
        SourceName::Kitsu,
    ];
    for pair in order.windows(2) {
        assert!(episode_provider_priority(pair[0]) > episode_provider_priority(pair[1]));
    }
}

fn media(source: SourceName, source_id: &str, title: &str) -> CanonicalMedia {
    CanonicalMedia {
        media_kind: MediaKind::Show,
        title_display: title.to_string(),
        title_romaji: None,
        title_english: None,
        title_native: None,
        synopsis: None,
        format: None,
        status: None,
        season: None,
        season_year: None,
        episodes: None,
        chapters: None,
        volumes: None,
        country_of_origin: None,
        cover_image: None,
        banner_image: None,
        provider_rating: None,
        nsfw: false,
        aliases: Vec::new(),
        genres: Vec::new(),
        tags: Vec::new(),
        external_ids: vec![ExternalId {
            source,
            source_id: source_id.to_string(),
            url: None,
        }],
        source_payloads: vec![SourcePayload {
            source,
            source_id: source_id.to_string(),
            url: None,
            remote_updated_at: None,
            raw_json: None,
        }],
        field_provenance: Vec::new(),
    }
}

fn stored(id: i64, m: &CanonicalMedia) -> StoredMedia {
    StoredMedia {
        id,
        media_kind: m.media_kind,
        title_display: m.title_display.clone(),
        title_romaji: m.title_romaji.clone(),
        title_english: m.title_english.clone(),
        title_native: m.title_native.clone(),
        synopsis: m.synopsis.clone(),
        format: m.format.clone(),
        status: m.status.clone(),
        season: m.season.clone(),
        season_year: m.season_year,
        episodes: m.episodes,
        chapters: m.chapters,
        volumes: m.volumes,
        country_of_origin: m.country_of_origin.clone(),
        cover_image: m.cover_image.clone(),
        banner_image: m.banner_image.clone(),
        provider_rating: m.provider_rating,
        nsfw: m.nsfw,
        aliases: m.aliases.clone(),
        genres: m.genres.clone(),
        tags: m.tags.clone(),
        external_ids: m.external_ids.clone(),
        source_payloads: m.source_payloads.clone(),
        field_provenance: m.field_provenance.clone(),
    }
}

#[test]
fn fresh_merge_adopts_incoming_record() {
    let mut incoming = media(SourceName::Tvmaze, "169", "Breaking Bad");
    incoming.synopsis = Some("A chemistry teacher turns to making meth.".to_string());
    incoming.season_year = Some(2008);
    incoming.nsfw = true;
    let merged = merge_media(None, &incoming);
    assert_eq!(merged.title_display, "Breaking Bad");
    assert_eq!(merged.synopsis, incoming.synopsis);
    assert_eq!(merged.season_year, Some(2008));
    assert!(merged.nsfw);
    assert_eq!(merged.media_kind, MediaKind::Show);
    assert!(merged.field_provenance.is_empty());
    assert_eq!(merged, incoming);
}

#[test]
fn merge_keeps_stored_values_and_kind() {
    let mut first = media(SourceName::Tvmaze, "455", "Chernobyl");
    first.provider_rating = Some(9500);
    first.status = Some("Ended".to_string());
    first.external_ids.push(ExternalId {
        source: SourceName::Imdb,
        source_id: "tt739642".to_string(),
        url: None,
    });
    let merged_first = merge_media(None, &first);
    let existing = stored(1, &merged_first);

    let mut second = media(SourceName::Imdb, "tt739642", "Chernobyl");
    second.media_kind = MediaKind::Movie;
    second.provider_rating = Some(9900);
    let merged = merge_media(Some(&existing), &second);

    assert_eq!(merged.media_kind, MediaKind::Show);
    assert_eq!(merged.provider_rating, Some(9900));
    assert_eq!(merged.status.as_deref(), Some("Ended"));
    assert_eq!(merged.external_ids.len(), 2);
    assert_eq!(merged.source_payloads.len(), 2);
}

#[test]
fn merged_lists_drop_case_insensitive_repeats() {
    let existing = vec!["Drama".to_string(), "Crime".to_string()];
    let incoming = vec!["drama".to_string(), "Thriller".to_string(), "CRIME".to_string()];
    let merged = merge_string_lists(Some(&existing), &incoming);
    assert_eq!(merged, vec!["Drama", "Crime", "Thriller"]);
    assert_eq!(merge_string_lists(None, &incoming), vec!["drama", "Thriller", "CRIME"]);
}

#[test]
fn merged_external_ids_are_unique_by_source_and_id() {
    let a = ExternalId { source: SourceName::Imdb, source_id: "tt1".into(), url: None };
    let b = ExternalId { source: SourceName::Imdb, source_id: "tt1".into(), url: Some("u".into()) };
    let c = ExternalId { source: SourceName::Tvmaze, source_id: "tt1".into(), url: None };
    let merged = merge_external_ids(Some(&vec![a.clone()]), &vec![b, c.clone()]);
    assert_eq!(merged, vec![a, c]);
}

#[test]
fn text_score_matches_its_formula() {
    let candidate = media(SourceName::AniList, "19", "Monster");
    let d = score_text_field(SourceName::AniList, "title_display", &"Monster".to_string(), &candidate);
    assert_eq!(d.score, 414_000);
    assert_eq!(
        d.reason,
        "provider=0.225, completeness=0.010, quality=0.070, consistency=0.040"
    );
    assert_eq!(format_score(d.score), "0.345");
}

#[test]
fn score_rendering_rounds_half_to_even() {
    assert_eq!(format_score(600), "0.000");
    assert_eq!(format_score(1800), "0.002");
    assert_eq!(format_score(1_200_000), "1.000");
    assert_eq!(provider_weight(SourceName::AniList), 90);
    assert_eq!(provider_weight(SourceName::Jikan), 76);
}

#[test]
fn remerging_the_same_record_changes_no_value() {
    let mut first = media(SourceName::Tvmaze, "455", "Chernobyl");
    first.status = Some("Ended".to_string());
    first.genres = vec!["Drama".to_string(), "History".to_string()];
    let existing = stored(1, &merge_media(None, &first));
    let mut incoming = media(SourceName::Imdb, "tt739642", "Chernobyl (2019)");
    incoming.synopsis = Some("The 1986 nuclear disaster.".to_string());
    incoming.genres = vec!["drama".to_string(), "Thriller".to_string()];
    incoming.provider_rating = Some(9400);
    let merged = merge_media(Some(&existing), &incoming);
    let again = merge_media(Some(&stored(2, &merged)), &incoming);
    assert_eq!(again.title_display, merged.title_display);
    assert_eq!(again.synopsis, merged.synopsis);
    assert_eq!(again.status, merged.status);
    assert_eq!(again.genres, merged.genres);
    assert_eq!(again.external_ids, merged.external_ids);
    assert_eq!(again.provider_rating, merged.provider_rating);
    assert_eq!(again.media_kind, merged.media_kind);
}
