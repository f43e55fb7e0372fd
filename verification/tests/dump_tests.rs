use std::io::Write;

use animedb::provider::imdb::{
    basics_rows, by_id_row, gunzip_lines, page_rows, page_scan_new, page_scan_next_cursor,
    ratings_entries, search_rows,
};
use animedb::repository::media::{
    decode_string_list, encode_string_list, stored_media_from_columns, ColumnError, MediaColumns,
};
use animedb::{Error, MediaKind, SyncCursor};
use flate2::write::GzEncoder;
use flate2::Compression;

fn gz(text: &str) -> Vec<u8> {
    let mut enc = GzEncoder::new(Vec::new(), Compression::default());
    enc.write_all(text.as_bytes()).unwrap();
    enc.finish().unwrap()
}

const BASICS: &str = "tconst\ttitleType\tprimaryTitle\toriginalTitle\tisAdult\tstartYear\tendYear\truntimeMinutes\tgenres\n\
tt1\tmovie\tAlien\tAlien\t0\t1979\t\\N\t117\tHorror,Sci-Fi\n\
tt2\tshort\tA Short\tA Short\t0\t2000\t\\N\t5\tDrama\n\
tt3\ttvSeries\tAliens Among Us\t\\N\t0\t2010\t2012\t45\tDrama\n\
tt4\tmovie\tAliens\tAliens\t0\t1986\t\\N\t137\tAction\n\
tt5\tmovie\tHeat\tHeat\t0\t1995\t\\N\t170\tCrime\n";

#[test]
fn gzip_dump_decodes_to_its_lines() {
    let (lines, err) = gunzip_lines(&gz("h\na\r\nb"));
    assert_eq!(lines, vec!["h\n", "a\r\n", "b"]);
    assert!(err.is_none());
    let (lines, err) = gunzip_lines(b"not gzip at all");
    assert!(lines.is_empty());
    assert!(err.is_some());
}

#[test]
fn basics_rows_skip_header_and_unusable_lines() {
    let (lines, err) = gunzip_lines(&gz(BASICS));
    let rows = basics_rows(&lines, &err).unwrap();
    let ids: Vec<&str> = rows.iter().map(|r| r.tconst.as_str()).collect();
    assert_eq!(ids, vec!["tt1", "tt3", "tt4", "tt5"]);
    assert_eq!(rows[1].kind, MediaKind::Show);
    let empty = basics_rows(&Vec::new(), &None).unwrap();
    assert!(empty.is_empty());
}

#[test]
fn unreadable_basics_header_is_an_error() {
    let (lines, err) = gunzip_lines(b"garbage");
    match basics_rows(&lines, &err) {
        Err(Error::Validation(m)) => assert!(m.starts_with("failed to read IMDb dataset header: ")),
        other => panic!("unexpected {:?}", other),
    }
}

#[test]
fn dump_scans_search_page_and_lookup() {
    let (lines, err) = gunzip_lines(&gz(BASICS));
    let rows = basics_rows(&lines, &err).unwrap();
    assert_eq!(search_rows(&rows, MediaKind::Movie, 10, "alien"), vec![0, 2]);
    assert_eq!(search_rows(&rows, MediaKind::Movie, 1, "alien"), vec![0]);
    assert_eq!(search_rows(&rows, MediaKind::Show, 10, "alien"), vec![1]);
    assert_eq!(by_id_row(&rows, "tt4", MediaKind::Movie), Some(2));
    assert_eq!(by_id_row(&rows, "tt4", MediaKind::Show), None);
    assert_eq!(by_id_row(&rows, "tt9", MediaKind::Movie), None);

    let mut scan = page_scan_new(MediaKind::Movie, 2, 1);
    assert_eq!(page_rows(&rows, &mut scan), vec![2]);
    assert_eq!(page_scan_next_cursor(&scan, SyncCursor { page: 2 }), Some(SyncCursor { page: 3 }));
    let mut scan = page_scan_new(MediaKind::Movie, 1, 5);
    assert_eq!(page_rows(&rows, &mut scan), vec![0, 2, 3]);
    assert_eq!(page_scan_next_cursor(&scan, SyncCursor { page: 1 }), None);
}

#[test]
fn ratings_dump_gives_id_and_rating_text() {
    let (lines, _) = gunzip_lines(&gz("tconst\taverageRating\tnumVotes\ntt1\t8.5\t900\nbroken\ntt4\t8.4\t700\n"));
    let entries = ratings_entries(&lines);
    assert_eq!(
        entries,
        vec![("tt1".to_string(), "8.5".to_string()), ("tt4".to_string(), "8.4".to_string())]
    );
}

#[test]
fn string_lists_round_trip_through_json() {
    let v = vec!["Drama".to_string(), "Sci \"Fi\"".to_string()];
    let text = encode_string_list(&v);
    assert_eq!(text, "[\"Drama\",\"Sci \\\"Fi\\\"\"]");
    assert_eq!(decode_string_list(&text).unwrap(), v);
    assert_eq!(encode_string_list(&Vec::new()), "[]");
    assert!(decode_string_list("{not json").is_err());
}

fn columns(kind: &str, tags: &str, genres: &str) -> MediaColumns {
    MediaColumns {
        id: 7,
        media_kind: kind.to_string(),
        title_display: "Alien".to_string(),
        title_romaji: None,
        title_english: Some("Alien".to_string()),
        title_native: None,
        synopsis: None,
        format: Some("movie".to_string()),
        status: None,
        season: None,
        season_year: Some(1979),
        episodes: None,
        chapters: None,
        volumes: None,
        country_of_origin: None,
        cover_image: None,
        banner_image: None,
        provider_rating: Some(8500),
        nsfw: 2,
        tags_json: tags.to_string(),
        genres_json: genres.to_string(),
    }
}

#[test]
fn stored_row_decodes_kind_and_lists() {
    let m = stored_media_from_columns(columns("movie", "[]", "[\"Horror\"]")).unwrap();
    assert_eq!(m.id, 7);
    assert_eq!(m.media_kind, MediaKind::Movie);
    assert_eq!(m.genres, vec!["Horror"]);
    assert!(m.tags.is_empty());
    assert!(m.nsfw);
    assert_eq!(m.provider_rating, Some(8500));
    match stored_media_from_columns(columns("film", "[]", "[]")) {
        Err(ColumnError::MediaKind(Error::Validation(msg))) => assert_eq!(msg, "unsupported media kind: film"),
        other => panic!("unexpected {:?}", other),
    }
    match stored_media_from_columns(columns("movie", "[1]", "[]")) {
        Err(ColumnError::Json { column, .. }) => assert_eq!(column, 19),
        other => panic!("unexpected {:?}", other),
    }
    match stored_media_from_columns(columns("movie", "[]", "nope")) {
        Err(ColumnError::Json { column, .. }) => assert_eq!(column, 20),
        other => panic!("unexpected {:?}", other),
    }
}
