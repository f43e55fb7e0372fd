//! Jikan (the MyAnimeList REST mirror): the decoded records and their
//! mapping onto the canonical model.

use vstd::prelude::*;
use vstd::string::StringExecFns;
use crate::error::Error;
use crate::model::{CanonicalMedia, ExternalId, MediaKind, SourceName, SourcePayload, SyncCursor};
use crate::text::{clone_opt_string, clone_string, contains_seq, decimal_signed, i64_to_decimal, str_contains, str_eq};
use crate::remote::{format_matches, spec_format_matches};
use super::{collect_present, first_some3, present_strings, FetchPage};

verus! {

/// The JPEG image set of a Jikan record.
#[derive(Debug, Clone)]
pub struct JikanImageSet {
    pub image_url: Option<String>,
    pub large_image_url: Option<String>,
}

/// The trailer images of a Jikan record.
#[derive(Debug, Clone)]
pub struct JikanTrailer {
    pub maximum_image_url: Option<String>,
}

/// A Jikan anime or manga record as decoded from a response.
///
/// `score` is Jikan's 0–10 score in hundredths of a point; `titles` holds
/// the title of each alternative-title entry; `genres`, `themes` and
/// `demographics` hold the entries' names; `raw_json` is the record
/// serialized back to JSON text.
#[derive(Debug, Clone)]
pub struct JikanMedia {
    pub mal_id: i64,
    pub url: Option<String>,
    pub title: Option<String>,
    pub title_english: Option<String>,
    pub title_japanese: Option<String>,
    pub title_synonyms: Vec<String>,
    pub titles: Vec<Option<String>>,
    pub synopsis: Option<String>,
    pub media_type: Option<String>,
    pub status: Option<String>,
    pub episodes: Option<i32>,
    pub chapters: Option<i32>,
    pub volumes: Option<i32>,
    pub season: Option<String>,
    pub year: Option<i32>,
    pub score: Option<i64>,
    pub rating: Option<String>,
    pub images: JikanImageSet,
    pub trailer: Option<JikanTrailer>,
    pub genres: Vec<String>,
    pub themes: Vec<String>,
    pub demographics: Vec<String>,
    pub raw_json: String,
}

/// The entry of a recommendation: a partial record.
#[derive(Debug, Clone)]
pub struct JikanPartialEntry {
    pub mal_id: i64,
    pub url: String,
    pub images: Option<JikanImageSet>,
    pub title: String,
}

/// An entry of a relation group.
#[derive(Debug, Clone)]
pub struct JikanRelationEntry {
    pub mal_id: i64,
    pub kind: String,
    pub name: String,
    pub url: String,
}

/// The path segment of a media kind.
pub open spec fn jikan_path(kind: MediaKind) -> Seq<char> {
    match kind {
        MediaKind::Anime | MediaKind::Show => "anime"@,
        MediaKind::Manga | MediaKind::Movie => "manga"@,
    }
}

/// The path segment of a media kind (`anime` or `manga`).
pub fn kind_path(kind: MediaKind) -> (r: &'static str)
    ensures
        r@ == jikan_path(kind),
{
    match kind {
        MediaKind::Anime | MediaKind::Show => "anime",
        MediaKind::Manga | MediaKind::Movie => "manga",
    }
}

/// A rating names adult content: it contains "Rx", "Hentai", "R+" or
/// "Mild Nudity".
pub open spec fn spec_is_nsfw(rating: Option<String>) -> bool {
    match rating {
        Some(r) => contains_seq(r@, "Rx"@) || contains_seq(r@, "Hentai"@) || contains_seq(
            r@,
            "R+"@,
        ) || contains_seq(r@, "Mild Nudity"@),
        None => false,
    }
}

/// Whether a Jikan rating string names adult content.
pub fn is_nsfw(rating: &Option<String>) -> (r: bool)
    ensures
        r == spec_is_nsfw(*rating),
{
    match rating {
        Some(r) => str_contains(r.as_str(), "Rx") || str_contains(r.as_str(), "Hentai")
            || str_contains(r.as_str(), "R+") || str_contains(r.as_str(), "Mild Nudity"),
        None => false,
    }
}

/// The display title: English, else the default title, else Japanese.
pub open spec fn jikan_title(item: JikanMedia) -> Option<String> {
    first_some3(item.title_english, item.title, item.title_japanese)
}

/// The score on the normalized scale in basis points, clamped to `0..=10000`.
pub open spec fn jikan_rating(score: Option<i64>) -> Option<u64> {
    match score {
        Some(h) => Some(
            if h < 0 {
                0u64
            } else if h > 1000 {
                10000u64
            } else {
                (h * 10) as u64
            },
        ),
        None => None,
    }
}

/// The aliases: every alternative title, the synonyms, then the default
/// title.
pub open spec fn jikan_aliases(item: JikanMedia) -> Seq<String> {
    present_strings(item.titles@) + item.title_synonyms@ + (match item.title {
        Some(t) => seq![t],
        None => seq![],
    })
}

/// The message for a record without any title.
pub open spec fn untitled_message(id: i64) -> Seq<char> {
    "Jikan media "@ + decimal_signed(id as int) + " has no usable title"@
}

/// The cover image of an image set: the large image, else the regular one.
pub open spec fn cover_of(images: JikanImageSet) -> Option<String> {
    match images.large_image_url {
        Some(u) => Some(u),
        None => images.image_url,
    }
}

/// `m` is the canonical form of the Jikan record `item` for `kind`.
pub open spec fn jikan_canonical(item: JikanMedia, kind: MediaKind, m: CanonicalMedia) -> bool {
    &&& m.media_kind == kind
    &&& jikan_title(item) == Some(m.title_display)
    &&& m.title_romaji == item.title
    &&& m.title_english == item.title_english
    &&& m.title_native == item.title_japanese
    &&& m.synopsis == item.synopsis
    &&& m.format == item.media_type
    &&& m.status == item.status
    &&& m.season == item.season
    &&& m.season_year == item.year
    &&& m.episodes == item.episodes
    &&& m.chapters == item.chapters
    &&& m.volumes == item.volumes
    &&& m.country_of_origin is None
    &&& m.cover_image == cover_of(item.images)
    &&& m.banner_image == (match item.trailer {
        Some(t) => t.maximum_image_url,
        None => None,
    })
    &&& m.provider_rating == jikan_rating(item.score)
    &&& m.nsfw == spec_is_nsfw(item.rating)
    &&& m.aliases@ == jikan_aliases(item)
    &&& m.genres@ == item.genres@
    &&& m.tags@ == item.themes@ + item.demographics@
    &&& m.external_ids@.len() == 2
    &&& m.external_ids@[0].source == SourceName::Jikan
    &&& m.external_ids@[0].source_id@ == decimal_signed(item.mal_id as int)
    &&& m.external_ids@[0].url == item.url
    &&& m.external_ids@[1].source == SourceName::MyAnimeList
    &&& m.external_ids@[1].source_id@ == decimal_signed(item.mal_id as int)
    &&& m.external_ids@[1].url == item.url
    &&& m.source_payloads@.len() == 1
    &&& m.source_payloads@[0].source == SourceName::Jikan
    &&& m.source_payloads@[0].source_id@ == decimal_signed(item.mal_id as int)
    &&& m.source_payloads@[0].url == item.url
    &&& m.source_payloads@[0].remote_updated_at is None
    &&& m.source_payloads@[0].raw_json == Some(item.raw_json)
    &&& m.field_provenance@.len() == 0
}

/// Maps one Jikan record onto the canonical model; a record without any
/// title is refused.
pub fn into_canonical(item: JikanMedia, kind: MediaKind) -> (r: Result<CanonicalMedia, Error>)
    ensures
        jikan_title(item) is None ==> (r matches Err(Error::Validation(msg)) && msg@
            == untitled_message(item.mal_id)),
        jikan_title(item) is Some ==> (r matches Ok(m) && jikan_canonical(item, kind, m)),
{
    let ghost orig = item;
    let title_display = match &item.title_english {
        Some(t) => clone_string(t),
        None => match &item.title {
            Some(t) => clone_string(t),
            None => match &item.title_japanese {
                Some(t) => clone_string(t),
                None => {
                    let mut msg = String::from_str("Jikan media ");
                    let id = i64_to_decimal(item.mal_id);
                    msg.append(id.as_str());
                    msg.append(" has no usable title");
                    return Err(Error::Validation(msg));
                },
            },
        },
    };
    let mut aliases = collect_present(&item.titles);
    let mut synonyms = item.title_synonyms;
    aliases.append(&mut synonyms);
    if let Some(t) = &item.title {
        aliases.push(clone_string(t));
    }
    let id_text = i64_to_decimal(item.mal_id);
    let mut external_ids: Vec<ExternalId> = Vec::new();
    external_ids.push(
        ExternalId { source: SourceName::Jikan, source_id: clone_string(&id_text), url: clone_opt_string(&item.url) },
    );
    external_ids.push(
        ExternalId {
            source: SourceName::MyAnimeList,
            source_id: clone_string(&id_text),
            url: clone_opt_string(&item.url),
        },
    );
    let cover_image = match item.images.large_image_url {
        Some(u) => Some(u),
        None => item.images.image_url,
    };
    let banner_image = match item.trailer {
        Some(t) => t.maximum_image_url,
        None => None,
    };
    let provider_rating: Option<u64> = match item.score {
        Some(h) => Some(
            if h < 0 {
                0u64
            } else if h > 1000 {
                10000u64
            } else {
                (h * 10) as u64
            },
        ),
        None => None,
    };
    let nsfw = is_nsfw(&item.rating);
    let mut tags = item.themes;
    let mut demographics = item.demographics;
    tags.append(&mut demographics);
    let mut source_payloads: Vec<SourcePayload> = Vec::new();
    source_payloads.push(
        SourcePayload {
            source: SourceName::Jikan,
            source_id: id_text,
            url: clone_opt_string(&item.url),
            remote_updated_at: None,
            raw_json: Some(item.raw_json),
        },
    );
    let m = CanonicalMedia {
        media_kind: kind,
        title_display,
        title_romaji: item.title,
        title_english: item.title_english,
        title_native: item.title_japanese,
        synopsis: item.synopsis,
        format: item.media_type,
        status: item.status,
        season: item.season,
        season_year: item.year,
        episodes: item.episodes,
        chapters: item.chapters,
        volumes: item.volumes,
        country_of_origin: None,
        cover_image,
        banner_image,
        provider_rating,
        nsfw,
        aliases,
        genres: item.genres,
        tags,
        external_ids,
        source_payloads,
        field_provenance: Vec::new(),
    };
    assert(m.aliases@ =~= jikan_aliases(orig));
    assert(jikan_canonical(orig, kind, m));
    Ok(m)
}

/// Every record has a title.
pub open spec fn all_titled(items: Seq<JikanMedia>) -> bool {
    forall|i: int| 0 <= i < items.len() ==> (#[trigger] items[i]).title_english is Some
        || items[i].title is Some || items[i].title_japanese is Some
}

/// The error for the first record of `items` without a title.
pub open spec fn first_untitled_error(items: Seq<JikanMedia>, e: Error) -> bool {
    exists|i: int|
        0 <= i < items.len() && jikan_title(#[trigger] items[i]) is None && all_titled(
            items.subrange(0, i),
        ) && (e matches Error::Validation(msg) && msg@ == untitled_message(items[i].mal_id))
}

/// The records whose format passes the filter, in order.
pub open spec fn kept_media(items: Seq<JikanMedia>, format: Option<String>) -> Seq<JikanMedia>
    decreases items.len(),
{
    if items.len() == 0 {
        seq![]
    } else {
        let k = kept_media(items.drop_last(), format);
        if spec_format_matches(format, items.last().media_type) {
            k.push(items.last())
        } else {
            k
        }
    }
}

/// Without a filter every record is kept.
pub proof fn lemma_kept_media_all(items: Seq<JikanMedia>)
    ensures
        kept_media(items, None) == items,
    decreases items.len(),
{
    if items.len() > 0 {
        lemma_kept_media_all(items.drop_last());
        assert(items.drop_last().push(items.last()) =~= items);
    }
}

/// `out` is the canonical form of each of `items`, in order.
pub open spec fn maps_all(items: Seq<JikanMedia>, kind: MediaKind, out: Seq<CanonicalMedia>) -> bool {
    out.len() == items.len() && forall|i: int|
        0 <= i < items.len() ==> jikan_canonical(items[i], kind, #[trigger] out[i])
}

/// Maps a list of records, refusing the list at its first untitled
/// record; then keeps the records whose format passes the filter.
pub fn map_media(items: Vec<JikanMedia>, kind: MediaKind, format: &Option<String>) -> (r: Result<
    Vec<CanonicalMedia>,
    Error,
>)
    ensures
        all_titled(items@) ==> (r matches Ok(v) && maps_all(kept_media(items@, *format), kind, v@)),
        !all_titled(items@) ==> (r matches Err(e) && first_untitled_error(items@, e)),
{
    let ghost all = items@;
    let mut i: usize = 0;
    while i < items.len()
        invariant
            i <= items@.len(),
            items@ == all,
            all_titled(all.subrange(0, i as int)),
        decreases items.len() - i,
    {
        let it = &items[i];
        if it.title_english.is_none() && it.title.is_none() && it.title_japanese.is_none() {
            let mut msg = String::from_str("Jikan media ");
            let id = i64_to_decimal(items[i].mal_id);
            msg.append(id.as_str());
            msg.append(" has no usable title");
            let e = Error::Validation(msg);
            proof {
                assert(jikan_title(all[i as int]) is None);
                assert(first_untitled_error(all, e));
            }
            return Err(e);
        }
        proof {
            assert forall|j: int| 0 <= j < i + 1 implies (#[trigger] all.subrange(
                0,
                i + 1,
            )[j]).title_english is Some || all.subrange(0, i + 1)[j].title is Some || all.subrange(
                0,
                i + 1,
            )[j].title_japanese is Some by {
                if j < i {
                    assert(all.subrange(0, i + 1)[j] == all.subrange(0, i as int)[j]);
                }
            }
        }
        i = i + 1;
    }
    assert(all.subrange(0, all.len() as int) =~= all);
    let mut rest = items;
    let mut out: Vec<CanonicalMedia> = Vec::new();
    let ghost mut done: Seq<JikanMedia> = seq![];
    while rest.len() > 0
        invariant
            all_titled(all),
            done + rest@ == all,
            maps_all(kept_media(done, *format), kind, out@),
        decreases rest.len(),
    {
        let ghost before = rest@;
        let item = rest.remove(0);
        let ghost g = item;
        proof {
            assert(g == before[0]);
            assert(rest@ =~= before.subrange(1, before.len() as int));
            assert(all[done.len() as int] == g);
            assert((done.push(g)).drop_last() =~= done);
        }
        if format_matches(format, &item.media_type) {
            match into_canonical(item, kind) {
                Ok(m) => {
                    out.push(m);
                },
                Err(_) => {
                    proof {
                        assert(jikan_title(all[done.len() as int]) is Some);
                    }
                },
            }
        }
        proof {
            done = done.push(g);
            assert(done + rest@ =~= all);
        }
    }
    assert(done =~= all);
    Ok(out)
}

/// What a page of a bulk fetch comes to: the page's records, with the
/// cursor of the next page when the response says there is one.
pub fn page_result(
    data: Vec<JikanMedia>,
    has_next_page: Option<bool>,
    kind: MediaKind,
    cursor: SyncCursor,
) -> (r: Result<FetchPage, Error>)
    requires
        cursor.page < usize::MAX,
    ensures
        all_titled(data@) ==> (r matches Ok(fp) && maps_all(data@, kind, fp.items@)
            && fp.next_cursor == (if has_next_page == Some(true) {
            Some(SyncCursor { page: (cursor.page + 1) as usize })
        } else {
            None
        })),
        !all_titled(data@) ==> (r matches Err(e) && first_untitled_error(data@, e)),
{
    proof {
        lemma_kept_media_all(data@);
    }
    match map_media(data, kind, &None) {
        Err(e) => Err(e),
        Ok(items) => {
            let next = match has_next_page {
                Some(b) => b,
                None => false,
            };
            let next_cursor = if next {
                Some(SyncCursor { page: cursor.page + 1 })
            } else {
                None
            };
            Ok(FetchPage { items, next_cursor })
        },
    }
}

/// `m` is the canonical form of a recommendation entry for `kind`.
pub open spec fn partial_canonical(entry: JikanPartialEntry, kind: MediaKind, m: CanonicalMedia) -> bool {
    &&& m.media_kind == kind
    &&& m.title_display == entry.title
    &&& m.title_romaji == Some(entry.title)
    &&& m.title_english is None && m.title_native is None && m.synopsis is None
    &&& m.format is None && m.status is None && m.season is None && m.season_year is None
    &&& m.episodes is None && m.chapters is None && m.volumes is None
    &&& m.country_of_origin is None && m.banner_image is None && m.provider_rating is None
    &&& m.cover_image == (match entry.images {
        Some(i) => cover_of(i),
        None => None,
    })
    &&& !m.nsfw
    &&& m.aliases@.len() == 0 && m.genres@.len() == 0 && m.tags@.len() == 0
    &&& m.external_ids@.len() == 1
    &&& m.external_ids@[0].source == SourceName::MyAnimeList
    &&& m.external_ids@[0].source_id@ == decimal_signed(entry.mal_id as int)
    &&& m.external_ids@[0].url == Some(entry.url)
    &&& m.source_payloads@.len() == 1
    &&& m.source_payloads@[0].source == SourceName::Jikan
    &&& m.source_payloads@[0].source_id@ == decimal_signed(entry.mal_id as int)
    &&& m.source_payloads@[0].url == Some(entry.url)
    &&& m.source_payloads@[0].remote_updated_at is None
    &&& m.source_payloads@[0].raw_json is None
    &&& m.field_provenance@.len() == 0
}

/// Maps a recommendation entry onto the canonical model.
pub fn partial_entry_into_canonical(entry: JikanPartialEntry, media_kind: MediaKind) -> (r:
    CanonicalMedia)
    ensures
        partial_canonical(entry, media_kind, r),
{
    let id_text = i64_to_decimal(entry.mal_id);
    let mut external_ids: Vec<ExternalId> = Vec::new();
    external_ids.push(
        ExternalId {
            source: SourceName::MyAnimeList,
            source_id: clone_string(&id_text),
            url: Some(clone_string(&entry.url)),
        },
    );
    let cover_image = match entry.images {
        Some(i) => match i.large_image_url {
            Some(u) => Some(u),
            None => i.image_url,
        },
        None => None,
    };
    let mut source_payloads: Vec<SourcePayload> = Vec::new();
    source_payloads.push(
        SourcePayload {
            source: SourceName::Jikan,
            source_id: id_text,
            url: Some(entry.url),
            remote_updated_at: None,
            raw_json: None,
        },
    );
    CanonicalMedia {
        media_kind,
        title_display: clone_string(&entry.title),
        title_romaji: Some(entry.title),
        title_english: None,
        title_native: None,
        synopsis: None,
        format: None,
        status: None,
        season: None,
        season_year: None,
        episodes: None,
        chapters: None,
        volumes: None,
        country_of_origin: None,
        cover_image,
        banner_image: None,
        provider_rating: None,
        nsfw: false,
        aliases: Vec::new(),
        genres: Vec::new(),
        tags: Vec::new(),
        external_ids,
        source_payloads,
        field_provenance: Vec::new(),
    }
}

/// The media kind a relation entry's type names: manga for "manga",
/// anime otherwise.
pub open spec fn relation_kind(kind: Seq<char>) -> MediaKind {
    if kind == "manga"@ {
        MediaKind::Manga
    } else {
        MediaKind::Anime
    }
}

/// `m` is the canonical form of a relation entry.
pub open spec fn relation_canonical(entry: JikanRelationEntry, m: CanonicalMedia) -> bool {
    &&& m.media_kind == relation_kind(entry.kind@)
    &&& m.title_display == entry.name
    &&& m.title_romaji == Some(entry.name)
    &&& m.title_english is None && m.title_native is None && m.synopsis is None
    &&& m.format is None && m.status is None && m.season is None && m.season_year is None
    &&& m.episodes is None && m.chapters is None && m.volumes is None
    &&& m.country_of_origin is None && m.cover_image is None && m.banner_image is None
    &&& m.provider_rating is None
    &&& !m.nsfw
    &&& m.aliases@.len() == 0 && m.genres@.len() == 0 && m.tags@.len() == 0
    &&& m.external_ids@.len() == 1
    &&& m.external_ids@[0].source == SourceName::MyAnimeList
    &&& m.external_ids@[0].source_id@ == decimal_signed(entry.mal_id as int)
    &&& m.external_ids@[0].url == Some(entry.url)
    &&& m.source_payloads@.len() == 1
    &&& m.source_payloads@[0].source == SourceName::Jikan
    &&& m.source_payloads@[0].source_id@ == decimal_signed(entry.mal_id as int)
    &&& m.source_payloads@[0].url == Some(entry.url)
    &&& m.source_payloads@[0].remote_updated_at is None
    &&& m.source_payloads@[0].raw_json is None
    &&& m.field_provenance@.len() == 0
}

/// Maps a relation entry onto the canonical model.
pub fn relation_entry_into_canonical(entry: JikanRelationEntry) -> (r: CanonicalMedia)
    ensures
        relation_canonical(entry, r),
{
    proof {
        reveal_strlit("manga");
    }
    let media_kind = if str_eq(entry.kind.as_str(), "manga") {
        MediaKind::Manga
    } else {
        MediaKind::Anime
    };
    let id_text = i64_to_decimal(entry.mal_id);
    let mut external_ids: Vec<ExternalId> = Vec::new();
    external_ids.push(
        ExternalId {
            source: SourceName::MyAnimeList,
            source_id: clone_string(&id_text),
            url: Some(clone_string(&entry.url)),
        },
    );
    let mut source_payloads: Vec<SourcePayload> = Vec::new();
    source_payloads.push(
        SourcePayload {
            source: SourceName::Jikan,
            source_id: id_text,
            url: Some(entry.url),
            remote_updated_at: None,
            raw_json: None,
        },
    );
    CanonicalMedia {
        media_kind,
        title_display: clone_string(&entry.name),
        title_romaji: Some(entry.name),
        title_english: None,
        title_native: None,
        synopsis: None,
        format: None,
        status: None,
        season: None,
        season_year: None,
        episodes: None,
        chapters: None,
        volumes: None,
        country_of_origin: None,
        cover_image: None,
        banner_image: None,
        provider_rating: None,
        nsfw: false,
        aliases: Vec::new(),
        genres: Vec::new(),
        tags: Vec::new(),
        external_ids,
        source_payloads,
        field_provenance: Vec::new(),
    }
}

/// Maps every recommendation entry, in order.
pub fn recommendations_result(entries: Vec<JikanPartialEntry>, media_kind: MediaKind) -> (r: Vec<
    CanonicalMedia,
>)
    ensures
        r@.len() == entries@.len(),
        forall|i: int|
            0 <= i < entries@.len() ==> partial_canonical(entries@[i], media_kind, #[trigger] r@[i]),
{
    let ghost all = entries@;
    let mut rest = entries;
    let mut out: Vec<CanonicalMedia> = Vec::new();
    let ghost mut n: int = 0;
    while rest.len() > 0
        invariant
            0 <= n <= all.len(),
            rest@ == all.subrange(n, all.len() as int),
            out@.len() == n,
            forall|i: int| 0 <= i < n ==> partial_canonical(all[i], media_kind, #[trigger] out@[i]),
        decreases rest.len(),
    {
        let ghost before = rest@;
        let e = rest.remove(0);
        proof {
            assert(rest@ =~= all.subrange(n + 1, all.len() as int));
        }
        out.push(partial_entry_into_canonical(e, media_kind));
        proof {
            n = n + 1;
        }
    }
    out
}

/// The entries of every relation group, in order.
pub open spec fn flat_entries(groups: Seq<Vec<JikanRelationEntry>>) -> Seq<JikanRelationEntry>
    decreases groups.len(),
{
    if groups.len() == 0 {
        seq![]
    } else {
        flat_entries(groups.drop_last()) + groups.last()@
    }
}

/// Maps the entries of every relation group, in order.
pub fn related_result(groups: Vec<Vec<JikanRelationEntry>>) -> (r: Vec<CanonicalMedia>)
    ensures
        r@.len() == flat_entries(groups@).len(),
        forall|i: int|
            0 <= i < r@.len() ==> relation_canonical(flat_entries(groups@)[i], #[trigger] r@[i]),
{
    let ghost all = groups@;
    let mut rest = groups;
    let mut out: Vec<CanonicalMedia> = Vec::new();
    let ghost mut done: Seq<Vec<JikanRelationEntry>> = seq![];
    while rest.len() > 0
        invariant
            done + rest@ == all,
            out@.len() == flat_entries(done).len(),
            forall|i: int|
                0 <= i < out@.len() ==> relation_canonical(flat_entries(done)[i], #[trigger] out@[i]),
        decreases rest.len(),
    {
        let ghost before = rest@;
        let group = rest.remove(0);
        let ghost g = group;
        proof {
            assert(g == before[0]);
            assert(rest@ =~= before.subrange(1, before.len() as int));
            assert((done.push(g)).drop_last() =~= done);
        }
        let ghost base = out@;
        let mut entries = group;
        let ghost mut k: int = 0;
        while entries.len() > 0
            invariant
                0 <= k <= g@.len(),
                entries@ == g@.subrange(k, g@.len() as int),
                out@.len() == base.len() + k,
                forall|i: int| 0 <= i < base.len() ==> out@[i] == base[i],
                base.len() == flat_entries(done).len(),
                forall|i: int|
                    0 <= i < base.len() ==> relation_canonical(flat_entries(done)[i], #[trigger] base[i]),
                forall|i: int|
                    0 <= i < k ==> relation_canonical(g@[i], #[trigger] out@[base.len() + i]),
            decreases entries.len(),
        {
            let e = entries.remove(0);
            proof {
                assert(entries@ =~= g@.subrange(k + 1, g@.len() as int));
            }
            out.push(relation_entry_into_canonical(e));
            proof {
                k = k + 1;
            }
        }
        proof {
            let fd = flat_entries(done.push(g));
            assert(fd =~= flat_entries(done) + g@);
            assert forall|i: int| 0 <= i < out@.len() implies relation_canonical(
                fd[i],
                #[trigger] out@[i],
            ) by {
                if i < base.len() {
                    assert(out@[i] == base[i]);
                    assert(fd[i] == flat_entries(done)[i]);
                } else {
                    assert(fd[i] == g@[i - base.len()]);
                    assert(out@[base.len() + (i - base.len())] == out@[i]);
                }
            }
            done = done.push(g);
            assert(done + rest@ =~= all);
        }
    }
    assert(done =~= all);
    out
}

/// A Jikan record is adult content exactly when its rating mentions "Rx",
/// "Hentai", "R+" or "Mild Nudity"; a record without a rating is not.
pub proof fn lemma_jikan_nsfw_by_rating(item: JikanMedia, kind: MediaKind, m: CanonicalMedia)
    requires
        jikan_canonical(item, kind, m),
    ensures
        m.nsfw <==> (item.rating matches Some(r) && (contains_seq(r@, "Rx"@) || contains_seq(
            r@,
            "Hentai"@,
        ) || contains_seq(r@, "R+"@) || contains_seq(r@, "Mild Nudity"@))),
{
}

} // verus!
