//! AniList: the decoded GraphQL media records, their mapping onto the
//! canonical model and the handling of a response's error list.

use vstd::prelude::*;
use vstd::string::StringExecFns;
use crate::error::Error;
use crate::model::{CanonicalMedia, ExternalId, MediaKind, SourceName, SourcePayload, SyncCursor};
use crate::text::{
    clone_string, contains_seq, decimal_signed, i64_to_decimal, join_str, join_strings, lower_seq,
    str_contains, str_to_ascii_lower, views,
};
use crate::remote::{format_matches, spec_format_matches};
use super::{first_some3, opt_view, FetchPage};

verus! {

/// The title block of an AniList media record.
#[derive(Debug, Clone)]
pub struct AniListTitle {
    pub romaji: Option<String>,
    pub english: Option<String>,
    pub native: Option<String>,
}

/// The cover image block of an AniList media record.
#[derive(Debug, Clone)]
pub struct AniListCoverImage {
    pub medium: Option<String>,
    pub large: Option<String>,
    pub extra_large: Option<String>,
}

/// An AniList media record as decoded from a GraphQL response.
///
/// `average_score` is AniList's 0–100 score in hundredths of a point;
/// `raw_json` is the record serialized back to JSON text.
#[derive(Debug, Clone)]
pub struct AniListMedia {
    pub id: i64,
    pub id_mal: Option<i64>,
    pub title: AniListTitle,
    pub synonyms: Vec<String>,
    pub description: Option<String>,
    pub format: Option<String>,
    pub status: Option<String>,
    pub episodes: Option<i32>,
    pub chapters: Option<i32>,
    pub volumes: Option<i32>,
    pub country_of_origin: Option<String>,
    pub season: Option<String>,
    pub season_year: Option<i32>,
    pub genres: Vec<String>,
    pub updated_at: Option<i64>,
    pub site_url: Option<String>,
    pub is_adult: Option<bool>,
    pub average_score: Option<i64>,
    pub banner_image: Option<String>,
    pub cover_image: Option<AniListCoverImage>,
    pub tags: Vec<String>,
    pub raw_json: String,
}

/// The `Page` block of an AniList response.
#[derive(Debug, Clone)]
pub struct AniListPage {
    pub has_next_page: bool,
    pub media: Vec<AniListMedia>,
}

/// The GraphQL media type requested for a media kind.
pub open spec fn anilist_type_name(kind: MediaKind) -> Seq<char> {
    match kind {
        MediaKind::Manga => "MANGA"@,
        _ => "ANIME"@,
    }
}

/// The GraphQL media type requested for a media kind.
pub fn media_kind_str(kind: MediaKind) -> (r: &'static str)
    ensures
        r@ == anilist_type_name(kind),
{
    match kind {
        MediaKind::Anime | MediaKind::Show | MediaKind::Movie => "ANIME",
        MediaKind::Manga => "MANGA",
    }
}

/// The display title: English, else romaji, else native.
pub open spec fn anilist_title(t: AniListTitle) -> Option<String> {
    first_some3(t.english, t.romaji, t.native)
}

/// The cover image: extra large, else large, else medium.
pub open spec fn anilist_cover(c: Option<AniListCoverImage>) -> Option<String> {
    match c {
        Some(c) => first_some3(c.extra_large, c.large, c.medium),
        None => None,
    }
}

/// The score on the normalized scale in basis points, clamped to `0..=10000`.
pub open spec fn anilist_rating(score: Option<i64>) -> Option<u64> {
    match score {
        Some(h) => Some(
            if h < 0 {
                0u64
            } else if h > 10000 {
                10000u64
            } else {
                h as u64
            },
        ),
        None => None,
    }
}

/// An optional string's view, lowercased (ASCII).
pub open spec fn opt_lower(o: Option<String>) -> Option<Seq<char>> {
    match o {
        Some(s) => Some(lower_seq(s@)),
        None => None,
    }
}

/// The message for a record without any title.
pub open spec fn untitled_message(id: i64) -> Seq<char> {
    "AniList media "@ + decimal_signed(id as int) + " has no usable title"@
}

/// `m` is the canonical form of the AniList record `item` for `kind`.
pub open spec fn anilist_canonical(item: AniListMedia, kind: MediaKind, m: CanonicalMedia) -> bool {
    &&& m.media_kind == kind
    &&& anilist_title(item.title) == Some(m.title_display)
    &&& m.title_romaji == item.title.romaji
    &&& m.title_english == item.title.english
    &&& m.title_native == item.title.native
    &&& m.synopsis == item.description
    &&& m.format == item.format
    &&& m.status == item.status
    &&& opt_view(m.season) == opt_lower(item.season)
    &&& m.season_year == item.season_year
    &&& m.episodes == item.episodes
    &&& m.chapters == item.chapters
    &&& m.volumes == item.volumes
    &&& m.country_of_origin == item.country_of_origin
    &&& m.cover_image == anilist_cover(item.cover_image)
    &&& m.banner_image == item.banner_image
    &&& m.provider_rating == anilist_rating(item.average_score)
    &&& m.nsfw == (item.is_adult == Some(true))
    &&& m.aliases@ == item.synonyms@
    &&& m.genres@ == item.genres@
    &&& m.tags@ == item.tags@
    &&& m.external_ids@.len() == (if item.id_mal is Some { 2int } else { 1int })
    &&& m.external_ids@[0].source == SourceName::AniList
    &&& m.external_ids@[0].source_id@ == decimal_signed(item.id as int)
    &&& m.external_ids@[0].url == item.site_url
    &&& (item.id_mal matches Some(mal) ==> {
        &&& m.external_ids@[1].source == SourceName::MyAnimeList
        &&& m.external_ids@[1].source_id@ == decimal_signed(mal as int)
        &&& m.external_ids@[1].url is None
    })
    &&& m.source_payloads@.len() == 1
    &&& m.source_payloads@[0].source == SourceName::AniList
    &&& m.source_payloads@[0].source_id@ == decimal_signed(item.id as int)
    &&& m.source_payloads@[0].url == item.site_url
    &&& opt_view(m.source_payloads@[0].remote_updated_at) == (match item.updated_at {
        Some(t) => Some(decimal_signed(t as int)),
        None => None,
    })
    &&& m.source_payloads@[0].raw_json == Some(item.raw_json)
    &&& m.field_provenance@.len() == 0
}

/// Maps one AniList record onto the canonical model; a record without any
/// title is refused.
pub fn into_canonical(item: AniListMedia, kind: MediaKind) -> (r: Result<CanonicalMedia, Error>)
    ensures
        anilist_title(item.title) is None ==> (r matches Err(Error::Validation(msg)) && msg@
            == untitled_message(item.id)),
        anilist_title(item.title) is Some ==> (r matches Ok(m) && anilist_canonical(
            item,
            kind,
            m,
        )),
{
    let ghost orig = item;
    let title_display = match &item.title.english {
        Some(t) => clone_string(t),
        None => match &item.title.romaji {
            Some(t) => clone_string(t),
            None => match &item.title.native {
                Some(t) => clone_string(t),
                None => {
                    let mut msg = String::from_str("AniList media ");
                    let id = i64_to_decimal(item.id);
                    msg.append(id.as_str());
                    msg.append(" has no usable title");
                    return Err(Error::Validation(msg));
                },
            },
        },
    };
    let id_text = i64_to_decimal(item.id);
    let mut external_ids: Vec<ExternalId> = Vec::new();
    external_ids.push(
        ExternalId {
            source: SourceName::AniList,
            source_id: clone_string(&id_text),
            url: match &item.site_url {
                Some(u) => Some(clone_string(u)),
                None => None,
            },
        },
    );
    if let Some(mal_id) = item.id_mal {
        external_ids.push(
            ExternalId { source: SourceName::MyAnimeList, source_id: i64_to_decimal(mal_id), url: None },
        );
    }
    let season = match &item.season {
        Some(s) => Some(str_to_ascii_lower(s.as_str())),
        None => None,
    };
    let cover_image = match &item.cover_image {
        Some(c) => match &c.extra_large {
            Some(u) => Some(clone_string(u)),
            None => match &c.large {
                Some(u) => Some(clone_string(u)),
                None => match &c.medium {
                    Some(u) => Some(clone_string(u)),
                    None => None,
                },
            },
        },
        None => None,
    };
    let provider_rating: Option<u64> = match item.average_score {
        Some(h) => Some(
            if h < 0 {
                0u64
            } else if h > 10000 {
                10000u64
            } else {
                h as u64
            },
        ),
        None => None,
    };
    let remote_updated_at = match item.updated_at {
        Some(t) => Some(i64_to_decimal(t)),
        None => None,
    };
    let nsfw = match item.is_adult {
        Some(b) => b,
        None => false,
    };
    let mut source_payloads: Vec<SourcePayload> = Vec::new();
    source_payloads.push(
        SourcePayload {
            source: SourceName::AniList,
            source_id: id_text,
            url: item.site_url,
            remote_updated_at,
            raw_json: Some(item.raw_json),
        },
    );
    let m = CanonicalMedia {
        media_kind: kind,
        title_display,
        title_romaji: item.title.romaji,
        title_english: item.title.english,
        title_native: item.title.native,
        synopsis: item.description,
        format: item.format,
        status: item.status,
        season,
        season_year: item.season_year,
        episodes: item.episodes,
        chapters: item.chapters,
        volumes: item.volumes,
        country_of_origin: item.country_of_origin,
        cover_image,
        banner_image: item.banner_image,
        provider_rating,
        nsfw,
        aliases: item.synonyms,
        genres: item.genres,
        tags: item.tags,
        external_ids,
        source_payloads,
        field_provenance: Vec::new(),
    };
    assert(anilist_canonical(orig, kind, m));
    Ok(m)
}

/// Every record has a title.
pub open spec fn all_titled(items: Seq<AniListMedia>) -> bool {
    forall|i: int| 0 <= i < items.len() ==> (#[trigger] items[i]).title.english is Some
        || items[i].title.romaji is Some || items[i].title.native is Some
}

/// The error for the first record of `items` without a title.
pub open spec fn first_untitled_error(items: Seq<AniListMedia>, e: Error) -> bool {
    exists|i: int|
        0 <= i < items.len() && anilist_title(#[trigger] items[i].title) is None && all_titled(
            items.subrange(0, i),
        ) && (e matches Error::Validation(msg) && msg@ == untitled_message(items[i].id))
}

/// The records whose format passes the filter, in order.
pub open spec fn kept_media(items: Seq<AniListMedia>, format: Option<String>) -> Seq<AniListMedia>
    decreases items.len(),
{
    if items.len() == 0 {
        seq![]
    } else {
        let k = kept_media(items.drop_last(), format);
        if spec_format_matches(format, items.last().format) {
            k.push(items.last())
        } else {
            k
        }
    }
}

/// Without a filter every record is kept.
pub proof fn lemma_kept_media_all(items: Seq<AniListMedia>)
    ensures
        kept_media(items, None) == items,
    decreases items.len(),
{
    if items.len() > 0 {
        lemma_kept_media_all(items.drop_last());
        assert(items.drop_last().push(items.last()) =~= items);
    }
}

/// `out` is the canonical form of each of `items`, in order.
pub open spec fn maps_all(items: Seq<AniListMedia>, kind: MediaKind, out: Seq<CanonicalMedia>) -> bool {
    out.len() == items.len() && forall|i: int|
        0 <= i < items.len() ==> anilist_canonical(items[i], kind, #[trigger] out[i])
}

/// Maps a list of records, refusing the list at its first untitled
/// record; then keeps the records whose format passes the filter.
pub fn map_media(items: Vec<AniListMedia>, kind: MediaKind, format: &Option<String>) -> (r: Result<
    Vec<CanonicalMedia>,
    Error,
>)
    ensures
        all_titled(items@) ==> (r matches Ok(v) && maps_all(kept_media(items@, *format), kind, v@)),
        !all_titled(items@) ==> (r matches Err(e) && first_untitled_error(items@, e)),
{
    let ghost all = items@;
    let mut i: usize = 0;
    while i < items.len()
        invariant
            i <= items@.len(),
            items@ == all,
            all_titled(all.subrange(0, i as int)),
        decreases items.len() - i,
    {
        let t = &items[i].title;
        if t.english.is_none() && t.romaji.is_none() && t.native.is_none() {
            let mut msg = String::from_str("AniList media ");
            let id = i64_to_decimal(items[i].id);
            msg.append(id.as_str());
            msg.append(" has no usable title");
            let e = Error::Validation(msg);
            proof {
                assert(anilist_title(all[i as int].title) is None);
                assert(first_untitled_error(all, e));
            }
            return Err(e);
        }
        proof {
            assert forall|j: int| 0 <= j < i + 1 implies (#[trigger] all.subrange(
                0,
                i + 1,
            )[j]).title.english is Some || all.subrange(0, i + 1)[j].title.romaji is Some
                || all.subrange(0, i + 1)[j].title.native is Some by {
                if j < i {
                    assert(all.subrange(0, i + 1)[j] == all.subrange(0, i as int)[j]);
                }
            }
        }
        i = i + 1;
    }
    assert(all.subrange(0, all.len() as int) =~= all);
    let mut rest = items;
    let mut out: Vec<CanonicalMedia> = Vec::new();
    let ghost mut done: Seq<AniListMedia> = seq![];
    while rest.len() > 0
        invariant
            all_titled(all),
            done + rest@ == all,
            maps_all(kept_media(done, *format), kind, out@),
        decreases rest.len(),
    {
        let ghost before = rest@;
        let item = rest.remove(0);
        let ghost g = item;
        proof {
            assert(g == before[0]);
            assert(rest@ =~= before.subrange(1, before.len() as int));
            assert(all[done.len() as int] == g);
            assert((done.push(g)).drop_last() =~= done);
        }
        if format_matches(format, &item.format) {
            let m = into_canonical(item, kind);
            match m {
                Ok(m) => {
                    out.push(m);
                },
                Err(_) => {
                    proof {
                        assert(anilist_title(all[done.len() as int].title) is Some);
                    }
                },
            }
        }
        proof {
            done = done.push(g);
            assert(done + rest@ =~= all);
        }
    }
    assert(done =~= all);
    Ok(out)
}

/// The message that AniList sends for a page past its last.
pub open spec fn page_limit_message() -> Seq<char> {
    "Page must be between 1 and 100"@
}

/// Some error message says that the page is past AniList's limit.
pub open spec fn spec_page_exhausted(messages: Seq<String>) -> bool {
    exists|i: int| 0 <= i < messages.len() && contains_seq((#[trigger] messages[i])@, page_limit_message())
}

/// Whether the response's errors say the page is past AniList's hard
/// limit of 100 pages.
pub fn is_anilist_page_exhausted(messages: &Vec<String>) -> (r: bool)
    ensures
        r == spec_page_exhausted(messages@),
{
    let mut i: usize = 0;
    while i < messages.len()
        invariant
            i <= messages@.len(),
            forall|j: int| 0 <= j < i ==> !contains_seq((#[trigger] messages@[j])@, page_limit_message()),
        decreases messages.len() - i,
    {
        proof {
            reveal_strlit("Page must be between 1 and 100");
        }
        if str_contains(messages[i].as_str(), "Page must be between 1 and 100") {
            return true;
        }
        i = i + 1;
    }
    false
}

/// The error for a response that carries errors.
pub open spec fn api_errors_message(messages: Seq<String>) -> Seq<char> {
    "AniList API errors: "@ + join_str(views(messages), ", "@)
}

/// Refuses a response that carries errors, listing their messages.
pub fn check_errors(messages: &Vec<String>) -> (r: Result<(), Error>)
    ensures
        messages@.len() == 0 <==> r is Ok,
        messages@.len() > 0 ==> (r matches Err(Error::Validation(m)) && m@ == api_errors_message(
            messages@,
        )),
{
    if messages.len() == 0 {
        return Ok(());
    }
    let joined = join_strings(messages, ", ");
    let mut m = String::from_str("AniList API errors: ");
    m.append(joined.as_str());
    Err(Error::Validation(m))
}

/// The error for a response without its `data` block.
pub open spec fn missing_data_message() -> Seq<char> {
    "AniList response missing data"@
}

/// What a page of a bulk fetch comes to: an empty last page when AniList
/// says the page is past its limit, the response's errors, a missing
/// `data` block, or the page's records with the cursor of the next page.
pub fn page_result(
    errors: &Vec<String>,
    page: Option<AniListPage>,
    kind: MediaKind,
    cursor: SyncCursor,
) -> (r: Result<FetchPage, Error>)
    requires
        cursor.page < usize::MAX,
    ensures
        spec_page_exhausted(errors@) ==> (r matches Ok(p) && p.items@.len() == 0
            && p.next_cursor is None),
        !spec_page_exhausted(errors@) && errors@.len() > 0 ==> (r matches Err(
            Error::Validation(m),
        ) && m@ == api_errors_message(errors@)),
        !spec_page_exhausted(errors@) && errors@.len() == 0 && page is None ==> (r matches Err(
            Error::Validation(m),
        ) && m@ == missing_data_message()),
        page matches Some(p) ==> (!spec_page_exhausted(errors@) && errors@.len() == 0) ==> {
            &&& all_titled(p.media@) ==> (r matches Ok(fp) && maps_all(p.media@, kind, fp.items@)
                && fp.next_cursor == (if p.has_next_page {
                Some(SyncCursor { page: (cursor.page + 1) as usize })
            } else {
                None
            }))
            &&& !all_titled(p.media@) ==> (r matches Err(e) && first_untitled_error(p.media@, e))
        },
{
    if is_anilist_page_exhausted(errors) {
        return Ok(FetchPage { items: Vec::new(), next_cursor: None });
    }
    match check_errors(errors) {
        Err(e) => {
            return Err(e);
        },
        Ok(()) => {},
    }
    let p = match page {
        Some(p) => p,
        None => {
            return Err(Error::Validation(String::from_str("AniList response missing data")));
        },
    };
    let has_next = p.has_next_page;
    let ghost media = p.media@;
    proof {
        lemma_kept_media_all(media);
    }
    let items = map_media(p.media, kind, &None);
    match items {
        Err(e) => Err(e),
        Ok(items) => {
            let next_cursor = if has_next {
                Some(SyncCursor { page: cursor.page + 1 })
            } else {
                None
            };
            Ok(FetchPage { items, next_cursor })
        },
    }
}

/// What a search response comes to: its errors, a missing `data` block,
/// or the records whose format passes the filter.
pub fn search_result(
    errors: &Vec<String>,
    page: Option<AniListPage>,
    kind: MediaKind,
    format: &Option<String>,
) -> (r: Result<Vec<CanonicalMedia>, Error>)
    ensures
        errors@.len() > 0 ==> (r matches Err(Error::Validation(m)) && m@ == api_errors_message(
            errors@,
        )),
        errors@.len() == 0 && page is None ==> (r matches Err(Error::Validation(m)) && m@
            == missing_data_message()),
        page matches Some(p) ==> errors@.len() == 0 ==> {
            &&& all_titled(p.media@) ==> (r matches Ok(v) && maps_all(
                kept_media(p.media@, *format),
                kind,
                v@,
            ))
            &&& !all_titled(p.media@) ==> (r matches Err(e) && first_untitled_error(p.media@, e))
        },
{
    match check_errors(errors) {
        Err(e) => {
            return Err(e);
        },
        Ok(()) => {},
    }
    match page {
        Some(p) => map_media(p.media, kind, format),
        None => Err(Error::Validation(String::from_str("AniList response missing data"))),
    }
}

/// What a response for one record comes to: its errors, nothing when the
/// record is absent, or the record mapped.
pub fn single_result(errors: &Vec<String>, media: Option<AniListMedia>, kind: MediaKind) -> (r:
    Result<Option<CanonicalMedia>, Error>)
    ensures
        errors@.len() > 0 ==> (r matches Err(Error::Validation(m)) && m@ == api_errors_message(
            errors@,
        )),
        errors@.len() == 0 && media is None ==> r matches Ok(None),
        media matches Some(item) ==> errors@.len() == 0 ==> {
            &&& anilist_title(item.title) is Some ==> (r matches Ok(Some(m)) && anilist_canonical(
                item,
                kind,
                m,
            ))
            &&& anilist_title(item.title) is None ==> (r matches Err(Error::Validation(msg))
                && msg@ == untitled_message(item.id))
        },
{
    match check_errors(errors) {
        Err(e) => {
            return Err(e);
        },
        Ok(()) => {},
    }
    match media {
        None => Ok(None),
        Some(item) => match into_canonical(item, kind) {
            Ok(m) => Ok(Some(m)),
            Err(e) => Err(e),
        },
    }
}

/// What a response listing linked records (recommendations or relations)
/// comes to: its errors, or the present records mapped.
pub fn linked_result(errors: &Vec<String>, linked: Vec<Option<AniListMedia>>, kind: MediaKind) -> (r:
    Result<Vec<CanonicalMedia>, Error>)
    ensures
        errors@.len() > 0 ==> (r matches Err(Error::Validation(m)) && m@ == api_errors_message(
            errors@,
        )),
        errors@.len() == 0 ==> {
            &&& all_titled(present_media(linked@)) ==> (r matches Ok(v) && maps_all(
                present_media(linked@),
                kind,
                v@,
            ))
            &&& !all_titled(present_media(linked@)) ==> (r matches Err(e) && first_untitled_error(
                present_media(linked@),
                e,
            ))
        },
{
    match check_errors(errors) {
        Err(e) => {
            return Err(e);
        },
        Ok(()) => {},
    }
    let ghost all = linked@;
    let mut rest = linked;
    let mut present: Vec<AniListMedia> = Vec::new();
    let ghost mut done: Seq<Option<AniListMedia>> = seq![];
    while rest.len() > 0
        invariant
            done + rest@ == all,
            present@ == present_media(done),
        decreases rest.len(),
    {
        let ghost before = rest@;
        let x = rest.remove(0);
        let ghost g = x;
        proof {
            assert(g == before[0]);
            assert(rest@ =~= before.subrange(1, before.len() as int));
            assert((done.push(g)).drop_last() =~= done);
        }
        if let Some(m) = x {
            present.push(m);
        }
        proof {
            done = done.push(g);
            assert(done + rest@ =~= all);
        }
    }
    assert(done =~= all);
    proof {
        lemma_kept_media_all(present@);
    }
    map_media(present, kind, &None)
}

/// The records that are present, in order.
pub open spec fn present_media(v: Seq<Option<AniListMedia>>) -> Seq<AniListMedia>
    decreases v.len(),
{
    if v.len() == 0 {
        seq![]
    } else {
        let k = present_media(v.drop_last());
        match v.last() {
            Some(m) => k.push(m),
            None => k,
        }
    }
}

/// The display title of an AniList record is its English title when it has
/// one; the romanized title only when there is no English one; the native
/// title only when there is neither.
pub proof fn lemma_anilist_display_title(item: AniListMedia, kind: MediaKind, m: CanonicalMedia)
    requires
        anilist_canonical(item, kind, m),
    ensures
        item.title.english matches Some(e) ==> m.title_display == e,
        item.title.english is None ==> (item.title.romaji matches Some(r) ==> m.title_display == r),
        item.title.english is None && item.title.romaji is None ==> item.title.native == Some(
            m.title_display,
        ),
{
}

} // verus!
