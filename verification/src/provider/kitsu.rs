//! Kitsu (JSON:API): the decoded resources with their side-loaded
//! categories and mappings, and their mapping onto the canonical model.

use vstd::prelude::*;
use vstd::string::StringExecFns;
use crate::error::Error;
use crate::model::{
    CanonicalEpisode, CanonicalMedia, ExternalId, MediaKind, SourceName, SourcePayload, SyncCursor,
};
use crate::text::{
    clone_opt_string, clone_string, clone_strings, contains_seq, lower_seq, str_contains, str_eq, str_to_ascii_lower,
    spec_year_prefix, year_prefix,
};
use crate::remote::{format_matches, spec_format_matches};
use super::{first_some3, opt_view, present_strings, FetchPage};

verus! {

/// An image set of a Kitsu resource.
#[derive(Debug, Clone)]
pub struct KitsuImageSet {
    pub tiny: Option<String>,
    pub small: Option<String>,
    pub medium: Option<String>,
    pub large: Option<String>,
    pub original: Option<String>,
}

/// The localized titles of a Kitsu resource or episode.
#[derive(Debug, Clone)]
pub struct KitsuTitles {
    pub en: Option<String>,
    pub en_jp: Option<String>,
    pub ja_jp: Option<String>,
}

/// The attributes of a Kitsu anime or manga resource.
///
/// `average_rating` is Kitsu's 0–100 average in hundredths of a point.
#[derive(Debug, Clone)]
pub struct KitsuAttributes {
    pub updated_at: Option<String>,
    pub description: Option<String>,
    pub synopsis: Option<String>,
    pub canonical_title: Option<String>,
    pub titles: KitsuTitles,
    pub abbreviated_titles: Vec<String>,
    pub average_rating: Option<i64>,
    pub start_date: Option<String>,
    pub age_rating: Option<String>,
    pub status: Option<String>,
    pub episode_count: Option<i32>,
    pub chapter_count: Option<i32>,
    pub volume_count: Option<i32>,
    pub subtype: Option<String>,
    pub nsfw: Option<bool>,
    pub cover_image: Option<KitsuImageSet>,
    pub poster_image: Option<KitsuImageSet>,
}

/// A reference from a resource to a side-loaded resource.
#[derive(Debug, Clone)]
pub struct KitsuRef {
    pub id: String,
    pub kind: String,
}

/// The relationships of a resource: category and mapping references.
#[derive(Debug, Clone)]
pub struct KitsuRelationships {
    pub categories: Option<Vec<KitsuRef>>,
    pub mappings: Option<Vec<KitsuRef>>,
}

/// A Kitsu anime or manga resource; `raw_json` is the resource serialized
/// back to JSON text.
#[derive(Debug, Clone)]
pub struct KitsuResource {
    pub id: String,
    pub attributes: KitsuAttributes,
    pub relationships: Option<KitsuRelationships>,
    pub raw_json: String,
}

/// The attributes of a side-loaded mapping to another site.
#[derive(Debug, Clone)]
pub struct KitsuMapping {
    pub external_site: String,
    pub external_id: Option<String>,
}

/// A side-loaded resource.
#[derive(Debug, Clone)]
pub enum KitsuIncluded {
    Category { id: String, title: Option<String> },
    Mapping { id: String, mapping: KitsuMapping },
    Unknown,
}

/// The attributes of a Kitsu episode.
#[derive(Debug, Clone)]
pub struct KitsuEpisodeAttributes {
    pub titles: KitsuTitles,
    pub description: Option<String>,
    pub synopsis: Option<String>,
    pub number: Option<i32>,
    pub relative_number: Option<i32>,
    pub airdate: Option<String>,
    pub runtime: Option<i32>,
    pub season_number: Option<i32>,
    pub thumbnail: Option<KitsuImageSet>,
}

/// A Kitsu episode resource; `titles_json` is its titles block and
/// `raw_json` the whole resource, serialized back to JSON text.
#[derive(Debug, Clone)]
pub struct KitsuEpisodeResource {
    pub id: String,
    pub attributes: KitsuEpisodeAttributes,
    pub titles_json: String,
    pub raw_json: String,
}

/// The path segment of a media kind.
pub open spec fn kitsu_path(kind: MediaKind) -> Seq<char> {
    match kind {
        MediaKind::Anime | MediaKind::Show => "anime"@,
        MediaKind::Manga | MediaKind::Movie => "manga"@,
    }
}

/// The path segment of a media kind (`anime` or `manga`).
pub fn kind_path(kind: MediaKind) -> (r: &'static str)
    ensures
        r@ == kitsu_path(kind),
{
    match kind {
        MediaKind::Anime | MediaKind::Show => "anime",
        MediaKind::Manga | MediaKind::Movie => "manga",
    }
}

/// The path of the trending list of a media kind.
pub fn trending_path(kind: MediaKind) -> (r: &'static str)
    ensures
        r@ == "trending/"@ + kitsu_path(kind),
{
    proof {
        reveal_strlit("trending/anime");
        reveal_strlit("trending/manga");
        reveal_strlit("trending/");
        reveal_strlit("anime");
        reveal_strlit("manga");
    }
    match kind {
        MediaKind::Anime | MediaKind::Show => "trending/anime",
        MediaKind::Manga | MediaKind::Movie => "trending/manga",
    }
}

/// The best image of a set: original, large, medium, small, then tiny.
pub open spec fn spec_best_image(img: KitsuImageSet) -> Option<String> {
    match img.original {
        Some(u) => Some(u),
        None => match img.large {
            Some(u) => Some(u),
            None => first_some3(img.medium, img.small, img.tiny),
        },
    }
}

/// Picks the best available URL of an image set.
pub fn best_image(img: &KitsuImageSet) -> (r: Option<String>)
    ensures
        r == spec_best_image(*img),
{
    if img.original.is_some() {
        clone_opt_string(&img.original)
    } else if img.large.is_some() {
        clone_opt_string(&img.large)
    } else if img.medium.is_some() {
        clone_opt_string(&img.medium)
    } else if img.small.is_some() {
        clone_opt_string(&img.small)
    } else {
        clone_opt_string(&img.tiny)
    }
}

/// The title of the first side-loaded category that a reference names
/// and that has a title.
pub open spec fn category_title(included: Seq<KitsuIncluded>, r: KitsuRef) -> Option<String>
    decreases included.len(),
{
    if included.len() == 0 {
        None
    } else {
        match included[0] {
            KitsuIncluded::Category { id, title } => if id@ == r.id@ && r.kind@ == "categories"@
                && title is Some {
                title
            } else {
                category_title(included.skip(1), r)
            },
            _ => category_title(included.skip(1), r),
        }
    }
}

/// The first side-loaded mapping that a reference names.
pub open spec fn mapping_of(included: Seq<KitsuIncluded>, r: KitsuRef) -> Option<KitsuMapping>
    decreases included.len(),
{
    if included.len() == 0 {
        None
    } else {
        match included[0] {
            KitsuIncluded::Mapping { id, mapping } => if id@ == r.id@ && r.kind@ == "mappings"@ {
                Some(mapping)
            } else {
                mapping_of(included.skip(1), r)
            },
            _ => mapping_of(included.skip(1), r),
        }
    }
}

/// The category titles of a list of references, in order.
pub open spec fn category_titles(refs: Seq<KitsuRef>, included: Seq<KitsuIncluded>) -> Seq<String>
    decreases refs.len(),
{
    if refs.len() == 0 {
        seq![]
    } else {
        let k = category_titles(refs.drop_last(), included);
        match category_title(included, refs.last()) {
            Some(t) => k.push(t),
            None => k,
        }
    }
}

/// The mappings of a list of references, in order.
pub open spec fn mappings_of(refs: Seq<KitsuRef>, included: Seq<KitsuIncluded>) -> Seq<KitsuMapping>
    decreases refs.len(),
{
    if refs.len() == 0 {
        seq![]
    } else {
        let k = mappings_of(refs.drop_last(), included);
        match mapping_of(included, refs.last()) {
            Some(m) => k.push(m),
            None => k,
        }
    }
}

/// The category titles of a resource.
pub open spec fn spec_categories(resource: KitsuResource, included: Seq<KitsuIncluded>) -> Seq<String> {
    match resource.relationships {
        Some(rels) => match rels.categories {
            Some(refs) => category_titles(refs@, included),
            None => seq![],
        },
        None => seq![],
    }
}

/// The mappings of a resource.
pub open spec fn spec_mappings(resource: KitsuResource, included: Seq<KitsuIncluded>) -> Seq<KitsuMapping> {
    match resource.relationships {
        Some(rels) => match rels.mappings {
            Some(refs) => mappings_of(refs@, included),
            None => seq![],
        },
        None => seq![],
    }
}

fn find_category(included: &Vec<KitsuIncluded>, r: &KitsuRef) -> (t: Option<String>)
    ensures
        t == category_title(included@, *r),
{
    proof {
        reveal_strlit("categories");
        assert(included@.skip(0) =~= included@);
    }
    let mut i: usize = 0;
    while i < included.len()
        invariant
            i <= included@.len(),
            category_title(included@, *r) == category_title(included@.skip(i as int), *r),
        decreases included.len() - i,
    {
        proof {
            assert(included@.skip(i as int).skip(1) =~= included@.skip(i + 1));
            assert(included@.skip(i as int)[0] == included@[i as int]);
        }
        match &included[i] {
            KitsuIncluded::Category { id, title } => {
                if str_eq(id.as_str(), r.id.as_str()) && str_eq(r.kind.as_str(), "categories")
                    && title.is_some() {
                    return clone_opt_string(title);
                }
            },
            _ => {},
        }
        i = i + 1;
    }
    None
}

fn find_mapping(included: &Vec<KitsuIncluded>, r: &KitsuRef) -> (m: Option<KitsuMapping>)
    ensures
        m == mapping_of(included@, *r),
{
    proof {
        reveal_strlit("mappings");
        assert(included@.skip(0) =~= included@);
    }
    let mut i: usize = 0;
    while i < included.len()
        invariant
            i <= included@.len(),
            mapping_of(included@, *r) == mapping_of(included@.skip(i as int), *r),
        decreases included.len() - i,
    {
        proof {
            assert(included@.skip(i as int).skip(1) =~= included@.skip(i + 1));
            assert(included@.skip(i as int)[0] == included@[i as int]);
        }
        match &included[i] {
            KitsuIncluded::Mapping { id, mapping } => {
                if str_eq(id.as_str(), r.id.as_str()) && str_eq(r.kind.as_str(), "mappings") {
                    return Some(
                        KitsuMapping {
                            external_site: clone_string(&mapping.external_site),
                            external_id: clone_opt_string(&mapping.external_id),
                        },
                    );
                }
            },
            _ => {},
        }
        i = i + 1;
    }
    None
}

/// The titles of the side-loaded categories a resource refers to, in the
/// order of its references.
pub fn extract_categories(resource: &KitsuResource, included: &Vec<KitsuIncluded>) -> (r: Vec<String>)
    ensures
        r@ == spec_categories(*resource, included@),
{
    let refs = match &resource.relationships {
        Some(rels) => match &rels.categories {
            Some(refs) => refs,
            None => {
                return Vec::new();
            },
        },
        None => {
            return Vec::new();
        },
    };
    let mut out: Vec<String> = Vec::new();
    let mut i: usize = 0;
    while i < refs.len()
        invariant
            i <= refs@.len(),
            out@ == category_titles(refs@.subrange(0, i as int), included@),
        decreases refs.len() - i,
    {
        proof {
            assert(refs@.subrange(0, i + 1).drop_last() =~= refs@.subrange(0, i as int));
        }
        match find_category(included, &refs[i]) {
            Some(t) => out.push(t),
            None => {},
        }
        i = i + 1;
    }
    assert(refs@.subrange(0, refs@.len() as int) =~= refs@);
    out
}

/// The side-loaded mappings a resource refers to, in the order of its
/// references.
pub fn extract_mappings(resource: &KitsuResource, included: &Vec<KitsuIncluded>) -> (r: Vec<
    KitsuMapping,
>)
    ensures
        r@ == spec_mappings(*resource, included@),
{
    let refs = match &resource.relationships {
        Some(rels) => match &rels.mappings {
            Some(refs) => refs,
            None => {
                return Vec::new();
            },
        },
        None => {
            return Vec::new();
        },
    };
    let mut out: Vec<KitsuMapping> = Vec::new();
    let mut i: usize = 0;
    while i < refs.len()
        invariant
            i <= refs@.len(),
            out@ == mappings_of(refs@.subrange(0, i as int), included@),
        decreases refs.len() - i,
    {
        proof {
            assert(refs@.subrange(0, i + 1).drop_last() =~= refs@.subrange(0, i as int));
        }
        match find_mapping(included, &refs[i]) {
            Some(m) => out.push(m),
            None => {},
        }
        i = i + 1;
    }
    assert(refs@.subrange(0, refs@.len() as int) =~= refs@);
    out
}

/// The MyAnimeList ids among a resource's mappings: those with an id whose
/// site names MyAnimeList.
pub open spec fn mal_ids(mappings: Seq<KitsuMapping>) -> Seq<ExternalId>
    decreases mappings.len(),
{
    if mappings.len() == 0 {
        seq![]
    } else {
        let k = mal_ids(mappings.drop_last());
        let m = mappings.last();
        match m.external_id {
            Some(x) => if contains_seq(lower_seq(m.external_site@), "myanimelist"@) {
                k.push(ExternalId { source: SourceName::MyAnimeList, source_id: x, url: None })
            } else {
                k
            },
            None => k,
        }
    }
}

/// The display title: canonical, else English, else romanized, else Japanese.
pub open spec fn kitsu_title(a: KitsuAttributes) -> Option<String> {
    match a.canonical_title {
        Some(t) => Some(t),
        None => first_some3(a.titles.en, a.titles.en_jp, a.titles.ja_jp),
    }
}

/// The score on the normalized scale in basis points, clamped to `0..=10000`.
pub open spec fn kitsu_rating(rating: Option<i64>) -> Option<u64> {
    match rating {
        Some(h) => Some(
            if h < 0 {
                0u64
            } else if h > 10000 {
                10000u64
            } else {
                h as u64
            },
        ),
        None => None,
    }
}

/// The aliases: the abbreviated titles, then each localized title present.
pub open spec fn kitsu_aliases(a: KitsuAttributes) -> Seq<String> {
    a.abbreviated_titles@ + present_strings(seq![a.titles.en, a.titles.en_jp, a.titles.ja_jp])
}

/// The site link of a media kind.
pub open spec fn kitsu_url(kind: MediaKind) -> Seq<char> {
    "https://kitsu.io/"@ + kitsu_path(kind)
}

/// The message for a resource without any title.
pub open spec fn untitled_message(id: Seq<char>) -> Seq<char> {
    "Kitsu media "@ + id + " has no usable title"@
}

/// `m` is the canonical form of the resource for `kind`, with its
/// side-loaded resources `included`.
pub open spec fn kitsu_canonical(
    resource: KitsuResource,
    included: Seq<KitsuIncluded>,
    kind: MediaKind,
    m: CanonicalMedia,
) -> bool {
    let a = resource.attributes;
    &&& m.media_kind == kind
    &&& kitsu_title(a) == Some(m.title_display)
    &&& m.title_romaji == a.titles.en_jp
    &&& m.title_english == a.titles.en
    &&& m.title_native == a.titles.ja_jp
    &&& m.synopsis == (match a.synopsis {
        Some(s) => Some(s),
        None => a.description,
    })
    &&& m.format == a.subtype
    &&& m.status == a.status
    &&& m.season is None
    &&& m.season_year == (match a.start_date {
        Some(d) => spec_year_prefix(d@),
        None => None,
    })
    &&& m.episodes == a.episode_count
    &&& m.chapters == a.chapter_count
    &&& m.volumes == a.volume_count
    &&& m.country_of_origin is None
    &&& m.cover_image == (match a.poster_image {
        Some(i) => spec_best_image(i),
        None => None,
    })
    &&& m.banner_image == (match a.cover_image {
        Some(i) => spec_best_image(i),
        None => None,
    })
    &&& m.provider_rating == kitsu_rating(a.average_rating)
    &&& m.nsfw == (a.nsfw == Some(true) || opt_view(a.age_rating) == Some("R18"@))
    &&& m.aliases@ == kitsu_aliases(a)
    &&& m.genres@.len() == 0
    &&& m.tags@ == spec_categories(resource, included)
    &&& m.external_ids@.len() >= 1
    &&& m.external_ids@[0].source == SourceName::Kitsu
    &&& m.external_ids@[0].source_id == resource.id
    &&& opt_view(m.external_ids@[0].url) == Some(kitsu_url(kind))
    &&& m.external_ids@.skip(1) == mal_ids(spec_mappings(resource, included))
    &&& m.source_payloads@.len() == 1
    &&& m.source_payloads@[0].source == SourceName::Kitsu
    &&& m.source_payloads@[0].source_id == resource.id
    &&& opt_view(m.source_payloads@[0].url) == Some(kitsu_url(kind))
    &&& m.source_payloads@[0].remote_updated_at == a.updated_at
    &&& m.source_payloads@[0].raw_json == Some(resource.raw_json)
    &&& m.field_provenance@.len() == 0
}

fn site_url(kind: MediaKind) -> (r: String)
    ensures
        r@ == kitsu_url(kind),
{
    let mut u = String::from_str("https://kitsu.io/");
    u.append(kind_path(kind));
    u
}

/// Maps one resource onto the canonical model, with the categories and
/// MyAnimeList mappings it refers to; a resource without any title is
/// refused.
pub fn into_canonical(resource: &KitsuResource, included: &Vec<KitsuIncluded>, kind: MediaKind) -> (r:
    Result<CanonicalMedia, Error>)
    ensures
        kitsu_title(resource.attributes) is None ==> (r matches Err(Error::Validation(msg))
            && msg@ == untitled_message(resource.id@)),
        kitsu_title(resource.attributes) is Some ==> (r matches Ok(m) && kitsu_canonical(
            *resource,
            included@,
            kind,
            m,
        )),
{
    let a = &resource.attributes;
    let title_display = if a.canonical_title.is_some() {
        clone_opt_string(&a.canonical_title)
    } else if a.titles.en.is_some() {
        clone_opt_string(&a.titles.en)
    } else if a.titles.en_jp.is_some() {
        clone_opt_string(&a.titles.en_jp)
    } else {
        clone_opt_string(&a.titles.ja_jp)
    };
    let title_display = match title_display {
        Some(t) => t,
        None => {
            let mut msg = String::from_str("Kitsu media ");
            msg.append(resource.id.as_str());
            msg.append(" has no usable title");
            return Err(Error::Validation(msg));
        },
    };
    let mut aliases = clone_strings(&a.abbreviated_titles);
    let ghost base = aliases@;
    if let Some(t) = &a.titles.en {
        aliases.push(clone_string(t));
    }
    if let Some(t) = &a.titles.en_jp {
        aliases.push(clone_string(t));
    }
    if let Some(t) = &a.titles.ja_jp {
        aliases.push(clone_string(t));
    }
    proof {
        let ts = seq![a.titles.en, a.titles.en_jp, a.titles.ja_jp];
        assert(ts.drop_last().drop_last().drop_last() =~= Seq::<Option<String>>::empty());
        assert(ts.drop_last().drop_last() =~= seq![a.titles.en]);
        assert(ts.drop_last() =~= seq![a.titles.en, a.titles.en_jp]);
        reveal_with_fuel(present_strings, 4);
        assert(aliases@ =~= kitsu_aliases(*a));
    }
    let tags = extract_categories(resource, included);
    let mappings = extract_mappings(resource, included);
    let mut external_ids: Vec<ExternalId> = Vec::new();
    external_ids.push(
        ExternalId { source: SourceName::Kitsu, source_id: clone_string(&resource.id), url: Some(site_url(kind)) },
    );
    let mut i: usize = 0;
    while i < mappings.len()
        invariant
            i <= mappings@.len(),
            external_ids@.len() >= 1,
            external_ids@[0].source == SourceName::Kitsu,
            external_ids@[0].source_id == resource.id,
            opt_view(external_ids@[0].url) == Some(kitsu_url(kind)),
            external_ids@.skip(1) == mal_ids(mappings@.subrange(0, i as int)),
        decreases mappings.len() - i,
    {
        proof {
            reveal_strlit("myanimelist");
            assert(mappings@.subrange(0, i + 1).drop_last() =~= mappings@.subrange(0, i as int));
        }
        let ghost before = external_ids@;
        let m = &mappings[i];
        if let Some(x) = &m.external_id {
            let site = str_to_ascii_lower(m.external_site.as_str());
            if str_contains(site.as_str(), "myanimelist") {
                external_ids.push(
                    ExternalId { source: SourceName::MyAnimeList, source_id: clone_string(x), url: None },
                );
                assert(external_ids@.skip(1) =~= before.skip(1).push(external_ids@.last()));
            }
        }
        i = i + 1;
    }
    assert(mappings@.subrange(0, mappings@.len() as int) =~= mappings@);
    let season_year = match &a.start_date {
        Some(d) => year_prefix(d.as_str()),
        None => None,
    };
    let cover_image = match &a.poster_image {
        Some(img) => best_image(img),
        None => None,
    };
    let banner_image = match &a.cover_image {
        Some(img) => best_image(img),
        None => None,
    };
    let provider_rating: Option<u64> = match a.average_rating {
        Some(h) => Some(
            if h < 0 {
                0u64
            } else if h > 10000 {
                10000u64
            } else {
                h as u64
            },
        ),
        None => None,
    };
    proof {
        reveal_strlit("R18");
    }
    let adult_rating = match &a.age_rating {
        Some(r) => str_eq(r.as_str(), "R18"),
        None => false,
    };
    let nsfw = a.nsfw == Some(true) || adult_rating;
    let synopsis = if a.synopsis.is_some() {
        clone_opt_string(&a.synopsis)
    } else {
        clone_opt_string(&a.description)
    };
    let mut source_payloads: Vec<SourcePayload> = Vec::new();
    source_payloads.push(
        SourcePayload {
            source: SourceName::Kitsu,
            source_id: clone_string(&resource.id),
            url: Some(site_url(kind)),
            remote_updated_at: clone_opt_string(&a.updated_at),
            raw_json: Some(clone_string(&resource.raw_json)),
        },
    );
    let m = CanonicalMedia {
        media_kind: kind,
        title_display,
        title_romaji: clone_opt_string(&a.titles.en_jp),
        title_english: clone_opt_string(&a.titles.en),
        title_native: clone_opt_string(&a.titles.ja_jp),
        synopsis,
        format: clone_opt_string(&a.subtype),
        status: clone_opt_string(&a.status),
        season: None,
        season_year,
        episodes: a.episode_count,
        chapters: a.chapter_count,
        volumes: a.volume_count,
        country_of_origin: None,
        cover_image,
        banner_image,
        provider_rating,
        nsfw,
        aliases,
        genres: Vec::new(),
        tags,
        external_ids,
        source_payloads,
        field_provenance: Vec::new(),
    };
    Ok(m)
}

/// Every resource has a title.
pub open spec fn all_titled(items: Seq<KitsuResource>) -> bool {
    forall|i: int| 0 <= i < items.len() ==> kitsu_title((#[trigger] items[i]).attributes) is Some
}

/// The error for the first resource of `items` without a title.
pub open spec fn first_untitled_error(items: Seq<KitsuResource>, e: Error) -> bool {
    exists|i: int|
        0 <= i < items.len() && kitsu_title((#[trigger] items[i]).attributes) is None && all_titled(
            items.subrange(0, i),
        ) && (e matches Error::Validation(msg) && msg@ == untitled_message(items[i].id@))
}

/// The resources whose format passes the filter, in order.
pub open spec fn kept_media(items: Seq<KitsuResource>, format: Option<String>) -> Seq<KitsuResource>
    decreases items.len(),
{
    if items.len() == 0 {
        seq![]
    } else {
        let k = kept_media(items.drop_last(), format);
        if spec_format_matches(format, items.last().attributes.subtype) {
            k.push(items.last())
        } else {
            k
        }
    }
}

/// Without a filter every resource is kept.
pub proof fn lemma_kept_media_all(items: Seq<KitsuResource>)
    ensures
        kept_media(items, None) == items,
    decreases items.len(),
{
    if items.len() > 0 {
        lemma_kept_media_all(items.drop_last());
        assert(items.drop_last().push(items.last()) =~= items);
    }
}

/// `out` is the canonical form of each of `items`, in order.
pub open spec fn maps_all(
    items: Seq<KitsuResource>,
    included: Seq<KitsuIncluded>,
    kind: MediaKind,
    out: Seq<CanonicalMedia>,
) -> bool {
    out.len() == items.len() && forall|i: int|
        0 <= i < items.len() ==> kitsu_canonical(items[i], included, kind, #[trigger] out[i])
}

/// Maps a list of resources, refusing the list at its first untitled
/// resource; then keeps the resources whose format passes the filter.
pub fn map_media(
    items: &Vec<KitsuResource>,
    included: &Vec<KitsuIncluded>,
    kind: MediaKind,
    format: &Option<String>,
) -> (r: Result<Vec<CanonicalMedia>, Error>)
    ensures
        all_titled(items@) ==> (r matches Ok(v) && maps_all(
            kept_media(items@, *format),
            included@,
            kind,
            v@,
        )),
        !all_titled(items@) ==> (r matches Err(e) && first_untitled_error(items@, e)),
{
    let mut i: usize = 0;
    while i < items.len()
        invariant
            i <= items@.len(),
            all_titled(items@.subrange(0, i as int)),
        decreases items.len() - i,
    {
        let t = &items[i].attributes;
        if t.canonical_title.is_none() && t.titles.en.is_none() && t.titles.en_jp.is_none()
            && t.titles.ja_jp.is_none() {
            let mut msg = String::from_str("Kitsu media ");
            msg.append(items[i].id.as_str());
            msg.append(" has no usable title");
            let e = Error::Validation(msg);
            proof {
                assert(first_untitled_error(items@, e));
            }
            return Err(e);
        }
        proof {
            assert forall|j: int| 0 <= j < i + 1 implies kitsu_title(
                (#[trigger] items@.subrange(0, i + 1)[j]).attributes,
            ) is Some by {
                if j < i {
                    assert(items@.subrange(0, i + 1)[j] == items@.subrange(0, i as int)[j]);
                }
            }
        }
        i = i + 1;
    }
    assert(items@.subrange(0, items@.len() as int) =~= items@);
    let mut out: Vec<CanonicalMedia> = Vec::new();
    let mut k: usize = 0;
    while k < items.len()
        invariant
            k <= items@.len(),
            all_titled(items@),
            maps_all(kept_media(items@.subrange(0, k as int), *format), included@, kind, out@),
        decreases items.len() - k,
    {
        proof {
            assert(items@.subrange(0, k + 1).drop_last() =~= items@.subrange(0, k as int));
        }
        if format_matches(format, &items[k].attributes.subtype) {
            match into_canonical(&items[k], included, kind) {
                Ok(m) => {
                    out.push(m);
                },
                Err(_) => {
                    proof {
                        assert(kitsu_title(items@[k as int].attributes) is Some);
                    }
                },
            }
        }
        k = k + 1;
    }
    assert(items@.subrange(0, items@.len() as int) =~= items@);
    Ok(out)
}

/// What a page of a bulk fetch comes to: the page's resources, with the
/// cursor of the next page when the response links one.
pub fn page_result(
    data: &Vec<KitsuResource>,
    included: &Vec<KitsuIncluded>,
    has_next_link: bool,
    kind: MediaKind,
    cursor: SyncCursor,
) -> (r: Result<FetchPage, Error>)
    requires
        cursor.page < usize::MAX,
    ensures
        all_titled(data@) ==> (r matches Ok(fp) && maps_all(data@, included@, kind, fp.items@)
            && fp.next_cursor == (if has_next_link {
            Some(SyncCursor { page: (cursor.page + 1) as usize })
        } else {
            None
        })),
        !all_titled(data@) ==> (r matches Err(e) && first_untitled_error(data@, e)),
{
    proof {
        lemma_kept_media_all(data@);
    }
    match map_media(data, included, kind, &None) {
        Err(e) => Err(e),
        Ok(items) => {
            let next_cursor = if has_next_link {
                Some(SyncCursor { page: cursor.page + 1 })
            } else {
                None
            };
            Ok(FetchPage { items, next_cursor })
        },
    }
}

/// `e` is the canonical form of the episode resource for `kind`.
pub open spec fn episode_canonical(res: KitsuEpisodeResource, kind: MediaKind, e: CanonicalEpisode) -> bool {
    let a = res.attributes;
    &&& e.source == SourceName::Kitsu
    &&& e.source_id == res.id
    &&& e.media_kind == kind
    &&& e.season_number == a.season_number
    &&& e.episode_number == a.number
    &&& e.absolute_number == a.relative_number
    &&& e.title_display == (match a.titles.en {
        Some(t) => Some(t),
        None => a.titles.en_jp,
    })
    &&& e.title_original == a.titles.ja_jp
    &&& e.synopsis == (match a.synopsis {
        Some(s) => Some(s),
        None => a.description,
    })
    &&& e.air_date == a.airdate
    &&& e.runtime_minutes == a.runtime
    &&& e.thumbnail_url == (match a.thumbnail {
        Some(t) => match t.original {
            Some(u) => Some(u),
            None => t.small,
        },
        None => None,
    })
    &&& e.raw_titles_json == Some(res.titles_json)
    &&& e.raw_json == Some(res.raw_json)
}

/// Maps an episode resource onto the canonical episode model.
pub fn into_episode(resource: &KitsuEpisodeResource, media_kind: MediaKind) -> (r: CanonicalEpisode)
    ensures
        episode_canonical(*resource, media_kind, r),
{
    let a = &resource.attributes;
    let title_display = if a.titles.en.is_some() {
        clone_opt_string(&a.titles.en)
    } else {
        clone_opt_string(&a.titles.en_jp)
    };
    let synopsis = if a.synopsis.is_some() {
        clone_opt_string(&a.synopsis)
    } else {
        clone_opt_string(&a.description)
    };
    let thumbnail_url = match &a.thumbnail {
        Some(t) => if t.original.is_some() {
            clone_opt_string(&t.original)
        } else {
            clone_opt_string(&t.small)
        },
        None => None,
    };
    CanonicalEpisode {
        source: SourceName::Kitsu,
        source_id: clone_string(&resource.id),
        media_kind,
        season_number: a.season_number,
        episode_number: a.number,
        absolute_number: a.relative_number,
        title_display,
        title_original: clone_opt_string(&a.titles.ja_jp),
        synopsis,
        air_date: clone_opt_string(&a.airdate),
        runtime_minutes: a.runtime,
        thumbnail_url,
        raw_titles_json: Some(clone_string(&resource.titles_json)),
        raw_json: Some(clone_string(&resource.raw_json)),
    }
}

/// Maps every episode resource, in order.
pub fn episodes_result(data: &Vec<KitsuEpisodeResource>, media_kind: MediaKind) -> (r: Vec<
    CanonicalEpisode,
>)
    ensures
        r@.len() == data@.len(),
        forall|i: int|
            0 <= i < data@.len() ==> episode_canonical(data@[i], media_kind, #[trigger] r@[i]),
{
    let mut out: Vec<CanonicalEpisode> = Vec::new();
    let mut i: usize = 0;
    while i < data.len()
        invariant
            i <= data@.len(),
            out@.len() == i,
            forall|j: int| 0 <= j < i ==> episode_canonical(data@[j], media_kind, #[trigger] out@[j]),
        decreases data.len() - i,
    {
        out.push(into_episode(&data[i], media_kind));
        i = i + 1;
    }
    out
}

/// A mapping names a MyAnimeList id: it has an id and its site, lowercased,
/// mentions "myanimelist".
pub open spec fn names_mal_id(m: KitsuMapping) -> bool {
    m.external_id is Some && contains_seq(lower_seq(m.external_site@), "myanimelist"@)
}

/// The MyAnimeList external id of a mapping's id.
pub open spec fn mal_entry(m: KitsuMapping) -> ExternalId {
    ExternalId { source: SourceName::MyAnimeList, source_id: m.external_id.unwrap(), url: None }
}

proof fn lemma_mal_ids_step(ms: Seq<KitsuMapping>)
    requires
        ms.len() > 0,
    ensures
        names_mal_id(ms.last()) ==> mal_ids(ms) == mal_ids(ms.drop_last()).push(mal_entry(ms.last())),
        !names_mal_id(ms.last()) ==> mal_ids(ms) == mal_ids(ms.drop_last()),
{
}

proof fn lemma_mal_ids_members(ms: Seq<KitsuMapping>)
    ensures
        forall|j: int|
            0 <= j < ms.len() && names_mal_id(#[trigger] ms[j]) ==> mal_ids(ms).contains(mal_entry(ms[j])),
        forall|k: int|
            0 <= k < mal_ids(ms).len() ==> exists|j: int|
                0 <= j < ms.len() && names_mal_id(ms[j]) && #[trigger] mal_ids(ms)[k] == mal_entry(ms[j]),
    decreases ms.len(),
{
    if ms.len() > 0 {
        let p = ms.drop_last();
        lemma_mal_ids_members(p);
        lemma_mal_ids_step(ms);
        let k0 = mal_ids(p);
        let r = mal_ids(ms);
        let n = ms.len() - 1;
        assert forall|j: int| 0 <= j < ms.len() && names_mal_id(#[trigger] ms[j]) implies r.contains(
            mal_entry(ms[j]),
        ) by {
            if j < n {
                assert(p[j] == ms[j]);
                let k = choose|k: int| 0 <= k < k0.len() && k0[k] == mal_entry(p[j]);
                assert(r[k] == k0[k]);
            } else {
                assert(r[k0.len() as int] == mal_entry(ms[j]));
            }
        }
        assert forall|k: int| 0 <= k < r.len() implies exists|j: int|
            0 <= j < ms.len() && names_mal_id(ms[j]) && #[trigger] r[k] == mal_entry(ms[j]) by {
            if k < k0.len() {
                assert(r[k] == k0[k]);
                let j = choose|j: int| 0 <= j < p.len() && names_mal_id(p[j]) && #[trigger] k0[k] == mal_entry(p[j]);
                assert(p[j] == ms[j]);
            } else {
                assert(r[k] == mal_entry(ms[n]));
            }
        }
    }
}

proof fn lemma_mal_tail(e: Seq<ExternalId>, ms: Seq<KitsuMapping>)
    requires
        e.len() >= 1,
        e.skip(1) == mal_ids(ms),
    ensures
        forall|j: int|
            0 <= j < ms.len() && names_mal_id(#[trigger] ms[j]) ==> exists|k: int|
                1 <= k < e.len() && e[k] == mal_entry(ms[j]),
        forall|k: int|
            1 <= k < e.len() ==> exists|j: int|
                0 <= j < ms.len() && names_mal_id(ms[j]) && #[trigger] e[k] == mal_entry(ms[j]),
{
    lemma_mal_ids_members(ms);
    assert forall|j: int| 0 <= j < ms.len() && names_mal_id(#[trigger] ms[j]) implies exists|k: int|
        1 <= k < e.len() && e[k] == mal_entry(ms[j]) by {
        let k = choose|k: int| 0 <= k < mal_ids(ms).len() && mal_ids(ms)[k] == mal_entry(ms[j]);
        assert(e.skip(1)[k] == e[k + 1]);
    }
    assert forall|k: int| 1 <= k < e.len() implies exists|j: int|
        0 <= j < ms.len() && names_mal_id(ms[j]) && #[trigger] e[k] == mal_entry(ms[j]) by {
        assert(e.skip(1)[k - 1] == e[k]);
        assert(mal_ids(ms)[k - 1] == e[k]);
    }
}

/// Every side-loaded mapping with an id whose site, lowercased, mentions
/// "myanimelist" (`myanimelist/anime`, `myanimelist/manga`...) gives the
/// record a MyAnimeList external id with that id, after the Kitsu id; and
/// every external id after the Kitsu one is such a MyAnimeList id.
pub proof fn lemma_kitsu_mal_ids(
    resource: KitsuResource,
    included: Seq<KitsuIncluded>,
    kind: MediaKind,
    m: CanonicalMedia,
)
    requires
        kitsu_canonical(resource, included, kind, m),
    ensures
        forall|j: int|
            0 <= j < spec_mappings(resource, included).len() && names_mal_id(
                #[trigger] spec_mappings(resource, included)[j],
            ) ==> exists|k: int|
                1 <= k < m.external_ids@.len() && m.external_ids@[k] == mal_entry(
                    spec_mappings(resource, included)[j],
                ),
        forall|k: int|
            1 <= k < m.external_ids@.len() ==> exists|j: int|
                0 <= j < spec_mappings(resource, included).len() && names_mal_id(
                    spec_mappings(resource, included)[j],
                ) && #[trigger] m.external_ids@[k] == mal_entry(spec_mappings(resource, included)[j]),
{
    lemma_mal_tail(m.external_ids@, spec_mappings(resource, included));
}

} // verus!
