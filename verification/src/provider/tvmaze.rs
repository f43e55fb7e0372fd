//! TVmaze: the decoded show records, HTML summary cleanup and their mapping
//! onto the canonical model.

use vstd::prelude::*;
use vstd::string::StringExecFns;
use crate::error::Error;
use crate::model::{CanonicalMedia, ExternalId, MediaKind, SourceName, SourcePayload, SyncCursor};
use crate::text::{
    chars_of, chars_replace, clone_string, decimal_signed, i64_to_decimal, replace_all,
    spec_year_prefix, string_from_chars, trim, trim_chars, year_prefix,
};
use super::{opt_view, FetchPage};

verus! {

/// The image block of a show.
#[derive(Debug, Clone)]
pub struct TvmazeImage {
    pub medium: Option<String>,
    pub original: Option<String>,
}

/// The country of a network or web channel.
#[derive(Debug, Clone)]
pub struct TvmazeCountry {
    pub code: Option<String>,
}

/// A network or web channel.
#[derive(Debug, Clone)]
pub struct TvmazeChannel {
    pub country: Option<TvmazeCountry>,
}

/// A TVmaze show as decoded from a response.
///
/// `rating_average` is TVmaze's 0–10 average in hundredths of a point;
/// `imdb` is the IMDb id among the show's externals; `raw_json` is the
/// show serialized back to JSON text.
#[derive(Debug, Clone)]
pub struct TvmazeShow {
    pub id: i64,
    pub url: Option<String>,
    pub name: String,
    pub genres: Option<Vec<String>>,
    pub status: Option<String>,
    pub summary: Option<String>,
    pub premiered: Option<String>,
    pub image: Option<TvmazeImage>,
    pub rating_average: Option<i64>,
    pub network: Option<TvmazeChannel>,
    pub web_channel: Option<TvmazeChannel>,
    pub imdb: Option<String>,
    pub updated: Option<i64>,
    pub raw_json: String,
}

/// The summary with paragraph, bold and italic tags removed, line breaks
/// turned into newlines, and surrounding whitespace trimmed.
pub open spec fn spec_strip_html(s: Seq<char>) -> Seq<char> {
    let a = replace_all(s, "<p>"@, ""@);
    let b = replace_all(a, "</p>"@, ""@);
    let c = replace_all(b, "<br>"@, "\n"@);
    let d = replace_all(c, "<br/>"@, "\n"@);
    let e = replace_all(d, "<b>"@, ""@);
    let f = replace_all(e, "</b>"@, ""@);
    let g = replace_all(f, "<i>"@, ""@);
    let h = replace_all(g, "</i>"@, ""@);
    trim(h)
}

/// Strips the common HTML tags of TVmaze summaries.
pub fn strip_html(html: &str) -> (r: String)
    ensures
        r@ == spec_strip_html(html@),
{
    proof {
        reveal_strlit("<p>");
        reveal_strlit("</p>");
        reveal_strlit("<br>");
        reveal_strlit("<br/>");
        reveal_strlit("<b>");
        reveal_strlit("</b>");
        reveal_strlit("<i>");
        reveal_strlit("</i>");
    }
    let v = chars_of(html);
    let a = chars_replace(v.as_slice(), "<p>", "");
    let b = chars_replace(a.as_slice(), "</p>", "");
    let c = chars_replace(b.as_slice(), "<br>", "\n");
    let d = chars_replace(c.as_slice(), "<br/>", "\n");
    let e = chars_replace(d.as_slice(), "<b>", "");
    let f = chars_replace(e.as_slice(), "</b>", "");
    let g = chars_replace(f.as_slice(), "<i>", "");
    let h = chars_replace(g.as_slice(), "</i>", "");
    let t = trim_chars(h.as_slice());
    string_from_chars(t.as_slice())
}

/// The country code: the network's country when it has one, else the web
/// channel's.
pub open spec fn show_country(show: TvmazeShow) -> Option<String> {
    let c = match show.network {
        Some(n) if n.country is Some => n.country,
        _ => match show.web_channel {
            Some(w) => w.country,
            None => None,
        },
    };
    match c {
        Some(c) => c.code,
        None => None,
    }
}

/// The score on the normalized scale in basis points, clamped to `0..=10000`.
pub open spec fn tvmaze_rating(average: Option<i64>) -> Option<u64> {
    match average {
        Some(h) => Some(
            if h < 0 {
                0u64
            } else if h > 1000 {
                10000u64
            } else {
                (h * 10) as u64
            },
        ),
        None => None,
    }
}

/// The IMDb title page of an id.
pub open spec fn imdb_url(id: Seq<char>) -> Seq<char> {
    "https://www.imdb.com/title/"@ + id
}

/// `m` is the canonical form of the show.
pub open spec fn show_canonical(show: TvmazeShow, m: CanonicalMedia) -> bool {
    &&& m.media_kind == MediaKind::Show
    &&& m.title_display@ == trim(show.name@)
    &&& m.title_romaji is None && m.title_english is None && m.title_native is None
    &&& opt_view(m.synopsis) == (match show.summary {
        Some(s) => Some(spec_strip_html(s@)),
        None => None,
    })
    &&& m.format is None
    &&& m.status == show.status
    &&& m.season is None
    &&& m.season_year == (match show.premiered {
        Some(d) => spec_year_prefix(d@),
        None => None,
    })
    &&& m.episodes is None && m.chapters is None && m.volumes is None
    &&& m.country_of_origin == show_country(show)
    &&& m.cover_image == (match show.image {
        Some(i) => match i.original {
            Some(u) => Some(u),
            None => i.medium,
        },
        None => None,
    })
    &&& m.banner_image is None
    &&& m.provider_rating == tvmaze_rating(show.rating_average)
    &&& !m.nsfw
    &&& m.aliases@.len() == 0
    &&& m.genres@ == (match show.genres {
        Some(g) => g@,
        None => seq![],
    })
    &&& m.tags@.len() == 0
    &&& m.external_ids@.len() == (if show.imdb is Some { 2int } else { 1int })
    &&& m.external_ids@[0].source == SourceName::Tvmaze
    &&& m.external_ids@[0].source_id@ == decimal_signed(show.id as int)
    &&& m.external_ids@[0].url == show.url
    &&& (show.imdb matches Some(i) ==> {
        &&& m.external_ids@[1].source == SourceName::Imdb
        &&& m.external_ids@[1].source_id == i
        &&& opt_view(m.external_ids@[1].url) == Some(imdb_url(i@))
    })
    &&& m.source_payloads@.len() == 1
    &&& m.source_payloads@[0].source == SourceName::Tvmaze
    &&& m.source_payloads@[0].source_id@ == decimal_signed(show.id as int)
    &&& m.source_payloads@[0].url == show.url
    &&& opt_view(m.source_payloads@[0].remote_updated_at) == (match show.updated {
        Some(t) => Some(decimal_signed(t as int)),
        None => None,
    })
    &&& m.source_payloads@[0].raw_json == Some(show.raw_json)
    &&& m.field_provenance@.len() == 0
}

/// Maps a show onto the canonical model; a show whose name is blank gives
/// nothing.
pub fn into_canonical(show: TvmazeShow) -> (r: Option<CanonicalMedia>)
    ensures
        trim(show.name@).len() == 0 <==> r is None,
        r matches Some(m) ==> show_canonical(show, m),
{
    let ghost orig = show;
    let name = chars_of(show.name.as_str());
    let t = trim_chars(name.as_slice());
    if t.len() == 0 {
        return None;
    }
    let title_display = string_from_chars(t.as_slice());
    let synopsis = match &show.summary {
        Some(s) => Some(strip_html(s.as_str())),
        None => None,
    };
    let cover_image = match show.image {
        Some(i) => match i.original {
            Some(u) => Some(u),
            None => i.medium,
        },
        None => None,
    };
    let id_text = i64_to_decimal(show.id);
    let mut external_ids: Vec<ExternalId> = Vec::new();
    external_ids.push(
        ExternalId {
            source: SourceName::Tvmaze,
            source_id: clone_string(&id_text),
            url: match &show.url {
                Some(u) => Some(clone_string(u)),
                None => None,
            },
        },
    );
    if let Some(imdb_id) = &show.imdb {
        let mut u = String::from_str("https://www.imdb.com/title/");
        u.append(imdb_id.as_str());
        external_ids.push(
            ExternalId { source: SourceName::Imdb, source_id: clone_string(imdb_id), url: Some(u) },
        );
    }
    let from_network = match &show.network {
        Some(n) => n.country.is_some(),
        None => false,
    };
    let country = if from_network {
        match show.network {
            Some(n) => match n.country {
                Some(c) => c.code,
                None => None,
            },
            None => None,
        }
    } else {
        match show.web_channel {
            Some(w) => match w.country {
                Some(c) => c.code,
                None => None,
            },
            None => None,
        }
    };
    let season_year = match &show.premiered {
        Some(d) => year_prefix(d.as_str()),
        None => None,
    };
    let provider_rating: Option<u64> = match show.rating_average {
        Some(h) => Some(
            if h < 0 {
                0u64
            } else if h > 1000 {
                10000u64
            } else {
                (h * 10) as u64
            },
        ),
        None => None,
    };
    let genres = match show.genres {
        Some(g) => g,
        None => Vec::new(),
    };
    let remote_updated_at = match show.updated {
        Some(t) => Some(i64_to_decimal(t)),
        None => None,
    };
    let mut source_payloads: Vec<SourcePayload> = Vec::new();
    source_payloads.push(
        SourcePayload {
            source: SourceName::Tvmaze,
            source_id: id_text,
            url: show.url,
            remote_updated_at,
            raw_json: Some(show.raw_json),
        },
    );
    let m = CanonicalMedia {
        media_kind: MediaKind::Show,
        title_display,
        title_romaji: None,
        title_english: None,
        title_native: None,
        synopsis,
        format: None,
        status: show.status,
        season: None,
        season_year,
        episodes: None,
        chapters: None,
        volumes: None,
        country_of_origin: country,
        cover_image,
        banner_image: None,
        provider_rating,
        nsfw: false,
        aliases: Vec::new(),
        genres,
        tags: Vec::new(),
        external_ids,
        source_payloads,
        field_provenance: Vec::new(),
    };
    assert(show_canonical(orig, m));
    Some(m)
}

/// The shows whose name is not blank, in order.
pub open spec fn named_shows(shows: Seq<TvmazeShow>) -> Seq<TvmazeShow>
    decreases shows.len(),
{
    if shows.len() == 0 {
        seq![]
    } else {
        let k = named_shows(shows.drop_last());
        if trim(shows.last().name@).len() > 0 {
            k.push(shows.last())
        } else {
            k
        }
    }
}

/// `out` is the canonical form of each of `shows`, in order.
pub open spec fn maps_all(shows: Seq<TvmazeShow>, out: Seq<CanonicalMedia>) -> bool {
    out.len() == shows.len() && forall|i: int|
        0 <= i < shows.len() ==> show_canonical(shows[i], #[trigger] out[i])
}

/// Maps the shows, skipping those whose name is blank.
pub fn map_shows(shows: Vec<TvmazeShow>) -> (r: Vec<CanonicalMedia>)
    ensures
        maps_all(named_shows(shows@), r@),
{
    let ghost all = shows@;
    let mut rest = shows;
    let mut out: Vec<CanonicalMedia> = Vec::new();
    let ghost mut done: Seq<TvmazeShow> = seq![];
    while rest.len() > 0
        invariant
            done + rest@ == all,
            maps_all(named_shows(done), out@),
        decreases rest.len(),
    {
        let ghost before = rest@;
        let show = rest.remove(0);
        let ghost g = show;
        proof {
            assert(g == before[0]);
            assert(rest@ =~= before.subrange(1, before.len() as int));
            assert((done.push(g)).drop_last() =~= done);
        }
        match into_canonical(show) {
            Some(m) => out.push(m),
            None => {},
        }
        proof {
            done = done.push(g);
            assert(done + rest@ =~= all);
        }
    }
    assert(done =~= all);
    out
}

/// What a page of the show index comes to: nothing more past the last
/// page (not found, or empty); else the named shows, with the next page.
pub fn page_result(found: bool, shows: Vec<TvmazeShow>, cursor: SyncCursor) -> (r: FetchPage)
    requires
        cursor.page < usize::MAX,
    ensures
        !found || shows@.len() == 0 ==> r.items@.len() == 0 && r.next_cursor is None,
        found && shows@.len() > 0 ==> maps_all(named_shows(shows@), r.items@) && r.next_cursor
            == Some(SyncCursor { page: (cursor.page + 1) as usize }),
{
    if !found || shows.len() == 0 {
        return FetchPage { items: Vec::new(), next_cursor: None };
    }
    let items = map_shows(shows);
    FetchPage { items, next_cursor: Some(SyncCursor { page: cursor.page + 1 }) }
}

/// TVmaze lists trending media for shows only.
pub fn check_trending_kind(media_kind: MediaKind) -> (r: Result<(), Error>)
    ensures
        media_kind == MediaKind::Show <==> r is Ok,
        media_kind != MediaKind::Show ==> (r matches Err(Error::Validation(m)) && m@
            == "TVmaze only supports shows"@),
{
    if media_kind != MediaKind::Show {
        return Err(Error::Validation(String::from_str("TVmaze only supports shows")));
    }
    Ok(())
}

} // verus!
