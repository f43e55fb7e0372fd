//! IMDb datasets: the TSV grammar of `title.basics` and `title.ratings`
//! rows, the mapping of a basics row onto the canonical model, and the
//! decisions taken row by row while a dump is streamed.

use vstd::prelude::*;
use vstd::string::StringExecFns;
use crate::error::Error;
use crate::model::{CanonicalMedia, ExternalId, MediaKind, SourceName, SourcePayload, SyncCursor};
use crate::text::{
    chars_of, clone_string, contains_seq, decimal_signed, i32_to_decimal, json_string, lower_seq,
    parse_i32, spec_parse_i32, str_contains, str_eq, str_to_ascii_lower,
    string_from_chars, views, concat_str,
};
use crate::repository::common::vviews;
use super::opt_view;

verus! {

/// The media kind a `titleType` column names; the types that are not
/// indexed (shorts, episodes, games...) give nothing.
pub open spec fn spec_title_type(t: Seq<char>) -> Option<MediaKind> {
    if t == "movie"@ || t == "tvMovie"@ || t == "video"@ {
        Some(MediaKind::Movie)
    } else if t == "tvSeries"@ || t == "tvMiniSeries"@ || t == "tvSpecial"@ {
        Some(MediaKind::Show)
    } else {
        None
    }
}

/// Parses a `titleType` column into a media kind.
pub fn parse_title_type(title_type: &str) -> (r: Option<MediaKind>)
    ensures
        r == spec_title_type(title_type@),
{
    if str_eq(title_type, "movie") || str_eq(title_type, "tvMovie") || str_eq(title_type, "video") {
        Some(MediaKind::Movie)
    } else if str_eq(title_type, "tvSeries") || str_eq(title_type, "tvMiniSeries") || str_eq(
        title_type,
        "tvSpecial",
    ) {
        Some(MediaKind::Show)
    } else {
        None
    }
}

/// A column holds a value: it is neither `\N` nor empty.
pub open spec fn has_value(v: Seq<char>) -> bool {
    v != "\\N"@ && v.len() > 0
}

/// A column's text, or nothing for `\N` and the empty column.
pub fn imdb_str(value: &str) -> (r: Option<&str>)
    ensures
        has_value(value@) ==> r == Some(value),
        !has_value(value@) ==> r is None,
{
    if str_eq(value, "\\N") || value.unicode_len() == 0 {
        None
    } else {
        Some(value)
    }
}

/// A column's integer: nothing for `\N`, the empty column or text that is
/// not an `i32`.
pub open spec fn spec_imdb_i32(v: Seq<char>) -> Option<i32> {
    if has_value(v) {
        spec_parse_i32(v)
    } else {
        None
    }
}

/// Parses an integer column.
pub fn imdb_i32(value: &str) -> (r: Option<i32>)
    ensures
        r == spec_imdb_i32(value@),
{
    match imdb_str(value) {
        Some(v) => parse_i32(v),
        None => None,
    }
}

/// The text split at every occurrence of `sep` (as `str::split` does:
/// `n` separators give `n + 1` pieces, empty ones included).
pub open spec fn split_char(s: Seq<char>, sep: char) -> Seq<Seq<char>>
    decreases s.len(),
{
    if s.len() == 0 {
        seq![seq![]]
    } else {
        let parts = split_char(s.drop_last(), sep);
        if s.last() == sep {
            parts.push(seq![])
        } else {
            parts.update(parts.len() - 1, parts.last().push(s.last()))
        }
    }
}

/// Splits characters at every occurrence of `sep`.
pub fn split_chars(v: &[char], sep: char) -> (r: Vec<Vec<char>>)
    ensures
        vviews(r@) == split_char(v@, sep),
{
    let mut out: Vec<Vec<char>> = Vec::new();
    let mut cur: Vec<char> = Vec::new();
    let mut i: usize = 0;
    while i < v.len()
        invariant
            i <= v@.len(),
            split_char(v@.subrange(0, i as int), sep) == vviews(out@).push(cur@),
        decreases v.len() - i,
    {
        let ghost pre = v@.subrange(0, i as int);
        let ghost next = v@.subrange(0, i + 1);
        proof {
            assert(next.drop_last() =~= pre);
        }
        if v[i] == sep {
            let done = cur;
            out.push(done);
            cur = Vec::new();
            proof {
                assert(vviews(out@) =~= split_char(pre, sep));
                assert(split_char(next, sep) =~= vviews(out@).push(cur@));
            }
        } else {
            let ghost old_cur = cur@;
            cur.push(v[i]);
            proof {
                let p = split_char(pre, sep);
                assert(p.last() == old_cur);
                assert(split_char(next, sep) =~= vviews(out@).push(cur@));
            }
        }
        i = i + 1;
    }
    assert(v@.subrange(0, v@.len() as int) =~= v@);
    out.push(cur);
    assert(vviews(out@) =~= split_char(v@, sep));
    out
}

/// The text without its trailing newline and carriage-return characters.
pub open spec fn trim_line_end(s: Seq<char>) -> Seq<char>
    decreases s.len(),
{
    if s.len() > 0 && (s.last() == '\n' || s.last() == '\r') {
        trim_line_end(s.drop_last())
    } else {
        s
    }
}

fn line_chars(line: &str) -> (r: Vec<char>)
    ensures
        r@ == trim_line_end(line@),
{
    let v = chars_of(line);
    let mut k: usize = v.len();
    assert(v@.subrange(0, v@.len() as int) =~= v@);
    while k > 0 && (v[k - 1] == '\n' || v[k - 1] == '\r')
        invariant
            k <= v@.len(),
            trim_line_end(v@) == trim_line_end(v@.subrange(0, k as int)),
        decreases k,
    {
        proof {
            assert(v@.subrange(0, k as int).drop_last() =~= v@.subrange(0, k - 1));
        }
        k = k - 1;
    }
    let mut out: Vec<char> = Vec::new();
    let mut j: usize = 0;
    while j < k
        invariant
            j <= k <= v@.len(),
            out@ == v@.subrange(0, j as int),
        decreases k - j,
    {
        out.push(v[j]);
        j = j + 1;
    }
    proof {
        assert(v@.subrange(0, v@.len() as int) =~= v@);
    }
    out
}

/// A row of `title.basics` that is indexed.
#[derive(Debug, Clone)]
pub struct BasicsRow {
    pub tconst: String,
    pub kind: MediaKind,
    pub primary_title: String,
    pub original_title: Option<String>,
    pub is_adult: bool,
    pub start_year: Option<i32>,
    pub end_year: Option<i32>,
    pub runtime_minutes: Option<i32>,
    pub genres: Vec<String>,
    pub title_type: String,
}

/// The genres of a `genres` column: its comma-separated names, none for
/// `\N` or the empty column.
pub open spec fn genre_list(col: Seq<char>) -> Seq<Seq<char>> {
    if has_value(col) {
        split_char(col, ',')
    } else {
        seq![]
    }
}

/// `row` is what the basics line `line` holds: at least nine tab-separated
/// columns, an indexed title type and a primary title.
pub open spec fn basics_row_of(line: Seq<char>, row: BasicsRow) -> bool {
    let p = split_char(trim_line_end(line), '\t');
    &&& p.len() >= 9
    &&& spec_title_type(p[1]) == Some(row.kind)
    &&& has_value(p[2])
    &&& row.tconst@ == p[0]
    &&& row.title_type@ == p[1]
    &&& row.primary_title@ == p[2]
    &&& opt_view(row.original_title) == (if has_value(p[3]) {
        Some(p[3])
    } else {
        None
    })
    &&& row.is_adult == (p[4] == "1"@)
    &&& row.start_year == spec_imdb_i32(p[5])
    &&& row.end_year == spec_imdb_i32(p[6])
    &&& row.runtime_minutes == spec_imdb_i32(p[7])
    &&& views(row.genres@) == genre_list(p[8])
}

/// A basics line is usable: it has at least nine columns, an indexed title
/// type and a primary title.
pub open spec fn usable_basics_line(line: Seq<char>) -> bool {
    let p = split_char(trim_line_end(line), '\t');
    p.len() >= 9 && spec_title_type(p[1]) is Some && has_value(p[2])
}

fn vec_string(v: &Vec<char>) -> (r: String)
    ensures
        r@ == v@,
{
    string_from_chars(v.as_slice())
}

/// Parses one line of `title.basics`; lines that are short, of a type
/// that is not indexed or without a primary title give nothing.
pub fn parse_basics_line(line: &str) -> (r: Option<BasicsRow>)
    ensures
        usable_basics_line(line@) <==> r is Some,
        r matches Some(row) ==> basics_row_of(line@, row),
{
    let chars = line_chars(line);
    let parts = split_chars(chars.as_slice(), '\t');
    let ghost p = split_char(trim_line_end(line@), '\t');
    proof {
        assert(vviews(parts@) == p);
    }
    if parts.len() < 9 {
        return None;
    }
    proof {
        assert forall|k: int| 0 <= k < 9 implies parts@[k]@ == p[k] by {
            assert(vviews(parts@)[k] == parts@[k]@);
        }
    }
    let title_type = vec_string(&parts[1]);
    let kind = match parse_title_type(title_type.as_str()) {
        Some(k) => k,
        None => {
            return None;
        },
    };
    let primary = vec_string(&parts[2]);
    if imdb_str(primary.as_str()).is_none() {
        return None;
    }
    let original = vec_string(&parts[3]);
    let original_title = match imdb_str(original.as_str()) {
        Some(o) => Some(String::from_str(o)),
        None => None,
    };
    let adult = vec_string(&parts[4]);
    proof {
        reveal_strlit("1");
    }
    let is_adult = str_eq(adult.as_str(), "1");
    let start = vec_string(&parts[5]);
    let end = vec_string(&parts[6]);
    let runtime = vec_string(&parts[7]);
    let genre_col = vec_string(&parts[8]);
    let mut genres: Vec<String> = Vec::new();
    if imdb_str(genre_col.as_str()).is_some() {
        let pieces = split_chars(parts[8].as_slice(), ',');
        let mut i: usize = 0;
        while i < pieces.len()
            invariant
                i <= pieces@.len(),
                parts@.len() >= 9,
                genres@.len() == i,
                vviews(pieces@) == split_char(parts@[8]@, ','),
                views(genres@) == vviews(pieces@).subrange(0, i as int),
            decreases pieces.len() - i,
        {
            let g = vec_string(&pieces[i]);
            let ghost gv = g@;
            let ghost before = genres@;
            genres.push(g);
            proof {
                assert(vviews(pieces@)[i as int] == pieces@[i as int]@);
                assert(genres@ == before.push(genres@[i as int]));
                assert(genres@[i as int]@ == gv);
                assert forall|j: int| 0 <= j < i + 1 implies #[trigger] views(genres@)[j] == vviews(pieces@).subrange(0, i + 1)[j] by {
                    if j < i {
                        assert(genres@[j] == before[j]);
                        assert(views(before)[j] == before[j]@);
                    }
                }
                assert(views(genres@) =~= vviews(pieces@).subrange(0, i + 1));
            }
            i = i + 1;
        }
        assert(vviews(pieces@).subrange(0, pieces@.len() as int) =~= vviews(pieces@));
    } else {
        assert(views(genres@) =~= Seq::<Seq<char>>::empty());
    }
    let row = BasicsRow {
        tconst: vec_string(&parts[0]),
        kind,
        primary_title: primary,
        original_title,
        is_adult,
        start_year: imdb_i32(start.as_str()),
        end_year: imdb_i32(end.as_str()),
        runtime_minutes: imdb_i32(runtime.as_str()),
        genres,
        title_type,
    };
    Some(row)
}

/// The tconst and rating text of a `title.ratings` line: its first two
/// tab-separated columns, when it has two.
pub open spec fn spec_ratings_fields(line: Seq<char>) -> Option<(Seq<char>, Seq<char>)> {
    let p = split_char(trim_line_end(line), '\t');
    if p.len() >= 2 {
        Some((p[0], p[1]))
    } else {
        None
    }
}

/// Splits a `title.ratings` line into its tconst and its rating text.
pub fn split_ratings_line(line: &str) -> (r: Option<(String, String)>)
    ensures
        spec_ratings_fields(line@) is None <==> r is None,
        r matches Some((t, v)) ==> spec_ratings_fields(line@) == Some((t@, v@)),
{
    let chars = line_chars(line);
    let parts = split_chars(chars.as_slice(), '\t');
    proof {
        assert(vviews(parts@) == split_char(trim_line_end(line@), '\t'));
    }
    if parts.len() < 2 {
        return None;
    }
    proof {
        assert(vviews(parts@)[0] == parts@[0]@);
        assert(vviews(parts@)[1] == parts@[1]@);
    }
    Some((vec_string(&parts[0]), vec_string(&parts[1])))
}

/// The IMDb title page of a tconst.
pub open spec fn title_url(tconst: Seq<char>) -> Seq<char> {
    "https://www.imdb.com/title/"@ + tconst
}

/// A JSON number, or `null` for nothing.
pub open spec fn json_opt_i32(v: Option<i32>) -> Seq<char> {
    match v {
        Some(x) => decimal_signed(x as int),
        None => "null"@,
    }
}

/// The compact JSON object kept as a row's raw payload, keys in sorted
/// order: end year, adult flag, primary title, runtime, start year, tconst
/// and title type.
pub open spec fn basics_payload(
    tconst: Seq<char>,
    title_type: Seq<char>,
    primary_title: Seq<char>,
    is_adult: bool,
    start_year: Option<i32>,
    end_year: Option<i32>,
    runtime_minutes: Option<i32>,
) -> Seq<char> {
    "{\"endYear\":"@ + json_opt_i32(end_year) + ",\"isAdult\":"@ + (if is_adult {
        "true"@
    } else {
        "false"@
    }) + ",\"primaryTitle\":"@ + json_string(primary_title) + ",\"runtimeMinutes\":"@
        + json_opt_i32(runtime_minutes) + ",\"startYear\":"@ + json_opt_i32(start_year)
        + ",\"tconst\":"@ + json_string(tconst) + ",\"titleType\":"@ + json_string(title_type) + "}"@
}

/// The raw payload of a basics row.
pub open spec fn basics_json(row: BasicsRow) -> Seq<char> {
    basics_payload(
        row.tconst@,
        row.title_type@,
        row.primary_title@,
        row.is_adult,
        row.start_year,
        row.end_year,
        row.runtime_minutes,
    )
}

/// serde_json's compact rendering (`Display` of `Value::Object`) of the
/// payload object built from the row's values. serde_json is built here
/// without `preserve_order`, so its map keeps keys sorted; strings are
/// escaped as `json_string` says and integers written in decimal, with
/// `null` for a missing one.
#[verifier::external_body]
fn basics_payload_json(
    tconst: &str,
    title_type: &str,
    primary_title: &str,
    is_adult: bool,
    start_year: Option<i32>,
    end_year: Option<i32>,
    runtime_minutes: Option<i32>,
) -> (r: String)
    ensures
        r@ == basics_payload(tconst@, title_type@, primary_title@, is_adult, start_year, end_year, runtime_minutes),
{
    let mut m = serde_json::Map::new();
    m.insert("tconst".to_string(), tconst.into());
    m.insert("titleType".to_string(), title_type.into());
    m.insert("primaryTitle".to_string(), primary_title.into());
    m.insert("isAdult".to_string(), is_adult.into());
    m.insert("startYear".to_string(), start_year.into());
    m.insert("endYear".to_string(), end_year.into());
    m.insert("runtimeMinutes".to_string(), runtime_minutes.into());
    serde_json::Value::Object(m).to_string()
}

/// Renders the row's raw payload as JSON text.
pub fn basics_json_text(row: &BasicsRow) -> (r: String)
    ensures
        r@ == basics_json(*row),
{
    basics_payload_json(
        row.tconst.as_str(),
        row.title_type.as_str(),
        row.primary_title.as_str(),
        row.is_adult,
        row.start_year,
        row.end_year,
        row.runtime_minutes,
    )
}

/// The rating on the normalized scale in basis points, from IMDb's 0–10
/// rating in hundredths of a point, clamped to `0..=10000`.
pub open spec fn imdb_rating(rating: Option<i64>) -> Option<u64> {
    match rating {
        Some(h) => Some(
            if h < 0 {
                0u64
            } else if h > 1000 {
                10000u64
            } else {
                (h * 10) as u64
            },
        ),
        None => None,
    }
}

/// `m` is the canonical form of the row with the given rating.
pub open spec fn basics_canonical(row: BasicsRow, rating: Option<i64>, m: CanonicalMedia) -> bool {
    &&& m.media_kind == row.kind
    &&& m.title_display == (match row.original_title {
        Some(o) => o,
        None => row.primary_title,
    })
    &&& m.title_romaji is None
    &&& m.title_english == row.original_title
    &&& m.title_native is None && m.synopsis is None
    &&& m.format == Some(row.title_type)
    &&& m.status is None
    &&& opt_view(m.season) == (match row.start_year {
        Some(y) => Some(decimal_signed(y as int)),
        None => None,
    })
    &&& m.season_year == row.start_year
    &&& m.episodes == row.runtime_minutes
    &&& m.chapters is None && m.volumes is None && m.country_of_origin is None
    &&& m.cover_image is None && m.banner_image is None
    &&& m.provider_rating == imdb_rating(rating)
    &&& m.nsfw == row.is_adult
    &&& m.aliases@ == (match row.original_title {
        Some(o) => if o@ != row.primary_title@ {
            seq![o]
        } else {
            seq![]
        },
        None => seq![],
    })
    &&& m.genres@ == row.genres@
    &&& m.tags@.len() == 0
    &&& m.external_ids@.len() == 1
    &&& m.external_ids@[0].source == SourceName::Imdb
    &&& m.external_ids@[0].source_id == row.tconst
    &&& opt_view(m.external_ids@[0].url) == Some(title_url(row.tconst@))
    &&& m.source_payloads@.len() == 1
    &&& m.source_payloads@[0].source == SourceName::Imdb
    &&& m.source_payloads@[0].source_id == row.tconst
    &&& opt_view(m.source_payloads@[0].url) == Some(title_url(row.tconst@))
    &&& m.source_payloads@[0].remote_updated_at is None
    &&& opt_view(m.source_payloads@[0].raw_json) == Some(basics_json(row))
    &&& m.field_provenance@.len() == 0
}

fn title_link(tconst: &str) -> (r: String)
    ensures
        r@ == title_url(tconst@),
{
    let mut u = String::from_str("https://www.imdb.com/title/");
    u.append(tconst);
    u
}

impl BasicsRow {
    /// Maps the row onto the canonical model, with its rating in hundredths
    /// of a point when the ratings dump has one.
    pub fn into_canonical(self, rating: Option<i64>) -> (r: CanonicalMedia)
        ensures
            basics_canonical(self, rating, r),
    {
        let raw = basics_json_text(&self);
        let title_display = match &self.original_title {
            Some(o) => clone_string(o),
            None => clone_string(&self.primary_title),
        };
        let mut aliases: Vec<String> = Vec::new();
        if let Some(o) = &self.original_title {
            if !str_eq(o.as_str(), self.primary_title.as_str()) {
                aliases.push(clone_string(o));
            }
        }
        let season = match self.start_year {
            Some(y) => Some(i32_to_decimal(y)),
            None => None,
        };
        let provider_rating: Option<u64> = match rating {
            Some(h) => Some(
                if h < 0 {
                    0u64
                } else if h > 1000 {
                    10000u64
                } else {
                    (h * 10) as u64
                },
            ),
            None => None,
        };
        let mut external_ids: Vec<ExternalId> = Vec::new();
        external_ids.push(
            ExternalId {
                source: SourceName::Imdb,
                source_id: clone_string(&self.tconst),
                url: Some(title_link(self.tconst.as_str())),
            },
        );
        let mut source_payloads: Vec<SourcePayload> = Vec::new();
        source_payloads.push(
            SourcePayload {
                source: SourceName::Imdb,
                source_id: clone_string(&self.tconst),
                url: Some(title_link(self.tconst.as_str())),
                remote_updated_at: None,
                raw_json: Some(raw),
            },
        );
        CanonicalMedia {
            media_kind: self.kind,
            title_display,
            title_romaji: None,
            title_english: self.original_title,
            title_native: None,
            synopsis: None,
            format: Some(self.title_type),
            status: None,
            season,
            season_year: self.start_year,
            episodes: self.runtime_minutes,
            chapters: None,
            volumes: None,
            country_of_origin: None,
            cover_image: None,
            banner_image: None,
            provider_rating,
            nsfw: self.is_adult,
            aliases,
            genres: self.genres,
            tags: Vec::new(),
            external_ids,
            source_payloads,
            field_provenance: Vec::new(),
        }
    }
}

/// What the reader of a dump does after a row.
#[derive(Debug, Clone, Copy, PartialEq, Eq, Structural)]
pub enum RowAction {
    /// The row was taken; go on.
    Continue,
    /// The row is passed over; go on.
    Skip,
    /// Stop reading.
    Stop,
}

/// The state of a paginated scan of the basics dump: the rows of `kind`
/// past the first `skip` are taken until `page_size` are.
#[derive(Debug, Clone, Copy)]
pub struct PageScan {
    pub kind: MediaKind,
    pub skip: usize,
    pub page_size: usize,
    pub line_index: usize,
    pub consumed: usize,
}

impl PageScan {
    /// A scan never takes more than a page, nor rows before the skipped ones.
    pub open spec fn wf(self) -> bool {
        &&& self.consumed <= self.page_size
        &&& self.consumed <= (if self.line_index > self.skip {
            self.line_index - self.skip
        } else {
            0
        })
    }
}

/// The rows skipped before a page: `(page - 1) * page_size`, page 0
/// counting as page 1.
pub open spec fn skip_of(page: usize, page_size: usize) -> int {
    (if page == 0 { 0 } else { page - 1 }) * page_size
}

/// Starts the scan for a page of `page_size` rows of `kind`.
pub fn page_scan_new(kind: MediaKind, page: usize, page_size: usize) -> (r: PageScan)
    requires
        skip_of(page, page_size) <= usize::MAX,
    ensures
        r.wf(),
        r.kind == kind && r.skip == skip_of(page, page_size) && r.page_size == page_size
            && r.line_index == 0 && r.consumed == 0,
{
    let p: usize = if page == 0 {
        0
    } else {
        page - 1
    };
    PageScan { kind, skip: p * page_size, page_size, line_index: 0, consumed: 0 }
}

/// Decides on the next row of the dump, of kind `row_kind`: other kinds
/// are passed over; rows of the kind are counted, those within the
/// skipped part passed over, and the rest taken until a page is full.
pub fn page_scan_step(scan: &mut PageScan, row_kind: MediaKind) -> (r: RowAction)
    requires
        old(scan).wf(),
        old(scan).line_index < usize::MAX,
    ensures
        final(scan).wf(),
        final(scan).kind == old(scan).kind && final(scan).skip == old(scan).skip
            && final(scan).page_size == old(scan).page_size,
        row_kind != old(scan).kind ==> r == RowAction::Skip && *final(scan) == *old(scan),
        row_kind == old(scan).kind ==> final(scan).line_index == old(scan).line_index + 1,
        row_kind == old(scan).kind && old(scan).line_index + 1 <= old(scan).skip ==> r
            == RowAction::Skip && final(scan).consumed == old(scan).consumed,
        row_kind == old(scan).kind && old(scan).line_index + 1 > old(scan).skip
            && old(scan).consumed >= old(scan).page_size ==> r == RowAction::Stop
            && final(scan).consumed == old(scan).consumed,
        row_kind == old(scan).kind && old(scan).line_index + 1 > old(scan).skip
            && old(scan).consumed < old(scan).page_size ==> r == RowAction::Continue
            && final(scan).consumed == old(scan).consumed + 1,
{
    if row_kind != scan.kind {
        return RowAction::Skip;
    }
    scan.line_index = scan.line_index + 1;
    if scan.line_index <= scan.skip {
        return RowAction::Skip;
    }
    if scan.consumed >= scan.page_size {
        return RowAction::Stop;
    }
    scan.consumed = scan.consumed + 1;
    RowAction::Continue
}

/// The cursor after a scan: the next page when this one filled up.
pub fn page_scan_next_cursor(scan: &PageScan, cursor: SyncCursor) -> (r: Option<SyncCursor>)
    requires
        cursor.page < usize::MAX,
    ensures
        scan.consumed >= scan.page_size ==> r == Some(SyncCursor { page: (cursor.page + 1) as usize }),
        scan.consumed < scan.page_size ==> r is None,
{
    if scan.consumed >= scan.page_size {
        Some(SyncCursor { page: cursor.page + 1 })
    } else {
        None
    }
}

/// Decides on the next row of a title search, `taken` rows in: rows of
/// another kind are passed over, the search stops at `limit` rows, and a
/// row is taken when its lowercased primary title contains the lowercased
/// query. The second result says whether the row is taken.
pub fn search_step(
    kind: MediaKind,
    limit: usize,
    taken: usize,
    row_kind: MediaKind,
    primary_title: &str,
    query_lower: &str,
) -> (r: (RowAction, bool))
    ensures
        row_kind != kind ==> r == (RowAction::Skip, false),
        row_kind == kind && taken >= limit ==> r == (RowAction::Stop, false),
        row_kind == kind && taken < limit ==> r == (RowAction::Continue, contains_seq(
            lower_seq(primary_title@),
            query_lower@,
        )),
{
    if row_kind != kind {
        return (RowAction::Skip, false);
    }
    if taken >= limit {
        return (RowAction::Stop, false);
    }
    let lower = str_to_ascii_lower(primary_title);
    (RowAction::Continue, str_contains(lower.as_str(), query_lower))
}

/// Decides on the next row of a lookup by tconst: other rows are passed
/// over; the row with the id stops the lookup, and is taken when it is of
/// the requested kind.
pub fn by_id_step(source_id: &str, media_kind: MediaKind, row_tconst: &str, row_kind: MediaKind) -> (r:
    (RowAction, bool))
    ensures
        row_tconst@ != source_id@ ==> r == (RowAction::Skip, false),
        row_tconst@ == source_id@ ==> r == (RowAction::Stop, row_kind == media_kind),
{
    if !str_eq(row_tconst, source_id) {
        return (RowAction::Skip, false);
    }
    (RowAction::Stop, row_kind == media_kind)
}

// ---------------------------------------------------------------------------
// Reading a dump
// ---------------------------------------------------------------------------

/// The lines a gzip-compressed dump decodes to, each with its line end,
/// and the message of the read error that ended the reading, if one did.
pub uninterp spec fn spec_gunzip_lines(data: Seq<u8>) -> (Seq<Seq<char>>, Option<Seq<char>>);

/// flate2's `GzDecoder` read line by line (`BufRead::read_line`): the lines
/// read until the end of the stream or the first read error (a corrupt
/// stream or text that is not UTF-8), and that error's message. The
/// contract claims that the outcome depends on the bytes alone.
#[verifier::external_body]
pub fn gunzip_lines(data: &[u8]) -> (r: (Vec<String>, Option<String>))
    ensures
        (views(r.0@), opt_view(r.1)) == spec_gunzip_lines(data@),
{
    let mut reader = std::io::BufReader::new(flate2::read::GzDecoder::new(data));
    let mut lines: Vec<String> = Vec::new();
    loop {
        let mut line = String::new();
        match std::io::BufRead::read_line(&mut reader, &mut line) {
            Ok(0) => return (lines, None),
            Ok(_) => lines.push(line),
            Err(e) => return (lines, Some(e.to_string())),
        }
    }
}

/// The indices of the usable basics lines after the header line.
pub open spec fn usable_rows(ls: Seq<Seq<char>>) -> Seq<int>
    decreases ls.len(),
{
    if ls.len() <= 1 {
        seq![]
    } else {
        let p = usable_rows(ls.drop_last());
        if usable_basics_line(ls.last()) {
            p.push(ls.len() - 1)
        } else {
            p
        }
    }
}

proof fn lemma_usable_rows_bounds(ls: Seq<Seq<char>>)
    ensures
        forall|j: int|
            0 <= j < usable_rows(ls).len() ==> 1 <= #[trigger] usable_rows(ls)[j] < ls.len()
                && usable_basics_line(ls[usable_rows(ls)[j]]),
    decreases ls.len(),
{
    if ls.len() > 1 {
        let p = ls.drop_last();
        lemma_usable_rows_bounds(p);
        assert forall|j: int| 0 <= j < usable_rows(ls).len() implies 1 <= #[trigger] usable_rows(
            ls,
        )[j] < ls.len() && usable_basics_line(ls[usable_rows(ls)[j]]) by {
            if j < usable_rows(p).len() {
                assert(usable_rows(ls)[j] == usable_rows(p)[j]);
                assert(ls[usable_rows(p)[j]] == p[usable_rows(p)[j]]);
            }
        }
    }
}

/// The rows of a decoded basics dump: the header line is skipped and every
/// usable line after it parsed, in order. When the header itself could not
/// be read, the read error is reported.
pub fn basics_rows(lines: &Vec<String>, read_error: &Option<String>) -> (r: Result<
    Vec<BasicsRow>,
    Error,
>)
    ensures
        (lines@.len() == 0 && read_error is Some) <==> r is Err,
        r matches Err(Error::Validation(m)) ==> read_error matches Some(e) && m@
            == "failed to read IMDb dataset header: "@ + e@,
        r matches Err(e) ==> e is Validation,
        r matches Ok(rows) ==> rows@.len() == usable_rows(views(lines@)).len() && forall|j: int|
            0 <= j < rows@.len() ==> basics_row_of(
                views(lines@)[usable_rows(views(lines@))[j]],
                #[trigger] rows@[j],
            ),
{
    if lines.len() == 0 {
        match read_error {
            Some(e) => {
                return Err(Error::Validation(concat_str("failed to read IMDb dataset header: ", e.as_str())));
            },
            None => {
                return Ok(Vec::new());
            },
        }
    }
    let ghost ls = views(lines@);
    let mut rows: Vec<BasicsRow> = Vec::new();
    let mut i: usize = 1;
    assert(usable_rows(ls.take(1)) =~= Seq::<int>::empty());
    while i < lines.len()
        invariant
            1 <= i <= lines@.len(),
            ls == views(lines@),
            rows@.len() == usable_rows(ls.take(i as int)).len(),
            forall|j: int|
                0 <= j < rows@.len() ==> basics_row_of(
                    ls[usable_rows(ls.take(i as int))[j]],
                    #[trigger] rows@[j],
                ),
        decreases lines.len() - i,
    {
        let ghost pre = ls.take(i as int);
        let ghost next = ls.take(i + 1);
        proof {
            assert(next.drop_last() =~= pre);
            assert(next.last() == lines@[i as int]@);
            lemma_usable_rows_bounds(pre);
        }
        match parse_basics_line(lines[i].as_str()) {
            Some(row) => {
                rows.push(row);
                proof {
                    assert(usable_rows(next) == usable_rows(pre).push(i as int));
                    assert forall|j: int| 0 <= j < rows@.len() implies basics_row_of(
                        ls[usable_rows(next)[j]],
                        #[trigger] rows@[j],
                    ) by {
                        if j < rows@.len() - 1 {
                            assert(usable_rows(next)[j] == usable_rows(pre)[j]);
                        }
                    }
                }
            },
            None => {
                assert(usable_rows(next) == usable_rows(pre));
            },
        }
        i = i + 1;
    }
    assert(ls.take(lines@.len() as int) =~= ls);
    Ok(rows)
}

/// The (tconst, rating text) pairs of a decoded ratings dump: the header
/// line is skipped, and so are lines with fewer than two columns.
pub open spec fn ratings_fields(ls: Seq<Seq<char>>) -> Seq<(Seq<char>, Seq<char>)>
    decreases ls.len(),
{
    if ls.len() <= 1 {
        seq![]
    } else {
        let p = ratings_fields(ls.drop_last());
        match spec_ratings_fields(ls.last()) {
            Some(f) => p.push(f),
            None => p,
        }
    }
}

pub open spec fn pair_views(v: Seq<(String, String)>) -> Seq<(Seq<char>, Seq<char>)> {
    v.map_values(|p: (String, String)| (p.0@, p.1@))
}

/// The (tconst, rating text) entries of a decoded ratings dump.
pub fn ratings_entries(lines: &Vec<String>) -> (r: Vec<(String, String)>)
    ensures
        pair_views(r@) == ratings_fields(views(lines@)),
{
    let ghost ls = views(lines@);
    let mut out: Vec<(String, String)> = Vec::new();
    if lines.len() == 0 {
        assert(pair_views(out@) =~= ratings_fields(ls));
        return out;
    }
    let mut i: usize = 1;
    assert(pair_views(out@) =~= ratings_fields(ls.take(1)));
    while i < lines.len()
        invariant
            1 <= i <= lines@.len(),
            ls == views(lines@),
            pair_views(out@) == ratings_fields(ls.take(i as int)),
        decreases lines.len() - i,
    {
        let ghost pre = ls.take(i as int);
        let ghost next = ls.take(i + 1);
        proof {
            assert(next.drop_last() =~= pre);
            assert(next.last() == lines@[i as int]@);
        }
        match split_ratings_line(lines[i].as_str()) {
            Some(pair) => {
                out.push(pair);
                assert(pair_views(out@) =~= ratings_fields(next));
            },
            None => {},
        }
        i = i + 1;
    }
    assert(ls.take(lines@.len() as int) =~= ls);
    out
}

pub open spec fn idx_ints(v: Seq<usize>) -> Seq<int> {
    v.map_values(|i: usize| i as int)
}

/// The rows a title search takes, by index, and whether it stopped: rows
/// of another kind are passed over, the search stops at the first row of
/// the kind met with `limit` rows taken, and rows whose lowercased primary
/// title contains the query are taken.
pub open spec fn search_fold(rows: Seq<BasicsRow>, kind: MediaKind, limit: int, q: Seq<char>) -> (
    Seq<int>,
    bool,
)
    decreases rows.len(),
{
    if rows.len() == 0 {
        (seq![], false)
    } else {
        let (t, stop) = search_fold(rows.drop_last(), kind, limit, q);
        let row = rows.last();
        if stop || row.kind != kind {
            (t, stop)
        } else if t.len() >= limit {
            (t, true)
        } else if contains_seq(lower_seq(row.primary_title@), q) {
            (t.push(rows.len() - 1), false)
        } else {
            (t, false)
        }
    }
}

/// Runs a title search over the rows of a dump; the indices of the rows
/// taken.
pub fn search_rows(rows: &Vec<BasicsRow>, kind: MediaKind, limit: usize, query_lower: &str) -> (r: Vec<
    usize,
>)
    ensures
        idx_ints(r@) == search_fold(rows@, kind, limit as int, query_lower@).0,
{
    let mut taken: Vec<usize> = Vec::new();
    let mut stopped = false;
    let mut i: usize = 0;
    assert(idx_ints(taken@) =~= search_fold(rows@.take(0), kind, limit as int, query_lower@).0);
    while i < rows.len()
        invariant
            i <= rows@.len(),
            (idx_ints(taken@), stopped) == search_fold(rows@.take(i as int), kind, limit as int, query_lower@),
        decreases rows.len() - i,
    {
        let ghost pre = rows@.take(i as int);
        let ghost next = rows@.take(i + 1);
        proof {
            assert(next.drop_last() =~= pre);
            assert(next.last() == rows@[i as int]);
        }
        if !stopped {
            let (action, take) = search_step(
                kind,
                limit,
                taken.len(),
                rows[i].kind,
                rows[i].primary_title.as_str(),
                query_lower,
            );
            if take {
                taken.push(i);
            }
            if action == RowAction::Stop {
                stopped = true;
            }
            assert(idx_ints(taken@) =~= search_fold(next, kind, limit as int, query_lower@).0);
        }
        i = i + 1;
    }
    assert(rows@.take(rows@.len() as int) =~= rows@);
    taken
}

/// The row a lookup by tconst returns, by index, and whether the lookup
/// stopped: it stops at the first row with the id, and returns that row
/// when it is of the requested kind.
pub open spec fn by_id_fold(rows: Seq<BasicsRow>, id: Seq<char>, kind: MediaKind) -> (Option<int>, bool)
    decreases rows.len(),
{
    if rows.len() == 0 {
        (None, false)
    } else {
        let (found, stop) = by_id_fold(rows.drop_last(), id, kind);
        let row = rows.last();
        if stop || row.tconst@ != id {
            (found, stop)
        } else if row.kind == kind {
            (Some(rows.len() - 1), true)
        } else {
            (None, true)
        }
    }
}

/// Looks a tconst up among the rows of a dump; the index of the row found.
pub fn by_id_row(rows: &Vec<BasicsRow>, source_id: &str, media_kind: MediaKind) -> (r: Option<usize>)
    ensures
        (match r {
            Some(k) => Some(k as int),
            None => None,
        }) == by_id_fold(rows@, source_id@, media_kind).0,
{
    let mut found: Option<usize> = None;
    let mut stopped = false;
    let mut i: usize = 0;
    while i < rows.len()
        invariant
            i <= rows@.len(),
            ((match found {
                Some(k) => Some(k as int),
                None => None,
            }), stopped) == by_id_fold(rows@.take(i as int), source_id@, media_kind),
            !stopped ==> found is None,
        decreases rows.len() - i,
    {
        let ghost pre = rows@.take(i as int);
        let ghost next = rows@.take(i + 1);
        proof {
            assert(next.drop_last() =~= pre);
            assert(next.last() == rows@[i as int]);
        }
        if !stopped {
            let (action, take) = by_id_step(source_id, media_kind, rows[i].tconst.as_str(), rows[i].kind);
            if take {
                found = Some(i);
            }
            if action == RowAction::Stop {
                stopped = true;
            }
        }
        i = i + 1;
    }
    assert(rows@.take(rows@.len() as int) =~= rows@);
    found
}

/// A paginated scan over the rows: the rows taken by index, the rows of the
/// kind counted, the rows taken so far, and whether the scan stopped.
pub open spec fn page_fold(rows: Seq<BasicsRow>, kind: MediaKind, skip: int, page_size: int) -> (
    Seq<int>,
    int,
    int,
    bool,
)
    decreases rows.len(),
{
    if rows.len() == 0 {
        (seq![], 0, 0, false)
    } else {
        let (t, li, c, stop) = page_fold(rows.drop_last(), kind, skip, page_size);
        let row = rows.last();
        if stop || row.kind != kind {
            (t, li, c, stop)
        } else if li + 1 <= skip {
            (t, li + 1, c, false)
        } else if c >= page_size {
            (t, li + 1, c, true)
        } else {
            (t.push(rows.len() - 1), li + 1, c + 1, false)
        }
    }
}

/// Runs a fresh page scan over the rows of a dump; the indices of the rows
/// taken, with the scan left as the fold says.
pub fn page_rows(rows: &Vec<BasicsRow>, scan: &mut PageScan) -> (r: Vec<usize>)
    requires
        old(scan).wf(),
        old(scan).line_index == 0,
        old(scan).consumed == 0,
    ensures
        ({
            let f = page_fold(rows@, old(scan).kind, old(scan).skip as int, old(scan).page_size as int);
            &&& idx_ints(r@) == f.0
            &&& final(scan).line_index == f.1
            &&& final(scan).consumed == f.2
        }),
        final(scan).kind == old(scan).kind && final(scan).skip == old(scan).skip
            && final(scan).page_size == old(scan).page_size,
        final(scan).wf(),
{
    let ghost kind = scan.kind;
    let ghost skip = scan.skip as int;
    let ghost ps = scan.page_size as int;
    let mut taken: Vec<usize> = Vec::new();
    let mut stopped = false;
    let mut i: usize = 0;
    assert(idx_ints(taken@) =~= page_fold(rows@.take(0), kind, skip, ps).0);
    while i < rows.len()
        invariant
            i <= rows@.len(),
            scan.wf(),
            scan.kind == kind && scan.skip == skip && scan.page_size == ps,
            scan.line_index <= i,
            (idx_ints(taken@), scan.line_index as int, scan.consumed as int, stopped) == page_fold(
                rows@.take(i as int),
                kind,
                skip,
                ps,
            ),
        decreases rows.len() - i,
    {
        let ghost pre = rows@.take(i as int);
        let ghost next = rows@.take(i + 1);
        proof {
            assert(next.drop_last() =~= pre);
            assert(next.last() == rows@[i as int]);
        }
        if !stopped {
            let action = page_scan_step(scan, rows[i].kind);
            if action == RowAction::Continue {
                taken.push(i);
            }
            if action == RowAction::Stop {
                stopped = true;
            }
            assert(idx_ints(taken@) =~= page_fold(next, kind, skip, ps).0);
        }
        i = i + 1;
    }
    assert(rows@.take(rows@.len() as int) =~= rows@);
    taken
}

/// The kind of each IMDb title type: movies, TV movies and videos are
/// movies; series, miniseries and specials are shows; every other title
/// type is not indexed.
pub proof fn lemma_title_type_kinds(t: Seq<char>)
    ensures
        spec_title_type("movie"@) == Some(MediaKind::Movie),
        spec_title_type("tvMovie"@) == Some(MediaKind::Movie),
        spec_title_type("video"@) == Some(MediaKind::Movie),
        spec_title_type("tvSeries"@) == Some(MediaKind::Show),
        spec_title_type("tvMiniSeries"@) == Some(MediaKind::Show),
        spec_title_type("tvSpecial"@) == Some(MediaKind::Show),
        spec_title_type(t) is Some ==> t == "movie"@ || t == "tvMovie"@ || t == "video"@ || t
            == "tvSeries"@ || t == "tvMiniSeries"@ || t == "tvSpecial"@,
{
    reveal_strlit("movie");
    reveal_strlit("tvMovie");
    reveal_strlit("video");
    reveal_strlit("tvSeries");
    reveal_strlit("tvMiniSeries");
    reveal_strlit("tvSpecial");
    assert("movie"@.len() == 5 && "tvMovie"@.len() == 7 && "video"@.len() == 5);
    assert("tvSeries"@.len() == 8 && "tvMiniSeries"@.len() == 12 && "tvSpecial"@.len() == 9);
    assert("tvSeries"@ != "movie"@ && "tvSeries"@ != "tvMovie"@ && "tvSeries"@ != "video"@);
    assert("tvMiniSeries"@ != "movie"@ && "tvMiniSeries"@ != "tvMovie"@ && "tvMiniSeries"@
        != "video"@);
    assert("tvSpecial"@ != "movie"@ && "tvSpecial"@ != "tvMovie"@ && "tvSpecial"@ != "video"@);
}

} // verus!
