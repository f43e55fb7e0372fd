//! The merge engine: scores incoming field values against stored
//! provenance, merges list fields and identifiers, and merges per-provider
//! episode records into canonical episodes.
//!
//! Scores are fixed-point: one unit is 1/1_200_000 of the 0.0–1.0 scale,
//! which keeps every weight and every clamp of the scoring formulas exact.

use vstd::prelude::*;
use crate::model::{
    CanonicalEpisode, CanonicalMedia, EpisodeSourceRecord, ExternalId, FieldProvenance, SourceName,
    SourcePayload, StoredEpisode, StoredMedia,
};
use crate::repository::common::{contains_ci, contains_ignore_ascii_case};
use crate::text::{clone_strings, eq_ci, views};
use crate::text::{
    chars_contain, chars_contain_char, chars_end_with, chars_of, chars_start_with,
    chars_to_ascii_lower, clone_string, contains_seq, digit_char, ends_with_seq, lower_seq,
    push_char, starts_with_seq, clone_opt_string, str_eq, trim, trim_chars, u64_to_decimal, decimal,
};
use vstd::string::StringExecFns;

verus! {

/// Score units per 1.0.
pub const SCORE_SCALE: u64 = 1_200_000;

/// A merge score's rendering with three decimals (`{:.3}`), rounding half
/// to even.
pub open spec fn thousandths(x: nat) -> nat {
    let q = x / 1200;
    let rem = x % 1200;
    if rem > 600 || (rem == 600 && q % 2 == 1) {
        q + 1
    } else {
        q
    }
}

pub open spec fn three_digits(n: nat) -> Seq<char> {
    seq![digit_char(n / 100), digit_char((n / 10) % 10), digit_char(n % 10)]
}

pub open spec fn fmt3(x: nat) -> Seq<char> {
    let t = thousandths(x);
    decimal(t / 1000).push('.') + three_digits(t % 1000)
}

/// Renders a score with three decimals.
pub fn format_score(x: u64) -> (r: String)
    ensures
        r@ == fmt3(x as nat),
{
    let q = x / 1200;
    let rem = x % 1200;
    let t = if rem > 600 || (rem == 600 && q % 2 == 1) {
        q + 1
    } else {
        q
    };
    let mut s = u64_to_decimal(t / 1000);
    push_char(&mut s, '.');
    let f = t % 1000;
    push_char(&mut s, ((f / 100) as u8 + 48) as char);
    push_char(&mut s, (((f / 10) % 10) as u8 + 48) as char);
    push_char(&mut s, ((f % 10) as u8 + 48) as char);
    assert(s@ =~= fmt3(x as nat));
    s
}

/// The provider weight in hundredths (AniList 0.90 down to Jikan 0.76).
pub open spec fn spec_provider_weight(source: SourceName) -> u64 {
    match source {
        SourceName::AniList => 90,
        SourceName::Jikan => 76,
        SourceName::MyAnimeList => 80,
        SourceName::Kitsu => 78,
        SourceName::Tvmaze => 82,
        SourceName::Imdb => 85,
    }
}

/// The provider weight for merge scoring, in hundredths.
pub fn provider_weight(source: SourceName) -> (r: u64)
    ensures
        r == spec_provider_weight(source),
{
    match source {
        SourceName::AniList => 90,
        SourceName::Jikan => 76,
        SourceName::MyAnimeList => 80,
        SourceName::Kitsu => 78,
        SourceName::Tvmaze => 82,
        SourceName::Imdb => 85,
    }
}

pub open spec fn clamp(x: int, lo: int, hi: int) -> int {
    if x < lo {
        lo
    } else if x > hi {
        hi
    } else {
        x
    }
}

/// Completeness of a text value: trimmed length / 240, clamped to
/// [0.05, 1.0].
pub open spec fn spec_text_completeness(v: Seq<char>) -> int {
    clamp((5000 * trim(v).len()) as int, 60000, 1200000)
}

/// Text quality: a length bias (synopsis: length / 600 in [0.15, 1.0],
/// other fields: length / 80 in [0.20, 1.0]), +0.10 for a newline, -0.15
/// for HTML angle brackets, clamped to [0.0, 1.0]; 0 for blank text.
pub open spec fn spec_text_quality(field: Seq<char>, v: Seq<char>) -> int {
    let t = trim(v);
    if t.len() == 0 {
        0
    } else {
        let html = if t.contains('<') || t.contains('>') {
            180000int
        } else {
            0int
        };
        let nl = if t.contains('\n') {
            120000int
        } else {
            0int
        };
        let bias = if field == "synopsis"@ {
            clamp((2000 * t.len()) as int, 180000, 1200000)
        } else {
            clamp((15000 * t.len()) as int, 240000, 1200000)
        };
        clamp(bias + nl - html, 0, 1200000)
    }
}

/// Cover image quality: 0.35, +0.35 for "large"/"extra"/"original" in the
/// lowercased URL, +0.15 for a ".webp" suffix, +0.15 for an "https://" prefix.
pub open spec fn spec_cover_quality(v: Seq<char>) -> int {
    let u = lower_seq(v);
    let size = if contains_seq(u, "large"@) || contains_seq(u, "extra"@) || contains_seq(
        u,
        "original"@,
    ) {
        420000int
    } else {
        0int
    };
    let webp = if ends_with_seq(u, ".webp"@) {
        180000int
    } else {
        0int
    };
    let https = if starts_with_seq(u, "https://"@) {
        180000int
    } else {
        0int
    };
    clamp(420000 + size + webp + https, 0, 1200000)
}

/// How many of the candidate's identity fields are filled (English title,
/// romaji title, synopsis, cover image, at least one external id).
pub open spec fn spec_filled_count(c: CanonicalMedia) -> int {
    (if c.title_english is Some { 1int } else { 0int }) + (if c.title_romaji is Some {
        1int
    } else {
        0int
    }) + (if c.synopsis is Some { 1int } else { 0int }) + (if c.cover_image is Some {
        1int
    } else {
        0int
    }) + (if c.external_ids.len() > 0 { 1int } else { 0int })
}

/// Consistency bonus: 0.20 per filled identity field.
pub open spec fn spec_consistency(c: CanonicalMedia) -> int {
    240000 * spec_filled_count(c)
}

fn text_completeness(v: &[char]) -> (r: u64)
    ensures
        r == spec_text_completeness(v@),
{
    let t = trim_chars(v);
    let len = t.len() as u64;
    if len < 12 {
        60000
    } else if len > 240 {
        1200000
    } else {
        5000 * len
    }
}

fn text_quality(field_name: &str, v: &[char]) -> (r: u64)
    ensures
        r == spec_text_quality(field_name@, v@),
{
    let t = trim_chars(v);
    if t.len() == 0 {
        return 0;
    }
    let len = t.len() as u64;
    let html: u64 = if chars_contain_char(t.as_slice(), '<') || chars_contain_char(
        t.as_slice(),
        '>',
    ) {
        180000
    } else {
        0
    };
    let nl: u64 = if chars_contain_char(t.as_slice(), '\n') {
        120000
    } else {
        0
    };
    let syn = chars_of("synopsis");
    let fname = chars_of(field_name);
    let bias: u64 = if crate::text::chars_eq(fname.as_slice(), syn.as_slice()) {
        if len < 90 {
            180000
        } else if len > 600 {
            1200000
        } else {
            2000 * len
        }
    } else {
        if len < 16 {
            240000
        } else if len > 80 {
            1200000
        } else {
            15000 * len
        }
    };
    let sum = bias + nl;
    if sum < html {
        0
    } else if sum - html > 1200000 {
        1200000
    } else {
        sum - html
    }
}

fn cover_quality(v: &[char]) -> (r: u64)
    ensures
        r == spec_cover_quality(v@),
{
    let u = chars_to_ascii_lower(v);
    let large = chars_of("large");
    let extra = chars_of("extra");
    let original = chars_of("original");
    let webp = chars_of(".webp");
    let https = chars_of("https://");
    let mut score: u64 = 420000;
    if chars_contain(u.as_slice(), large.as_slice()) || chars_contain(
        u.as_slice(),
        extra.as_slice(),
    ) || chars_contain(u.as_slice(), original.as_slice()) {
        score = score + 420000;
    }
    if chars_end_with(u.as_slice(), webp.as_slice()) {
        score = score + 180000;
    }
    if chars_start_with(u.as_slice(), https.as_slice()) {
        score = score + 180000;
    }
    score
}

fn filled_count(c: &CanonicalMedia) -> (r: u64)
    ensures
        r == spec_filled_count(*c),
{
    let mut n: u64 = 0;
    if c.title_english.is_some() {
        n = n + 1;
    }
    if c.title_romaji.is_some() {
        n = n + 1;
    }
    if c.synopsis.is_some() {
        n = n + 1;
    }
    if c.cover_image.is_some() {
        n = n + 1;
    }
    if c.external_ids.len() > 0 {
        n = n + 1;
    }
    n
}

/// Result of scoring one field candidate from a provider.
#[derive(Debug, Clone)]
pub struct MergeDecision<T> {
    pub value: T,
    pub score: u64,
    pub reason: String,
}

/// "name1=v1, name2=v2, ..." with each value rendered by `fmt3`.
pub open spec fn reason4(
    n1: Seq<char>,
    v1: nat,
    n2: Seq<char>,
    v2: nat,
    n3: Seq<char>,
    v3: nat,
    n4: Seq<char>,
    v4: nat,
) -> Seq<char> {
    n1 + fmt3(v1) + n2 + fmt3(v2) + n3 + fmt3(v3) + n4 + fmt3(v4)
}

fn append_score(s: &mut String, label: &str, x: u64)
    ensures
        final(s)@ == old(s)@ + label@ + fmt3(x as nat),
{
    s.append(label);
    let f = format_score(x);
    s.append(f.as_str());
}

pub open spec fn text_provider_part(source: SourceName) -> nat {
    (3000 * spec_provider_weight(source)) as nat
}

pub open spec fn text_completeness_part(v: Seq<char>) -> nat {
    (spec_text_completeness(v) / 5) as nat
}

pub open spec fn text_quality_part(field: Seq<char>, v: Seq<char>) -> nat {
    (spec_text_quality(field, v) * 7 / 20) as nat
}

pub open spec fn text_consistency_part(c: CanonicalMedia) -> nat {
    (spec_consistency(c) / 5) as nat
}

/// Score of a text field candidate: 0.25 x provider weight + 0.20 x
/// completeness + 0.35 x quality + 0.20 x consistency.
pub open spec fn spec_text_score(
    source: SourceName,
    field: Seq<char>,
    v: Seq<char>,
    c: CanonicalMedia,
) -> nat {
    text_provider_part(source) + text_completeness_part(v) + text_quality_part(field, v)
        + text_consistency_part(c)
}

pub open spec fn spec_text_reason(
    source: SourceName,
    field: Seq<char>,
    v: Seq<char>,
    c: CanonicalMedia,
) -> Seq<char> {
    reason4(
        "provider="@,
        text_provider_part(source),
        ", completeness="@,
        text_completeness_part(v),
        ", quality="@,
        text_quality_part(field, v),
        ", consistency="@,
        text_consistency_part(c),
    )
}

/// Scores a text field candidate from a provider.
pub fn score_text_field(
    source: SourceName,
    field_name: &str,
    value: &String,
    candidate: &CanonicalMedia,
) -> (r: MergeDecision<String>)
    ensures
        r.value == *value,
        r.score == spec_text_score(source, field_name@, value@, *candidate),
        r.reason@ == spec_text_reason(source, field_name@, value@, *candidate),
{
    let v = chars_of(value.as_str());
    let provider_score = provider_weight(source) * 3000;
    let completeness_score = text_completeness(v.as_slice()) / 5;
    let quality_score = text_quality(field_name, v.as_slice()) * 7 / 20;
    let consistency_score = filled_count(candidate) * 240000 / 5;
    let total = provider_score + completeness_score + quality_score + consistency_score;
    let mut reason = String::new();
    append_score(&mut reason, "provider=", provider_score);
    append_score(&mut reason, ", completeness=", completeness_score);
    append_score(&mut reason, ", quality=", quality_score);
    append_score(&mut reason, ", consistency=", consistency_score);
    assert(reason@ =~= spec_text_reason(source, field_name@, value@, *candidate));
    MergeDecision { value: clone_string(value), score: total, reason }
}

pub open spec fn int_completeness_part(value: i32) -> nat {
    if value > 0 {
        240000
    } else {
        0
    }
}

pub open spec fn int_quality_part(value: i32) -> nat {
    if value > 1 {
        360000
    } else {
        120000
    }
}

pub open spec fn int_consistency_part(c: CanonicalMedia) -> nat {
    (spec_consistency(c) / 4) as nat
}

/// Score of a numeric field candidate: 0.25 x provider weight + 0.20 when
/// positive + 0.30 when above one (0.10 otherwise) + 0.25 x consistency.
pub open spec fn spec_int_score(source: SourceName, value: i32, c: CanonicalMedia) -> nat {
    text_provider_part(source) + int_completeness_part(value) + int_quality_part(value)
        + int_consistency_part(c)
}

pub open spec fn spec_int_reason(source: SourceName, value: i32, c: CanonicalMedia) -> Seq<char> {
    reason4(
        "provider="@,
        text_provider_part(source),
        ", completeness="@,
        int_completeness_part(value),
        ", numeric_quality="@,
        int_quality_part(value),
        ", consistency="@,
        int_consistency_part(c),
    )
}

/// Scores a numeric field candidate from a provider.
pub fn score_optional_i32(source: SourceName, value: i32, candidate: &CanonicalMedia) -> (r:
    MergeDecision<i32>)
    ensures
        r.value == value,
        r.score == spec_int_score(source, value, *candidate),
        r.reason@ == spec_int_reason(source, value, *candidate),
{
    let provider_score = provider_weight(source) * 3000;
    let completeness_score: u64 = if value > 0 {
        240000
    } else {
        0
    };
    let quality_score: u64 = if value > 1 {
        360000
    } else {
        120000
    };
    let consistency_score = filled_count(candidate) * 240000 / 4;
    let total = provider_score + completeness_score + quality_score + consistency_score;
    let mut reason = String::new();
    append_score(&mut reason, "provider=", provider_score);
    append_score(&mut reason, ", completeness=", completeness_score);
    append_score(&mut reason, ", numeric_quality=", quality_score);
    append_score(&mut reason, ", consistency=", consistency_score);
    assert(reason@ =~= spec_int_reason(source, value, *candidate));
    MergeDecision { value, score: total, reason }
}

pub open spec fn cover_provider_part(source: SourceName) -> nat {
    (2400 * spec_provider_weight(source)) as nat
}

pub open spec fn cover_completeness_part(v: Seq<char>) -> nat {
    (spec_text_completeness(v) / 10) as nat
}

pub open spec fn cover_quality_part(v: Seq<char>) -> nat {
    (spec_cover_quality(v) * 9 / 20) as nat
}

pub open spec fn cover_consistency_part(c: CanonicalMedia) -> nat {
    (spec_consistency(c) * 3 / 20) as nat
}

/// 0.10 x the candidate's rating (clamped to 1.0).
pub open spec fn cover_freshness_part(c: CanonicalMedia) -> nat {
    match c.provider_rating {
        Some(r) => (12 * (if r > 10000 { 10000 } else { r })) as nat,
        None => 0,
    }
}

/// Score of an image URL candidate: 0.20 x provider weight + 0.10 x
/// completeness + 0.45 x cover quality + 0.15 x consistency + 0.10 x rating.
pub open spec fn spec_cover_score(source: SourceName, v: Seq<char>, c: CanonicalMedia) -> nat {
    cover_provider_part(source) + cover_completeness_part(v) + cover_quality_part(v)
        + cover_consistency_part(c) + cover_freshness_part(c)
}

pub open spec fn spec_cover_reason(source: SourceName, v: Seq<char>, c: CanonicalMedia) -> Seq<
    char,
> {
    reason4(
        "provider="@,
        cover_provider_part(source),
        ", completeness="@,
        cover_completeness_part(v),
        ", cover_quality="@,
        cover_quality_part(v),
        ", consistency="@,
        cover_consistency_part(c),
    ) + ", freshness="@ + fmt3(cover_freshness_part(c))
}

/// Scores an image URL candidate from a provider.
pub fn score_cover_image(source: SourceName, value: &String, candidate: &CanonicalMedia) -> (r:
    MergeDecision<String>)
    ensures
        r.value == *value,
        r.score == spec_cover_score(source, value@, *candidate),
        r.reason@ == spec_cover_reason(source, value@, *candidate),
{
    let v = chars_of(value.as_str());
    let provider_score = provider_weight(source) * 2400;
    let completeness_score = text_completeness(v.as_slice()) / 10;
    let cover_quality_score = cover_quality(v.as_slice()) * 9 / 20;
    let consistency_score = filled_count(candidate) * 240000 * 3 / 20;
    let freshness_score: u64 = match candidate.provider_rating {
        Some(r) => 12 * (if r > 10000 {
            10000
        } else {
            r
        }),
        None => 0,
    };
    let total = provider_score + completeness_score + cover_quality_score + consistency_score
        + freshness_score;
    let mut reason = String::new();
    append_score(&mut reason, "provider=", provider_score);
    append_score(&mut reason, ", completeness=", completeness_score);
    append_score(&mut reason, ", cover_quality=", cover_quality_score);
    append_score(&mut reason, ", consistency=", consistency_score);
    append_score(&mut reason, ", freshness=", freshness_score);
    assert(reason@ =~= spec_cover_reason(source, value@, *candidate));
    MergeDecision { value: clone_string(value), score: total, reason }
}

pub open spec fn bool_provider_part(source: SourceName) -> nat {
    (3600 * spec_provider_weight(source)) as nat
}

pub open spec fn bool_value_part(value: bool) -> nat {
    if value {
        420000
    } else {
        240000
    }
}

pub open spec fn bool_consistency_part(c: CanonicalMedia) -> nat {
    (spec_consistency(c) * 7 / 20) as nat
}

/// Score of a boolean candidate: 0.30 x provider weight + 0.35 when true
/// (0.20 when false) + 0.35 x consistency.
pub open spec fn spec_bool_score(source: SourceName, value: bool, c: CanonicalMedia) -> nat {
    bool_provider_part(source) + bool_value_part(value) + bool_consistency_part(c)
}

pub open spec fn spec_bool_reason(source: SourceName, value: bool, c: CanonicalMedia) -> Seq<
    char,
> {
    "provider="@ + fmt3(bool_provider_part(source)) + ", value_score="@ + fmt3(
        bool_value_part(value),
    ) + ", consistency="@ + fmt3(bool_consistency_part(c))
}

/// Scores a boolean field candidate from a provider.
pub fn score_boolean(source: SourceName, value: bool, candidate: &CanonicalMedia) -> (r:
    MergeDecision<bool>)
    ensures
        r.value == value,
        r.score == spec_bool_score(source, value, *candidate),
        r.reason@ == spec_bool_reason(source, value, *candidate),
{
    let provider_score = provider_weight(source) * 3600;
    let value_score: u64 = if value {
        420000
    } else {
        240000
    };
    let consistency_score = filled_count(candidate) * 240000 * 7 / 20;
    let total = provider_score + value_score + consistency_score;
    let mut reason = String::new();
    append_score(&mut reason, "provider=", provider_score);
    append_score(&mut reason, ", value_score=", value_score);
    append_score(&mut reason, ", consistency=", consistency_score);
    assert(reason@ =~= spec_bool_reason(source, value, *candidate));
    MergeDecision { value, score: total, reason }
}


// ---------------------------------------------------------------------------
// Provenance
// ---------------------------------------------------------------------------

/// The value-level content of a provenance record.
pub struct ProvenanceView {
    pub field_name: Seq<char>,
    pub source: SourceName,
    pub source_id: Seq<char>,
    pub score: u64,
    pub reason: Seq<char>,
    pub updated_at: Seq<char>,
}

impl View for FieldProvenance {
    type V = ProvenanceView;

    open spec fn view(&self) -> ProvenanceView {
        ProvenanceView {
            field_name: self.field_name@,
            source: self.source,
            source_id: self.source_id@,
            score: self.score,
            reason: self.reason@,
            updated_at: self.updated_at@,
        }
    }
}

pub open spec fn prov_views(v: Seq<FieldProvenance>) -> Seq<ProvenanceView> {
    v.map_values(|p: FieldProvenance| p@)
}

/// A provenance record written by a merge; `updated_at` is left empty for
/// the store to fill.
pub open spec fn spec_make_provenance(
    field_name: Seq<char>,
    source: SourceName,
    source_id: Seq<char>,
    score: u64,
    reason: Seq<char>,
) -> ProvenanceView {
    ProvenanceView { field_name, source, source_id, score, reason, updated_at: Seq::empty() }
}

pub fn make_provenance(
    field_name: &str,
    source: SourceName,
    source_id: &str,
    score: u64,
    reason: String,
) -> (r: FieldProvenance)
    ensures
        r@ == spec_make_provenance(field_name@, source, source_id@, score, reason@),
{
    FieldProvenance {
        field_name: String::from_str(field_name),
        source,
        source_id: String::from_str(source_id),
        score,
        reason,
        updated_at: String::new(),
    }
}

pub fn clone_provenance(p: &FieldProvenance) -> (r: FieldProvenance)
    ensures
        r == *p,
{
    FieldProvenance {
        field_name: clone_string(&p.field_name),
        source: p.source,
        source_id: clone_string(&p.source_id),
        score: p.score,
        reason: clone_string(&p.reason),
        updated_at: clone_string(&p.updated_at),
    }
}

/// The last stored provenance record for a field (the one a name-keyed map
/// built from the list keeps).
pub open spec fn last_provenance(v: Seq<FieldProvenance>, name: Seq<char>) -> Option<
    FieldProvenance,
>
    decreases v.len(),
{
    if v.len() == 0 {
        None
    } else if v.last().field_name@ == name {
        Some(v.last())
    } else {
        last_provenance(v.drop_last(), name)
    }
}

fn find_provenance(v: &Vec<FieldProvenance>, name: &str) -> (r: Option<FieldProvenance>)
    ensures
        r == last_provenance(v@, name@),
{
    let n = chars_of(name);
    let mut k: usize = v.len();
    assert(v@.subrange(0, k as int) =~= v@);
    while k > 0
        invariant
            k <= v@.len(),
            n@ == name@,
            last_provenance(v@, name@) == last_provenance(v@.subrange(0, k as int), name@),
        decreases k,
    {
        let ghost pre = v@.subrange(0, k as int);
        assert(pre.drop_last() =~= v@.subrange(0, k - 1));
        let f = chars_of(v[k - 1].field_name.as_str());
        if crate::text::chars_eq(f.as_slice(), n.as_slice()) {
            return Some(clone_provenance(&v[k - 1]));
        }
        k = k - 1;
    }
    None
}

/// Where an incoming record's values come from: its first source payload,
/// else its first external id, else AniList with id "unknown".
pub open spec fn spec_origin(m: CanonicalMedia) -> (SourceName, Seq<char>) {
    if m.source_payloads.len() > 0 {
        (m.source_payloads[0].source, m.source_payloads[0].source_id@)
    } else if m.external_ids.len() > 0 {
        (m.external_ids[0].source, m.external_ids[0].source_id@)
    } else {
        (SourceName::AniList, "unknown"@)
    }
}

fn incoming_origin(m: &CanonicalMedia) -> (r: (SourceName, String))
    ensures
        (r.0, r.1@) == spec_origin(*m),
{
    if m.source_payloads.len() > 0 {
        (m.source_payloads[0].source, clone_string(&m.source_payloads[0].source_id))
    } else if m.external_ids.len() > 0 {
        (m.external_ids[0].source, clone_string(&m.external_ids[0].source_id))
    } else {
        (SourceName::AniList, String::from_str("unknown"))
    }
}

/// The score a stored value defends with: its provenance score, or 0.60.
pub open spec fn defended_score(p: Option<FieldProvenance>) -> nat {
    match p {
        Some(e) => e.score as nat,
        None => 720000,
    }
}

/// The stored provenance entry, when there is one, as a list.
pub open spec fn kept_provenance(p: Option<FieldProvenance>) -> Seq<ProvenanceView> {
    match p {
        Some(e) => seq![e@],
        None => seq![],
    }
}

/// Field choice for text fields: an incoming value replaces a stored one
/// when its score is at least the stored value's score; the winner's
/// provenance is recorded.
#[verifier::opaque]
pub open spec fn spec_choose_text(
    field: Seq<char>,
    existing_value: Option<String>,
    existing_prov: Option<FieldProvenance>,
    incoming_value: Option<String>,
    incoming: CanonicalMedia,
    origin: (SourceName, Seq<char>),
) -> (Option<String>, Seq<ProvenanceView>) {
    match (existing_value, incoming_value) {
        (Some(e), Some(c)) => {
            let sc = spec_text_score(origin.0, field, c@, incoming);
            if sc >= defended_score(existing_prov) {
                (
                    Some(c),
                    seq![
                        spec_make_provenance(
                            field,
                            origin.0,
                            origin.1,
                            sc as u64,
                            spec_text_reason(origin.0, field, c@, incoming),
                        ),
                    ],
                )
            } else {
                (Some(e), kept_provenance(existing_prov))
            }
        },
        (None, Some(c)) => (
            Some(c),
            seq![
                spec_make_provenance(
                    field,
                    origin.0,
                    origin.1,
                    spec_text_score(origin.0, field, c@, incoming) as u64,
                    spec_text_reason(origin.0, field, c@, incoming),
                ),
            ],
        ),
        (Some(e), None) => (Some(e), kept_provenance(existing_prov)),
        (None, None) => (None, seq![]),
    }
}

fn push_kept(provenance: &mut Vec<FieldProvenance>, existing_prov: &Option<FieldProvenance>)
    ensures
        prov_views(final(provenance)@) == prov_views(old(provenance)@) + kept_provenance(
            *existing_prov,
        ),
{
    if let Some(entry) = existing_prov {
        provenance.push(clone_provenance(entry));
        assert(prov_views(provenance@) =~= prov_views(old(provenance)@) + kept_provenance(
            *existing_prov,
        ));
    } else {
        assert(prov_views(provenance@) =~= prov_views(old(provenance)@) + kept_provenance(
            *existing_prov,
        ));
    }
}

fn push_made(provenance: &mut Vec<FieldProvenance>, p: FieldProvenance)
    ensures
        prov_views(final(provenance)@) == prov_views(old(provenance)@) + seq![p@],
{
    provenance.push(p);
    assert(prov_views(provenance@) =~= prov_views(old(provenance)@) + seq![p@]);
}

fn choose_text(
    field_name: &str,
    existing_value: Option<String>,
    existing_prov: Option<FieldProvenance>,
    incoming_value: Option<String>,
    incoming: &CanonicalMedia,
    origin: &(SourceName, String),
    provenance: &mut Vec<FieldProvenance>,
) -> (r: Option<String>)
    ensures
        ({
            let (v, p) = spec_choose_text(
                field_name@,
                existing_value,
                existing_prov,
                incoming_value,
                *incoming,
                (origin.0, origin.1@),
            );
            r == v && prov_views(final(provenance)@) == prov_views(old(provenance)@) + p
        }),
{
    reveal(spec_choose_text);
    match (existing_value, incoming_value) {
        (Some(existing), Some(candidate)) => {
            let existing_score: u64 = match &existing_prov {
                Some(e) => e.score,
                None => 720000,
            };
            let d = score_text_field(origin.0, field_name, &candidate, incoming);
            if d.score >= existing_score {
                let p = make_provenance(field_name, origin.0, origin.1.as_str(), d.score, d.reason);
                push_made(provenance, p);
                Some(d.value)
            } else {
                push_kept(provenance, &existing_prov);
                Some(existing)
            }
        },
        (None, Some(candidate)) => {
            let d = score_text_field(origin.0, field_name, &candidate, incoming);
            let p = make_provenance(field_name, origin.0, origin.1.as_str(), d.score, d.reason);
            push_made(provenance, p);
            Some(d.value)
        },
        (Some(existing), None) => {
            push_kept(provenance, &existing_prov);
            Some(existing)
        },
        (None, None) => {
            assert(prov_views(provenance@) =~= prov_views(old(provenance)@) + seq![]);
            None
        },
    }
}

/// Field choice for numeric fields (same rule as text, numeric scoring).
#[verifier::opaque]
pub open spec fn spec_choose_i32(
    field: Seq<char>,
    existing_value: Option<i32>,
    existing_prov: Option<FieldProvenance>,
    incoming_value: Option<i32>,
    incoming: CanonicalMedia,
    origin: (SourceName, Seq<char>),
) -> (Option<i32>, Seq<ProvenanceView>) {
    match (existing_value, incoming_value) {
        (Some(e), Some(c)) => {
            let sc = spec_int_score(origin.0, c, incoming);
            if sc >= defended_score(existing_prov) {
                (
                    Some(c),
                    seq![
                        spec_make_provenance(
                            field,
                            origin.0,
                            origin.1,
                            sc as u64,
                            spec_int_reason(origin.0, c, incoming),
                        ),
                    ],
                )
            } else {
                (Some(e), kept_provenance(existing_prov))
            }
        },
        (None, Some(c)) => (
            Some(c),
            seq![
                spec_make_provenance(
                    field,
                    origin.0,
                    origin.1,
                    spec_int_score(origin.0, c, incoming) as u64,
                    spec_int_reason(origin.0, c, incoming),
                ),
            ],
        ),
        (Some(e), None) => (Some(e), kept_provenance(existing_prov)),
        (None, None) => (None, seq![]),
    }
}

fn choose_i32(
    field_name: &str,
    existing_value: Option<i32>,
    existing_prov: Option<FieldProvenance>,
    incoming_value: Option<i32>,
    incoming: &CanonicalMedia,
    origin: &(SourceName, String),
    provenance: &mut Vec<FieldProvenance>,
) -> (r: Option<i32>)
    ensures
        ({
            let (v, p) = spec_choose_i32(
                field_name@,
                existing_value,
                existing_prov,
                incoming_value,
                *incoming,
                (origin.0, origin.1@),
            );
            r == v && prov_views(final(provenance)@) == prov_views(old(provenance)@) + p
        }),
{
    reveal(spec_choose_i32);
    match (existing_value, incoming_value) {
        (Some(existing), Some(candidate)) => {
            let existing_score: u64 = match &existing_prov {
                Some(e) => e.score,
                None => 720000,
            };
            let d = score_optional_i32(origin.0, candidate, incoming);
            if d.score >= existing_score {
                let p = make_provenance(field_name, origin.0, origin.1.as_str(), d.score, d.reason);
                push_made(provenance, p);
                Some(d.value)
            } else {
                push_kept(provenance, &existing_prov);
                Some(existing)
            }
        },
        (None, Some(candidate)) => {
            let d = score_optional_i32(origin.0, candidate, incoming);
            let p = make_provenance(field_name, origin.0, origin.1.as_str(), d.score, d.reason);
            push_made(provenance, p);
            Some(d.value)
        },
        (Some(existing), None) => {
            push_kept(provenance, &existing_prov);
            Some(existing)
        },
        (None, None) => {
            assert(prov_views(provenance@) =~= prov_views(old(provenance)@) + seq![]);
            None
        },
    }
}

/// Field choice for image URLs (same rule as text, cover scoring).
#[verifier::opaque]
pub open spec fn spec_choose_cover(
    field: Seq<char>,
    existing_value: Option<String>,
    existing_prov: Option<FieldProvenance>,
    incoming_value: Option<String>,
    incoming: CanonicalMedia,
    origin: (SourceName, Seq<char>),
) -> (Option<String>, Seq<ProvenanceView>) {
    match (existing_value, incoming_value) {
        (Some(e), Some(c)) => {
            let sc = spec_cover_score(origin.0, c@, incoming);
            if sc >= defended_score(existing_prov) {
                (
                    Some(c),
                    seq![
                        spec_make_provenance(
                            field,
                            origin.0,
                            origin.1,
                            sc as u64,
                            spec_cover_reason(origin.0, c@, incoming),
                        ),
                    ],
                )
            } else {
                (Some(e), kept_provenance(existing_prov))
            }
        },
        (None, Some(c)) => (
            Some(c),
            seq![
                spec_make_provenance(
                    field,
                    origin.0,
                    origin.1,
                    spec_cover_score(origin.0, c@, incoming) as u64,
                    spec_cover_reason(origin.0, c@, incoming),
                ),
            ],
        ),
        (Some(e), None) => (Some(e), kept_provenance(existing_prov)),
        (None, None) => (None, seq![]),
    }
}

fn choose_cover(
    field_name: &str,
    existing_value: Option<String>,
    existing_prov: Option<FieldProvenance>,
    incoming_value: Option<String>,
    incoming: &CanonicalMedia,
    origin: &(SourceName, String),
    provenance: &mut Vec<FieldProvenance>,
) -> (r: Option<String>)
    ensures
        ({
            let (v, p) = spec_choose_cover(
                field_name@,
                existing_value,
                existing_prov,
                incoming_value,
                *incoming,
                (origin.0, origin.1@),
            );
            r == v && prov_views(final(provenance)@) == prov_views(old(provenance)@) + p
        }),
{
    reveal(spec_choose_cover);
    match (existing_value, incoming_value) {
        (Some(existing), Some(candidate)) => {
            let existing_score: u64 = match &existing_prov {
                Some(e) => e.score,
                None => 720000,
            };
            let d = score_cover_image(origin.0, &candidate, incoming);
            if d.score >= existing_score {
                let p = make_provenance(field_name, origin.0, origin.1.as_str(), d.score, d.reason);
                push_made(provenance, p);
                Some(d.value)
            } else {
                push_kept(provenance, &existing_prov);
                Some(existing)
            }
        },
        (None, Some(candidate)) => {
            let d = score_cover_image(origin.0, &candidate, incoming);
            let p = make_provenance(field_name, origin.0, origin.1.as_str(), d.score, d.reason);
            push_made(provenance, p);
            Some(d.value)
        },
        (Some(existing), None) => {
            push_kept(provenance, &existing_prov);
            Some(existing)
        },
        (None, None) => {
            assert(prov_views(provenance@) =~= prov_views(old(provenance)@) + seq![]);
            None
        },
    }
}

/// Field choice for the adult-content flag: with no stored record the
/// incoming flag wins; otherwise the same score rule as the other fields.
#[verifier::opaque]
pub open spec fn spec_choose_bool(
    field: Seq<char>,
    existing_value: Option<bool>,
    existing_prov: Option<FieldProvenance>,
    incoming_value: bool,
    incoming: CanonicalMedia,
    origin: (SourceName, Seq<char>),
) -> (bool, Seq<ProvenanceView>) {
    let sc = spec_bool_score(origin.0, incoming_value, incoming);
    let made = seq![
        spec_make_provenance(
            field,
            origin.0,
            origin.1,
            sc as u64,
            spec_bool_reason(origin.0, incoming_value, incoming),
        ),
    ];
    match existing_value {
        Some(e) => if sc >= defended_score(existing_prov) {
            (incoming_value, made)
        } else {
            (e, kept_provenance(existing_prov))
        },
        None => (incoming_value, made),
    }
}

fn choose_bool(
    field_name: &str,
    existing_value: Option<bool>,
    existing_prov: Option<FieldProvenance>,
    incoming_value: bool,
    incoming: &CanonicalMedia,
    origin: &(SourceName, String),
    provenance: &mut Vec<FieldProvenance>,
) -> (r: bool)
    ensures
        ({
            let (v, p) = spec_choose_bool(
                field_name@,
                existing_value,
                existing_prov,
                incoming_value,
                *incoming,
                (origin.0, origin.1@),
            );
            r == v && prov_views(final(provenance)@) == prov_views(old(provenance)@) + p
        }),
{
    reveal(spec_choose_bool);
    let d = score_boolean(origin.0, incoming_value, incoming);
    match existing_value {
        Some(existing) => {
            let existing_score: u64 = match &existing_prov {
                Some(e) => e.score,
                None => 720000,
            };
            if d.score >= existing_score {
                let p = make_provenance(field_name, origin.0, origin.1.as_str(), d.score, d.reason);
                push_made(provenance, p);
                d.value
            } else {
                push_kept(provenance, &existing_prov);
                existing
            }
        },
        None => {
            let p = make_provenance(field_name, origin.0, origin.1.as_str(), d.score, d.reason);
            push_made(provenance, p);
            d.value
        },
    }
}

/// The higher of the two ratings when both are present.
pub open spec fn spec_choose_rating(e: Option<u64>, i: Option<u64>) -> Option<u64> {
    match (e, i) {
        (Some(a), Some(b)) => Some(if a >= b { a } else { b }),
        (None, Some(b)) => Some(b),
        (Some(a), None) => Some(a),
        (None, None) => None,
    }
}

pub fn choose_rating(existing_value: Option<u64>, incoming_value: Option<u64>) -> (r: Option<u64>)
    ensures
        r == spec_choose_rating(existing_value, incoming_value),
{
    match (existing_value, incoming_value) {
        (Some(a), Some(b)) => Some(if a >= b { a } else { b }),
        (None, Some(b)) => Some(b),
        (Some(a), None) => Some(a),
        (None, None) => None,
    }
}


// ---------------------------------------------------------------------------
// List fields and identifiers
// ---------------------------------------------------------------------------

/// Appends each item not yet present ignoring ASCII case, in order.
pub open spec fn add_unique_ci(acc: Seq<Seq<char>>, items: Seq<Seq<char>>) -> Seq<Seq<char>>
    decreases items.len(),
{
    if items.len() == 0 {
        acc
    } else {
        let a = add_unique_ci(acc, items.drop_last());
        if contains_ci(a, items.last()) {
            a
        } else {
            a.push(items.last())
        }
    }
}

/// Stored values first, then incoming ones, dropping any value equal to an
/// earlier one ignoring ASCII case.
pub open spec fn spec_merge_string_lists(existing: Seq<Seq<char>>, incoming: Seq<Seq<char>>) -> Seq<
    Seq<char>,
> {
    add_unique_ci(add_unique_ci(seq![], existing), incoming)
}

fn push_unique_ci(values: &mut Vec<String>, items: &Vec<String>)
    ensures
        views(final(values)@) == add_unique_ci(views(old(values)@), views(items@)),
{
    let ghost start = views(values@);
    let mut i: usize = 0;
    while i < items.len()
        invariant
            i <= items@.len(),
            views(values@) == add_unique_ci(start, views(items@.subrange(0, i as int))),
        decreases items.len() - i,
    {
        let ghost pre = views(items@.subrange(0, i as int));
        let ghost next = views(items@.subrange(0, i + 1));
        proof {
            assert(next.drop_last() =~= pre);
            assert(next.last() == items@[i as int]@);
        }
        let c = chars_of(items[i].as_str());
        if !contains_ignore_ascii_case(values, c.as_slice()) {
            values.push(clone_string(&items[i]));
            assert(views(values@) =~= add_unique_ci(start, next));
        }
        i = i + 1;
    }
    assert(items@.subrange(0, items@.len() as int) =~= items@);
}

/// Merges a stored list with an incoming one, case-insensitively unique.
pub fn merge_string_lists(existing: Option<&Vec<String>>, incoming: &Vec<String>) -> (r: Vec<
    String,
>)
    ensures
        views(r@) == spec_merge_string_lists(
            match existing {
                Some(e) => views(e@),
                None => seq![],
            },
            views(incoming@),
        ),
{
    let mut values: Vec<String> = Vec::new();
    assert(views(values@) =~= seq![]);
    match existing {
        Some(e) => push_unique_ci(&mut values, e),
        None => {},
    }
    push_unique_ci(&mut values, incoming);
    values
}

/// Same source and the same source id.
pub open spec fn same_id(a: ExternalId, b: ExternalId) -> bool {
    a.source == b.source && a.source_id@ == b.source_id@
}

pub open spec fn has_same_id(acc: Seq<ExternalId>, x: ExternalId) -> bool {
    exists|j: int| 0 <= j < acc.len() && same_id(#[trigger] acc[j], x)
}

/// Appends each id whose (source, source id) pair is not yet present.
pub open spec fn add_unique_ids(acc: Seq<ExternalId>, items: Seq<ExternalId>) -> Seq<ExternalId>
    decreases items.len(),
{
    if items.len() == 0 {
        acc
    } else {
        let a = add_unique_ids(acc, items.drop_last());
        if has_same_id(a, items.last()) {
            a
        } else {
            a.push(items.last())
        }
    }
}

pub fn clone_external_id(e: &ExternalId) -> (r: ExternalId)
    ensures
        r == *e,
{
    ExternalId { source: e.source, source_id: clone_string(&e.source_id), url: clone_opt_string(&e.url) }
}

fn contains_id(values: &Vec<ExternalId>, x: &ExternalId) -> (r: bool)
    ensures
        r == has_same_id(values@, *x),
{
    let mut j: usize = 0;
    while j < values.len()
        invariant
            j <= values@.len(),
            forall|k: int| 0 <= k < j ==> !same_id(#[trigger] values@[k], *x),
        decreases values.len() - j,
    {
        if values[j].source == x.source && str_eq(values[j].source_id.as_str(), x.source_id.as_str()) {
            return true;
        }
        j = j + 1;
    }
    false
}

fn push_unique_ids(values: &mut Vec<ExternalId>, items: &Vec<ExternalId>)
    ensures
        final(values)@ == add_unique_ids(old(values)@, items@),
{
    let ghost start = values@;
    let mut i: usize = 0;
    while i < items.len()
        invariant
            i <= items@.len(),
            values@ == add_unique_ids(start, items@.subrange(0, i as int)),
        decreases items.len() - i,
    {
        let ghost next = items@.subrange(0, i + 1);
        proof {
            assert(next.drop_last() =~= items@.subrange(0, i as int));
        }
        if !contains_id(values, &items[i]) {
            values.push(clone_external_id(&items[i]));
        }
        i = i + 1;
    }
    assert(items@.subrange(0, items@.len() as int) =~= items@);
}

/// Stored ids first, then incoming ones, keeping the first id of each
/// (source, source id) pair.
pub open spec fn spec_merge_external_ids(existing: Seq<ExternalId>, incoming: Seq<ExternalId>) -> Seq<
    ExternalId,
> {
    add_unique_ids(add_unique_ids(seq![], existing), incoming)
}

pub fn merge_external_ids(existing: Option<&Vec<ExternalId>>, incoming: &Vec<ExternalId>) -> (r:
    Vec<ExternalId>)
    ensures
        r@ == spec_merge_external_ids(
            match existing {
                Some(e) => e@,
                None => seq![],
            },
            incoming@,
        ),
{
    let mut values: Vec<ExternalId> = Vec::new();
    match existing {
        Some(e) => push_unique_ids(&mut values, e),
        None => {},
    }
    push_unique_ids(&mut values, incoming);
    values
}

/// Same source and the same source id.
pub open spec fn same_payload(a: SourcePayload, b: SourcePayload) -> bool {
    a.source == b.source && a.source_id@ == b.source_id@
}

/// Index of the first payload with the same key, or -1.
pub open spec fn payload_index(acc: Seq<SourcePayload>, x: SourcePayload) -> int
    decreases acc.len(),
{
    if acc.len() == 0 {
        -1
    } else {
        let p = payload_index(acc.drop_last(), x);
        if p >= 0 {
            p
        } else if same_payload(acc.last(), x) {
            acc.len() - 1
        } else {
            -1
        }
    }
}

/// Adds each stored payload whose key is not yet present.
pub open spec fn add_unique_payloads(acc: Seq<SourcePayload>, items: Seq<SourcePayload>) -> Seq<
    SourcePayload,
>
    decreases items.len(),
{
    if items.len() == 0 {
        acc
    } else {
        let a = add_unique_payloads(acc, items.drop_last());
        if payload_index(a, items.last()) >= 0 {
            a
        } else {
            a.push(items.last())
        }
    }
}

/// Each incoming payload replaces the first payload with its key, or is
/// appended.
pub open spec fn upsert_payloads(acc: Seq<SourcePayload>, items: Seq<SourcePayload>) -> Seq<
    SourcePayload,
>
    decreases items.len(),
{
    if items.len() == 0 {
        acc
    } else {
        let a = upsert_payloads(acc, items.drop_last());
        let i = payload_index(a, items.last());
        if i >= 0 {
            a.update(i, items.last())
        } else {
            a.push(items.last())
        }
    }
}

pub open spec fn spec_merge_source_payloads(
    existing: Seq<SourcePayload>,
    incoming: Seq<SourcePayload>,
) -> Seq<SourcePayload> {
    upsert_payloads(add_unique_payloads(seq![], existing), incoming)
}

pub fn clone_payload(p: &SourcePayload) -> (r: SourcePayload)
    ensures
        r == *p,
{
    SourcePayload {
        source: p.source,
        source_id: clone_string(&p.source_id),
        url: clone_opt_string(&p.url),
        remote_updated_at: clone_opt_string(&p.remote_updated_at),
        raw_json: clone_opt_string(&p.raw_json),
    }
}

fn find_payload(values: &Vec<SourcePayload>, x: &SourcePayload) -> (r: Option<usize>)
    ensures
        r matches Some(i) ==> i == payload_index(values@, *x) && i < values@.len(),
        r is None ==> payload_index(values@, *x) == -1,
{
    let mut j: usize = 0;
    while j < values.len()
        invariant
            j <= values@.len(),
            payload_index(values@.subrange(0, j as int), *x) == -1,
        decreases values.len() - j,
    {
        proof {
            assert(values@.subrange(0, j + 1).drop_last() =~= values@.subrange(0, j as int));
        }
        if values[j].source == x.source && str_eq(values[j].source_id.as_str(), x.source_id.as_str()) {
            proof {
                lemma_payload_index_prefix(values@, *x, j + 1);
            }
            return Some(j);
        }
        j = j + 1;
    }
    assert(values@.subrange(0, values@.len() as int) =~= values@);
    None
}

proof fn lemma_payload_index_prefix(v: Seq<SourcePayload>, x: SourcePayload, k: int)
    requires
        0 <= k <= v.len(),
        payload_index(v.subrange(0, k), x) >= 0,
    ensures
        payload_index(v, x) == payload_index(v.subrange(0, k), x),
    decreases v.len() - k,
{
    if k < v.len() {
        assert(v.subrange(0, k + 1).drop_last() =~= v.subrange(0, k));
        lemma_payload_index_prefix(v, x, k + 1);
    } else {
        assert(v.subrange(0, k) =~= v);
    }
}

/// Merges stored and incoming source payloads: stored payloads with
/// distinct (source, source id) keys, each incoming payload replacing the
/// stored one with its key or appended.
pub fn merge_source_payloads(
    existing: Option<&Vec<SourcePayload>>,
    incoming: &Vec<SourcePayload>,
) -> (r: Vec<SourcePayload>)
    ensures
        r@ == spec_merge_source_payloads(
            match existing {
                Some(e) => e@,
                None => seq![],
            },
            incoming@,
        ),
{
    let mut values: Vec<SourcePayload> = Vec::new();
    let ghost ex: Seq<SourcePayload> = match existing {
        Some(e) => e@,
        None => seq![],
    };
    match existing {
        Some(e) => {
            let mut i: usize = 0;
            while i < e.len()
                invariant
                    i <= e@.len(),
                    ex == e@,
                    values@ == add_unique_payloads(seq![], e@.subrange(0, i as int)),
                decreases e.len() - i,
            {
                proof {
                    assert(e@.subrange(0, i + 1).drop_last() =~= e@.subrange(0, i as int));
                }
                match find_payload(&values, &e[i]) {
                    Some(_) => {},
                    None => {
                        values.push(clone_payload(&e[i]));
                    },
                }
                i = i + 1;
            }
            assert(e@.subrange(0, e@.len() as int) =~= e@);
        },
        None => {},
    }
    let ghost base = values@;
    assert(base == add_unique_payloads(seq![], ex));
    let mut i: usize = 0;
    while i < incoming.len()
        invariant
            i <= incoming@.len(),
            values@ == upsert_payloads(base, incoming@.subrange(0, i as int)),
        decreases incoming.len() - i,
    {
        proof {
            assert(incoming@.subrange(0, i + 1).drop_last() =~= incoming@.subrange(0, i as int));
        }
        match find_payload(&values, &incoming[i]) {
            Some(k) => {
                values.set(k, clone_payload(&incoming[i]));
            },
            None => {
                values.push(clone_payload(&incoming[i]));
            },
        }
        i = i + 1;
    }
    assert(incoming@.subrange(0, incoming@.len() as int) =~= incoming@);
    values
}


// ---------------------------------------------------------------------------
// Media merge
// ---------------------------------------------------------------------------

/// The stored provenance record for a field of the existing record.
pub open spec fn existing_provenance(existing: Option<StoredMedia>, name: Seq<char>) -> Option<
    FieldProvenance,
> {
    match existing {
        Some(e) => last_provenance(e.field_provenance@, name),
        None => None,
    }
}

pub open spec fn opt_field<T>(existing: Option<StoredMedia>, f: spec_fn(StoredMedia) -> Option<T>) -> Option<T> {
    match existing {
        Some(e) => f(e),
        None => None,
    }
}

/// The outcome of merging, field by field, with the provenance that each
/// field's choice records.
pub struct MergedSpec {
    pub title_display: (Option<String>, Seq<ProvenanceView>),
    pub title_romaji: (Option<String>, Seq<ProvenanceView>),
    pub title_english: (Option<String>, Seq<ProvenanceView>),
    pub title_native: (Option<String>, Seq<ProvenanceView>),
    pub synopsis: (Option<String>, Seq<ProvenanceView>),
    pub format: (Option<String>, Seq<ProvenanceView>),
    pub status: (Option<String>, Seq<ProvenanceView>),
    pub season: (Option<String>, Seq<ProvenanceView>),
    pub country_of_origin: (Option<String>, Seq<ProvenanceView>),
    pub season_year: (Option<i32>, Seq<ProvenanceView>),
    pub episodes: (Option<i32>, Seq<ProvenanceView>),
    pub chapters: (Option<i32>, Seq<ProvenanceView>),
    pub volumes: (Option<i32>, Seq<ProvenanceView>),
    pub cover_image: (Option<String>, Seq<ProvenanceView>),
    pub banner_image: (Option<String>, Seq<ProvenanceView>),
    pub nsfw: (bool, Seq<ProvenanceView>),
}

/// Each field chosen between the stored record (if any) and the incoming
/// one, attributed to the incoming record's origin.
pub open spec fn spec_merged(existing: Option<StoredMedia>, incoming: CanonicalMedia) -> MergedSpec {
    let o = spec_origin(incoming);
    MergedSpec {
        title_display: spec_choose_text("title_display"@, opt_field(existing, |e: StoredMedia| Some(e.title_display)), existing_provenance(existing, "title_display"@), Some(incoming.title_display), incoming, o),
        title_romaji: spec_choose_text("title_romaji"@, opt_field(existing, |e: StoredMedia| e.title_romaji), existing_provenance(existing, "title_romaji"@), incoming.title_romaji, incoming, o),
        title_english: spec_choose_text("title_english"@, opt_field(existing, |e: StoredMedia| e.title_english), existing_provenance(existing, "title_english"@), incoming.title_english, incoming, o),
        title_native: spec_choose_text("title_native"@, opt_field(existing, |e: StoredMedia| e.title_native), existing_provenance(existing, "title_native"@), incoming.title_native, incoming, o),
        synopsis: spec_choose_text("synopsis"@, opt_field(existing, |e: StoredMedia| e.synopsis), existing_provenance(existing, "synopsis"@), incoming.synopsis, incoming, o),
        format: spec_choose_text("format"@, opt_field(existing, |e: StoredMedia| e.format), existing_provenance(existing, "format"@), incoming.format, incoming, o),
        status: spec_choose_text("status"@, opt_field(existing, |e: StoredMedia| e.status), existing_provenance(existing, "status"@), incoming.status, incoming, o),
        season: spec_choose_text("season"@, opt_field(existing, |e: StoredMedia| e.season), existing_provenance(existing, "season"@), incoming.season, incoming, o),
        country_of_origin: spec_choose_text("country_of_origin"@, opt_field(existing, |e: StoredMedia| e.country_of_origin), existing_provenance(existing, "country_of_origin"@), incoming.country_of_origin, incoming, o),
        season_year: spec_choose_i32("season_year"@, opt_field(existing, |e: StoredMedia| e.season_year), existing_provenance(existing, "season_year"@), incoming.season_year, incoming, o),
        episodes: spec_choose_i32("episodes"@, opt_field(existing, |e: StoredMedia| e.episodes), existing_provenance(existing, "episodes"@), incoming.episodes, incoming, o),
        chapters: spec_choose_i32("chapters"@, opt_field(existing, |e: StoredMedia| e.chapters), existing_provenance(existing, "chapters"@), incoming.chapters, incoming, o),
        volumes: spec_choose_i32("volumes"@, opt_field(existing, |e: StoredMedia| e.volumes), existing_provenance(existing, "volumes"@), incoming.volumes, incoming, o),
        cover_image: spec_choose_cover("cover_image"@, opt_field(existing, |e: StoredMedia| e.cover_image), existing_provenance(existing, "cover_image"@), incoming.cover_image, incoming, o),
        banner_image: spec_choose_cover("banner_image"@, opt_field(existing, |e: StoredMedia| e.banner_image), existing_provenance(existing, "banner_image"@), incoming.banner_image, incoming, o),
        nsfw: spec_choose_bool("nsfw"@, opt_field(existing, |e: StoredMedia| Some(e.nsfw)), existing_provenance(existing, "nsfw"@), incoming.nsfw, incoming, o),
    }
}

/// The provenance of a merge: every field's record, in field order.
pub open spec fn merged_provenance(m: MergedSpec) -> Seq<ProvenanceView> {
    m.title_display.1 + m.title_romaji.1 + m.title_english.1 + m.title_native.1 + m.synopsis.1 + m.format.1 + m.status.1 + m.season.1 + m.country_of_origin.1 + m.season_year.1 + m.episodes.1 + m.chapters.1 + m.volumes.1 + m.cover_image.1 + m.banner_image.1 + m.nsfw.1
}

/// Two records hold the same values: every field equal, list fields equal
/// element by element.
pub open spec fn same_media(a: CanonicalMedia, b: CanonicalMedia) -> bool {
    &&& a.media_kind == b.media_kind
    &&& a.title_display == b.title_display
    &&& a.title_romaji == b.title_romaji
    &&& a.title_english == b.title_english
    &&& a.title_native == b.title_native
    &&& a.synopsis == b.synopsis
    &&& a.format == b.format
    &&& a.status == b.status
    &&& a.season == b.season
    &&& a.season_year == b.season_year
    &&& a.episodes == b.episodes
    &&& a.chapters == b.chapters
    &&& a.volumes == b.volumes
    &&& a.country_of_origin == b.country_of_origin
    &&& a.cover_image == b.cover_image
    &&& a.banner_image == b.banner_image
    &&& a.provider_rating == b.provider_rating
    &&& a.nsfw == b.nsfw
    &&& a.aliases@ == b.aliases@
    &&& a.genres@ == b.genres@
    &&& a.tags@ == b.tags@
    &&& a.external_ids@ == b.external_ids@
    &&& a.source_payloads@ == b.source_payloads@
    &&& a.field_provenance@ == b.field_provenance@
}

fn clone_external_ids(v: &Vec<ExternalId>) -> (r: Vec<ExternalId>)
    ensures
        r@ == v@,
{
    let mut out: Vec<ExternalId> = Vec::new();
    let mut i: usize = 0;
    while i < v.len()
        invariant
            i <= v@.len(),
            out@ == v@.subrange(0, i as int),
        decreases v.len() - i,
    {
        out.push(clone_external_id(&v[i]));
        i = i + 1;
    }
    assert(v@.subrange(0, v@.len() as int) =~= v@);
    out
}

fn clone_payloads(v: &Vec<SourcePayload>) -> (r: Vec<SourcePayload>)
    ensures
        r@ == v@,
{
    let mut out: Vec<SourcePayload> = Vec::new();
    let mut i: usize = 0;
    while i < v.len()
        invariant
            i <= v@.len(),
            out@ == v@.subrange(0, i as int),
        decreases v.len() - i,
    {
        out.push(clone_payload(&v[i]));
        i = i + 1;
    }
    assert(v@.subrange(0, v@.len() as int) =~= v@);
    out
}

fn clone_provenances(v: &Vec<FieldProvenance>) -> (r: Vec<FieldProvenance>)
    ensures
        r@ == v@,
{
    let mut out: Vec<FieldProvenance> = Vec::new();
    let mut i: usize = 0;
    while i < v.len()
        invariant
            i <= v@.len(),
            out@ == v@.subrange(0, i as int),
        decreases v.len() - i,
    {
        out.push(clone_provenance(&v[i]));
        i = i + 1;
    }
    assert(v@.subrange(0, v@.len() as int) =~= v@);
    out
}

/// A copy of a record, with the same values.
pub fn clone_media(m: &CanonicalMedia) -> (r: CanonicalMedia)
    ensures
        same_media(r, *m),
{
    CanonicalMedia {
        media_kind: m.media_kind,
        title_display: clone_string(&m.title_display),
        title_romaji: clone_opt_string(&m.title_romaji),
        title_english: clone_opt_string(&m.title_english),
        title_native: clone_opt_string(&m.title_native),
        synopsis: clone_opt_string(&m.synopsis),
        format: clone_opt_string(&m.format),
        status: clone_opt_string(&m.status),
        season: clone_opt_string(&m.season),
        season_year: m.season_year,
        episodes: m.episodes,
        chapters: m.chapters,
        volumes: m.volumes,
        country_of_origin: clone_opt_string(&m.country_of_origin),
        cover_image: clone_opt_string(&m.cover_image),
        banner_image: clone_opt_string(&m.banner_image),
        provider_rating: m.provider_rating,
        nsfw: m.nsfw,
        aliases: clone_strings(&m.aliases),
        genres: clone_strings(&m.genres),
        tags: clone_strings(&m.tags),
        external_ids: clone_external_ids(&m.external_ids),
        source_payloads: clone_payloads(&m.source_payloads),
        field_provenance: clone_provenances(&m.field_provenance),
    }
}

/// What merging `incoming` into the stored record `e` gives: each scalar
/// field as `spec_merged` chooses it, the stored kind, the higher rating,
/// the merged lists, ids and payloads, and the provenance of every choice.
pub open spec fn merged_from(e: StoredMedia, incoming: CanonicalMedia, r: CanonicalMedia) -> bool {
    {
        let m = spec_merged(Some(e), incoming);
        &&& r.media_kind == e.media_kind
        &&& r.title_display == (match m.title_display.0 {
            Some(v) => v,
            None => incoming.title_display,
        })
        &&& r.title_romaji == m.title_romaji.0
        &&& r.title_english == m.title_english.0
        &&& r.title_native == m.title_native.0
        &&& r.synopsis == m.synopsis.0
        &&& r.format == m.format.0
        &&& r.status == m.status.0
        &&& r.season == m.season.0
        &&& r.country_of_origin == m.country_of_origin.0
        &&& r.season_year == m.season_year.0
        &&& r.episodes == m.episodes.0
        &&& r.chapters == m.chapters.0
        &&& r.volumes == m.volumes.0
        &&& r.cover_image == m.cover_image.0
        &&& r.banner_image == m.banner_image.0
        &&& r.nsfw == m.nsfw.0
        &&& r.provider_rating == spec_choose_rating(
            e.provider_rating,
            incoming.provider_rating,
        )
        &&& views(r.aliases@) == spec_merge_string_lists(
            views(e.aliases@),
            views(incoming.aliases@),
        )
        &&& views(r.genres@) == spec_merge_string_lists(
            views(e.genres@),
            views(incoming.genres@),
        )
        &&& views(r.tags@) == spec_merge_string_lists(
            views(e.tags@),
            views(incoming.tags@),
        )
        &&& r.external_ids@ == spec_merge_external_ids(
            e.external_ids@,
            incoming.external_ids@,
        )
        &&& r.source_payloads@ == spec_merge_source_payloads(
            e.source_payloads@,
            incoming.source_payloads@,
        )
        &&& prov_views(r.field_provenance@) == merged_provenance(m)
    }
}

/// Merges an incoming record with the stored record it matches, if any.
///
/// With no stored record the incoming record comes back unchanged.
/// Otherwise every scalar field is chosen independently: an incoming value replaces a
/// stored one when its score is at least the stored value's provenance
/// score (0.60 without provenance), and the winner's provenance is
/// recorded. The media kind of a stored record is kept, the rating is the
/// higher of the two, list fields are merged case-insensitively, and
/// external ids and payloads are merged by (source, source id).
pub fn merge_media(existing: Option<&StoredMedia>, incoming: &CanonicalMedia) -> (r: CanonicalMedia)
    ensures
        existing is None ==> same_media(r, *incoming),
        existing matches Some(e) ==> merged_from(*e, *incoming, r),
{
    if existing.is_none() {
        return clone_media(incoming);
    }
    let origin = incoming_origin(incoming);
    let ghost ex: Option<StoredMedia> = match existing {
        Some(e) => Some(*e),
        None => None,
    };
    let ghost o = spec_origin(*incoming);
    let mut provenance: Vec<FieldProvenance> = Vec::new();
    let ghost p0 = prov_views(provenance@);
    assert(p0 =~= Seq::<ProvenanceView>::empty());

    let ev = match existing {
        Some(e) => Some(clone_string(&e.title_display)),
        None => None,
    };
    let ep = match existing {
        Some(e) => find_provenance(&e.field_provenance, "title_display"),
        None => None,
    };
    let title_display = choose_text(
        "title_display",
        ev,
        ep,
        Some(clone_string(&incoming.title_display)),
        incoming,
        &origin,
        &mut provenance,
    );
    let title_display = match title_display {
        Some(v) => v,
        None => clone_string(&incoming.title_display),
    };
    let ev = match existing {
        Some(e) => clone_opt_string(&e.title_romaji),
        None => None,
    };
    let ep = match existing {
        Some(e) => find_provenance(&e.field_provenance, "title_romaji"),
        None => None,
    };
    let title_romaji = choose_text("title_romaji", ev, ep, clone_opt_string(&incoming.title_romaji), incoming, &origin, &mut provenance);
    let ev = match existing {
        Some(e) => clone_opt_string(&e.title_english),
        None => None,
    };
    let ep = match existing {
        Some(e) => find_provenance(&e.field_provenance, "title_english"),
        None => None,
    };
    let title_english = choose_text("title_english", ev, ep, clone_opt_string(&incoming.title_english), incoming, &origin, &mut provenance);
    let ev = match existing {
        Some(e) => clone_opt_string(&e.title_native),
        None => None,
    };
    let ep = match existing {
        Some(e) => find_provenance(&e.field_provenance, "title_native"),
        None => None,
    };
    let title_native = choose_text("title_native", ev, ep, clone_opt_string(&incoming.title_native), incoming, &origin, &mut provenance);
    let ev = match existing {
        Some(e) => clone_opt_string(&e.synopsis),
        None => None,
    };
    let ep = match existing {
        Some(e) => find_provenance(&e.field_provenance, "synopsis"),
        None => None,
    };
    let synopsis = choose_text("synopsis", ev, ep, clone_opt_string(&incoming.synopsis), incoming, &origin, &mut provenance);
    let ev = match existing {
        Some(e) => clone_opt_string(&e.format),
        None => None,
    };
    let ep = match existing {
        Some(e) => find_provenance(&e.field_provenance, "format"),
        None => None,
    };
    let format = choose_text("format", ev, ep, clone_opt_string(&incoming.format), incoming, &origin, &mut provenance);
    let ev = match existing {
        Some(e) => clone_opt_string(&e.status),
        None => None,
    };
    let ep = match existing {
        Some(e) => find_provenance(&e.field_provenance, "status"),
        None => None,
    };
    let status = choose_text("status", ev, ep, clone_opt_string(&incoming.status), incoming, &origin, &mut provenance);
    let ev = match existing {
        Some(e) => clone_opt_string(&e.season),
        None => None,
    };
    let ep = match existing {
        Some(e) => find_provenance(&e.field_provenance, "season"),
        None => None,
    };
    let season = choose_text("season", ev, ep, clone_opt_string(&incoming.season), incoming, &origin, &mut provenance);
    let ev = match existing {
        Some(e) => clone_opt_string(&e.country_of_origin),
        None => None,
    };
    let ep = match existing {
        Some(e) => find_provenance(&e.field_provenance, "country_of_origin"),
        None => None,
    };
    let country_of_origin = choose_text("country_of_origin", ev, ep, clone_opt_string(&incoming.country_of_origin), incoming, &origin, &mut provenance);
    let ev = match existing {
        Some(e) => e.season_year,
        None => None,
    };
    let ep = match existing {
        Some(e) => find_provenance(&e.field_provenance, "season_year"),
        None => None,
    };
    let season_year = choose_i32("season_year", ev, ep, incoming.season_year, incoming, &origin, &mut provenance);
    let ev = match existing {
        Some(e) => e.episodes,
        None => None,
    };
    let ep = match existing {
        Some(e) => find_provenance(&e.field_provenance, "episodes"),
        None => None,
    };
    let episodes = choose_i32("episodes", ev, ep, incoming.episodes, incoming, &origin, &mut provenance);
    let ev = match existing {
        Some(e) => e.chapters,
        None => None,
    };
    let ep = match existing {
        Some(e) => find_provenance(&e.field_provenance, "chapters"),
        None => None,
    };
    let chapters = choose_i32("chapters", ev, ep, incoming.chapters, incoming, &origin, &mut provenance);
    let ev = match existing {
        Some(e) => e.volumes,
        None => None,
    };
    let ep = match existing {
        Some(e) => find_provenance(&e.field_provenance, "volumes"),
        None => None,
    };
    let volumes = choose_i32("volumes", ev, ep, incoming.volumes, incoming, &origin, &mut provenance);
    let ev = match existing {
        Some(e) => clone_opt_string(&e.cover_image),
        None => None,
    };
    let ep = match existing {
        Some(e) => find_provenance(&e.field_provenance, "cover_image"),
        None => None,
    };
    let cover_image = choose_cover("cover_image", ev, ep, clone_opt_string(&incoming.cover_image), incoming, &origin, &mut provenance);
    let ev = match existing {
        Some(e) => clone_opt_string(&e.banner_image),
        None => None,
    };
    let ep = match existing {
        Some(e) => find_provenance(&e.field_provenance, "banner_image"),
        None => None,
    };
    let banner_image = choose_cover("banner_image", ev, ep, clone_opt_string(&incoming.banner_image), incoming, &origin, &mut provenance);
    let ev = match existing {
        Some(e) => Some(e.nsfw),
        None => None,
    };
    let ep = match existing {
        Some(e) => find_provenance(&e.field_provenance, "nsfw"),
        None => None,
    };
    let nsfw = choose_bool("nsfw", ev, ep, incoming.nsfw, incoming, &origin, &mut provenance);
    let provider_rating = choose_rating(
        match existing {
            Some(e) => e.provider_rating,
            None => None,
        },
        incoming.provider_rating,
    );
    let media_kind = match existing {
        Some(e) => e.media_kind,
        None => incoming.media_kind,
    };
    let aliases = merge_string_lists(
        match existing {
            Some(e) => Some(&e.aliases),
            None => None,
        },
        &incoming.aliases,
    );
    let genres = merge_string_lists(
        match existing {
            Some(e) => Some(&e.genres),
            None => None,
        },
        &incoming.genres,
    );
    let tags = merge_string_lists(
        match existing {
            Some(e) => Some(&e.tags),
            None => None,
        },
        &incoming.tags,
    );
    let external_ids = merge_external_ids(
        match existing {
            Some(e) => Some(&e.external_ids),
            None => None,
        },
        &incoming.external_ids,
    );
    let source_payloads = merge_source_payloads(
        match existing {
            Some(e) => Some(&e.source_payloads),
            None => None,
        },
        &incoming.source_payloads,
    );
    CanonicalMedia {
        media_kind,
        title_display,
        title_romaji,
        title_english,
        title_native,
        synopsis,
        format,
        status,
        season,
        season_year,
        episodes,
        chapters,
        volumes,
        country_of_origin,
        cover_image,
        banner_image,
        provider_rating,
        nsfw,
        aliases,
        genres,
        tags,
        external_ids,
        source_payloads,
        field_provenance: provenance,
    }
}


// ---------------------------------------------------------------------------
// Episode merge
// ---------------------------------------------------------------------------

/// Episode provider priority, highest to lowest: AniList, IMDb, TVmaze,
/// MyAnimeList, Jikan, Kitsu.
pub open spec fn spec_episode_priority(source: SourceName) -> u8 {
    match source {
        SourceName::AniList => 6,
        SourceName::Imdb => 5,
        SourceName::Tvmaze => 4,
        SourceName::MyAnimeList => 3,
        SourceName::Jikan => 2,
        SourceName::Kitsu => 1,
    }
}

pub fn episode_provider_priority(source: SourceName) -> (r: u8)
    ensures
        r == spec_episode_priority(source),
{
    match source {
        SourceName::AniList => 6,
        SourceName::Imdb => 5,
        SourceName::Tvmaze => 4,
        SourceName::MyAnimeList => 3,
        SourceName::Jikan => 2,
        SourceName::Kitsu => 1,
    }
}

/// Among the present entries, the one with the highest priority; on ties
/// the later one.
pub open spec fn best_present(present: Seq<bool>, prios: Seq<u8>) -> Option<int>
    decreases present.len(),
{
    if present.len() == 0 {
        None
    } else {
        let i = present.len() - 1;
        let b = best_present(present.drop_last(), prios);
        if present[i] && (b is None || prios[i] >= prios[b.unwrap()]) {
            Some(i)
        } else {
            b
        }
    }
}

/// The first entry with the highest priority.
pub open spec fn first_highest(prios: Seq<u8>) -> int
    decreases prios.len(),
{
    if prios.len() <= 1 {
        0
    } else {
        let b = first_highest(prios.drop_last());
        if prios.last() > prios[b] {
            prios.len() - 1
        } else {
            b
        }
    }
}

/// The first highest-priority entry is in range, no entry has a higher
/// priority, and every entry before it has a lower one.
pub proof fn lemma_first_highest(prios: Seq<u8>)
    requires
        prios.len() > 0,
    ensures
        0 <= first_highest(prios) < prios.len(),
        forall|j: int| 0 <= j < prios.len() ==> #[trigger] prios[j] <= prios[first_highest(prios)],
        forall|j: int| 0 <= j < first_highest(prios) ==> #[trigger] prios[j] < prios[first_highest(prios)],
    decreases prios.len(),
{
    if prios.len() > 1 {
        let p = prios.drop_last();
        lemma_first_highest(p);
        assert forall|j: int| 0 <= j < p.len() implies p[j] == prios[j] by {}
    }
}

proof fn lemma_best_present_bounds(present: Seq<bool>, prios: Seq<u8>)
    ensures
        best_present(present, prios) matches Some(i) ==> 0 <= i < present.len() && present[i],
    decreases present.len(),
{
    if present.len() > 0 {
        lemma_best_present_bounds(present.drop_last(), prios);
    }
}

/// The index of the highest-priority present entry (the later one on ties).
pub fn best_index(present: &Vec<bool>, prios: &Vec<u8>) -> (r: Option<usize>)
    requires
        present@.len() == prios@.len(),
    ensures
        r matches Some(i) ==> best_present(present@, prios@) == Some(i as int),
        r is None ==> best_present(present@, prios@) is None,
{
    let mut best: Option<usize> = None;
    let mut i: usize = 0;
    while i < present.len()
        invariant
            i <= present@.len(),
            present@.len() == prios@.len(),
            best matches Some(b) ==> best_present(present@.subrange(0, i as int), prios@) == Some(
                b as int,
            ) && b < i,
            best is None ==> best_present(present@.subrange(0, i as int), prios@) is None,
        decreases present.len() - i,
    {
        proof {
            assert(present@.subrange(0, i + 1).drop_last() =~= present@.subrange(0, i as int));
        }
        if present[i] {
            match best {
                Some(b) => {
                    if prios[i] >= prios[b] {
                        best = Some(i);
                    }
                },
                None => {
                    best = Some(i);
                },
            }
        }
        i = i + 1;
    }
    assert(present@.subrange(0, present@.len() as int) =~= present@);
    best
}

/// The index of the first entry with the highest priority.
pub fn highest_index(prios: &Vec<u8>) -> (r: usize)
    requires
        prios@.len() > 0,
    ensures
        r == first_highest(prios@),
        r < prios@.len(),
        forall|j: int| 0 <= j < prios@.len() ==> #[trigger] prios@[j] <= prios@[r as int],
{
    proof {
        lemma_first_highest(prios@);
    }
    let mut b: usize = 0;
    let mut i: usize = 1;
    while i < prios.len()
        invariant
            1 <= i <= prios@.len(),
            b < i,
            b == first_highest(prios@.subrange(0, i as int)),
        decreases prios.len() - i,
    {
        proof {
            let n = prios@.subrange(0, i + 1);
            assert(n.drop_last() =~= prios@.subrange(0, i as int));
            assert(n[b as int] == prios@[b as int]);
        }
        if prios[i] > prios[b] {
            b = i;
        }
        i = i + 1;
    }
    assert(prios@.subrange(0, prios@.len() as int) =~= prios@);
    b
}

pub open spec fn record_prios(v: Seq<EpisodeSourceRecord>) -> Seq<u8> {
    v.map_values(|r: EpisodeSourceRecord| spec_episode_priority(r.source))
}

/// The value of the highest-priority record that has one (the later record
/// on ties).
pub open spec fn pick_value<T>(vals: Seq<Option<T>>, prios: Seq<u8>) -> Option<T> {
    match best_present(vals.map_values(|o: Option<T>| o is Some), prios) {
        Some(i) => vals[i],
        None => None,
    }
}

/// Each of the display title, original title, synopsis, air date, runtime
/// and thumbnail taken from the highest-priority record that has it;
/// numbering, media id and the titles JSON from the first record of highest
/// priority.
pub open spec fn spec_merge_episode_source_records(v: Seq<EpisodeSourceRecord>) -> StoredEpisode {
    let pr = record_prios(v);
    let h = v[first_highest(pr)];
    StoredEpisode {
        id: 0,
        media_id: h.media_id,
        season_number: h.season_number,
        episode_number: h.episode_number,
        absolute_number: h.absolute_number,
        title_display: pick_value(v.map_values(|r: EpisodeSourceRecord| r.title_display), pr),
        title_original: pick_value(v.map_values(|r: EpisodeSourceRecord| r.title_original), pr),
        titles_json: h.titles_json,
        synopsis: pick_value(v.map_values(|r: EpisodeSourceRecord| r.synopsis), pr),
        air_date: pick_value(v.map_values(|r: EpisodeSourceRecord| r.air_date), pr),
        runtime_minutes: pick_value(v.map_values(|r: EpisodeSourceRecord| r.runtime_minutes), pr),
        thumbnail_url: pick_value(v.map_values(|r: EpisodeSourceRecord| r.thumbnail_url), pr),
    }
}

fn record_priorities(v: &Vec<EpisodeSourceRecord>) -> (r: Vec<u8>)
    ensures
        r@ == record_prios(v@),
{
    let mut out: Vec<u8> = Vec::new();
    let mut i: usize = 0;
    while i < v.len()
        invariant
            i <= v@.len(),
            out@ == record_prios(v@.subrange(0, i as int)),
        decreases v.len() - i,
    {
        out.push(episode_provider_priority(v[i].source));
        i = i + 1;
        assert(out@ =~= record_prios(v@.subrange(0, i as int)));
    }
    assert(v@.subrange(0, v@.len() as int) =~= v@);
    out
}

fn rec_pick_title_display(v: &Vec<EpisodeSourceRecord>, prios: &Vec<u8>) -> (r: Option<String>)
    requires
        prios@.len() == v@.len(),
    ensures
        r == pick_value(v@.map_values(|x: EpisodeSourceRecord| x.title_display), prios@),
{
    let mut present: Vec<bool> = Vec::new();
    let mut i: usize = 0;
    while i < v.len()
        invariant
            i <= v@.len(),
            present@ == v@.subrange(0, i as int).map_values(|x: EpisodeSourceRecord| x.title_display).map_values(
                |o: Option<String>| o is Some,
            ),
        decreases v.len() - i,
    {
        present.push(v[i].title_display.is_some());
        i = i + 1;
        assert(present@ =~= v@.subrange(0, i as int).map_values(|x: EpisodeSourceRecord| x.title_display).map_values(
            |o: Option<String>| o is Some,
        ));
    }
    assert(v@.subrange(0, v@.len() as int) =~= v@);
    proof {
        lemma_best_present_bounds(present@, prios@);
    }
    match best_index(&present, prios) {
        Some(k) => clone_opt_string(&v[k].title_display),
        None => None,
    }
}

fn rec_pick_title_original(v: &Vec<EpisodeSourceRecord>, prios: &Vec<u8>) -> (r: Option<String>)
    requires
        prios@.len() == v@.len(),
    ensures
        r == pick_value(v@.map_values(|x: EpisodeSourceRecord| x.title_original), prios@),
{
    let mut present: Vec<bool> = Vec::new();
    let mut i: usize = 0;
    while i < v.len()
        invariant
            i <= v@.len(),
            present@ == v@.subrange(0, i as int).map_values(|x: EpisodeSourceRecord| x.title_original).map_values(
                |o: Option<String>| o is Some,
            ),
        decreases v.len() - i,
    {
        present.push(v[i].title_original.is_some());
        i = i + 1;
        assert(present@ =~= v@.subrange(0, i as int).map_values(|x: EpisodeSourceRecord| x.title_original).map_values(
            |o: Option<String>| o is Some,
        ));
    }
    assert(v@.subrange(0, v@.len() as int) =~= v@);
    proof {
        lemma_best_present_bounds(present@, prios@);
    }
    match best_index(&present, prios) {
        Some(k) => clone_opt_string(&v[k].title_original),
        None => None,
    }
}

fn rec_pick_synopsis(v: &Vec<EpisodeSourceRecord>, prios: &Vec<u8>) -> (r: Option<String>)
    requires
        prios@.len() == v@.len(),
    ensures
        r == pick_value(v@.map_values(|x: EpisodeSourceRecord| x.synopsis), prios@),
{
    let mut present: Vec<bool> = Vec::new();
    let mut i: usize = 0;
    while i < v.len()
        invariant
            i <= v@.len(),
            present@ == v@.subrange(0, i as int).map_values(|x: EpisodeSourceRecord| x.synopsis).map_values(
                |o: Option<String>| o is Some,
            ),
        decreases v.len() - i,
    {
        present.push(v[i].synopsis.is_some());
        i = i + 1;
        assert(present@ =~= v@.subrange(0, i as int).map_values(|x: EpisodeSourceRecord| x.synopsis).map_values(
            |o: Option<String>| o is Some,
        ));
    }
    assert(v@.subrange(0, v@.len() as int) =~= v@);
    proof {
        lemma_best_present_bounds(present@, prios@);
    }
    match best_index(&present, prios) {
        Some(k) => clone_opt_string(&v[k].synopsis),
        None => None,
    }
}

fn rec_pick_air_date(v: &Vec<EpisodeSourceRecord>, prios: &Vec<u8>) -> (r: Option<String>)
    requires
        prios@.len() == v@.len(),
    ensures
        r == pick_value(v@.map_values(|x: EpisodeSourceRecord| x.air_date), prios@),
{
    let mut present: Vec<bool> = Vec::new();
    let mut i: usize = 0;
    while i < v.len()
        invariant
            i <= v@.len(),
            present@ == v@.subrange(0, i as int).map_values(|x: EpisodeSourceRecord| x.air_date).map_values(
                |o: Option<String>| o is Some,
            ),
        decreases v.len() - i,
    {
        present.push(v[i].air_date.is_some());
        i = i + 1;
        assert(present@ =~= v@.subrange(0, i as int).map_values(|x: EpisodeSourceRecord| x.air_date).map_values(
            |o: Option<String>| o is Some,
        ));
    }
    assert(v@.subrange(0, v@.len() as int) =~= v@);
    proof {
        lemma_best_present_bounds(present@, prios@);
    }
    match best_index(&present, prios) {
        Some(k) => clone_opt_string(&v[k].air_date),
        None => None,
    }
}

fn rec_pick_thumbnail_url(v: &Vec<EpisodeSourceRecord>, prios: &Vec<u8>) -> (r: Option<String>)
    requires
        prios@.len() == v@.len(),
    ensures
        r == pick_value(v@.map_values(|x: EpisodeSourceRecord| x.thumbnail_url), prios@),
{
    let mut present: Vec<bool> = Vec::new();
    let mut i: usize = 0;
    while i < v.len()
        invariant
            i <= v@.len(),
            present@ == v@.subrange(0, i as int).map_values(|x: EpisodeSourceRecord| x.thumbnail_url).map_values(
                |o: Option<String>| o is Some,
            ),
        decreases v.len() - i,
    {
        present.push(v[i].thumbnail_url.is_some());
        i = i + 1;
        assert(present@ =~= v@.subrange(0, i as int).map_values(|x: EpisodeSourceRecord| x.thumbnail_url).map_values(
            |o: Option<String>| o is Some,
        ));
    }
    assert(v@.subrange(0, v@.len() as int) =~= v@);
    proof {
        lemma_best_present_bounds(present@, prios@);
    }
    match best_index(&present, prios) {
        Some(k) => clone_opt_string(&v[k].thumbnail_url),
        None => None,
    }
}

fn rec_pick_runtime_minutes(v: &Vec<EpisodeSourceRecord>, prios: &Vec<u8>) -> (r: Option<i32>)
    requires
        prios@.len() == v@.len(),
    ensures
        r == pick_value(v@.map_values(|x: EpisodeSourceRecord| x.runtime_minutes), prios@),
{
    let mut present: Vec<bool> = Vec::new();
    let mut i: usize = 0;
    while i < v.len()
        invariant
            i <= v@.len(),
            present@ == v@.subrange(0, i as int).map_values(|x: EpisodeSourceRecord| x.runtime_minutes).map_values(
                |o: Option<i32>| o is Some,
            ),
        decreases v.len() - i,
    {
        present.push(v[i].runtime_minutes.is_some());
        i = i + 1;
        assert(present@ =~= v@.subrange(0, i as int).map_values(|x: EpisodeSourceRecord| x.runtime_minutes).map_values(
            |o: Option<i32>| o is Some,
        ));
    }
    assert(v@.subrange(0, v@.len() as int) =~= v@);
    proof {
        lemma_best_present_bounds(present@, prios@);
    }
    match best_index(&present, prios) {
        Some(k) => v[k].runtime_minutes,
        None => None,
    }
}

fn ep_pick_title_display(v: &Vec<CanonicalEpisode>, prios: &Vec<u8>) -> (r: Option<String>)
    requires
        prios@.len() == v@.len(),
    ensures
        r == pick_value(v@.map_values(|x: CanonicalEpisode| x.title_display), prios@),
{
    let mut present: Vec<bool> = Vec::new();
    let mut i: usize = 0;
    while i < v.len()
        invariant
            i <= v@.len(),
            present@ == v@.subrange(0, i as int).map_values(|x: CanonicalEpisode| x.title_display).map_values(
                |o: Option<String>| o is Some,
            ),
        decreases v.len() - i,
    {
        present.push(v[i].title_display.is_some());
        i = i + 1;
        assert(present@ =~= v@.subrange(0, i as int).map_values(|x: CanonicalEpisode| x.title_display).map_values(
            |o: Option<String>| o is Some,
        ));
    }
    assert(v@.subrange(0, v@.len() as int) =~= v@);
    proof {
        lemma_best_present_bounds(present@, prios@);
    }
    match best_index(&present, prios) {
        Some(k) => clone_opt_string(&v[k].title_display),
        None => None,
    }
}

fn ep_pick_title_original(v: &Vec<CanonicalEpisode>, prios: &Vec<u8>) -> (r: Option<String>)
    requires
        prios@.len() == v@.len(),
    ensures
        r == pick_value(v@.map_values(|x: CanonicalEpisode| x.title_original), prios@),
{
    let mut present: Vec<bool> = Vec::new();
    let mut i: usize = 0;
    while i < v.len()
        invariant
            i <= v@.len(),
            present@ == v@.subrange(0, i as int).map_values(|x: CanonicalEpisode| x.title_original).map_values(
                |o: Option<String>| o is Some,
            ),
        decreases v.len() - i,
    {
        present.push(v[i].title_original.is_some());
        i = i + 1;
        assert(present@ =~= v@.subrange(0, i as int).map_values(|x: CanonicalEpisode| x.title_original).map_values(
            |o: Option<String>| o is Some,
        ));
    }
    assert(v@.subrange(0, v@.len() as int) =~= v@);
    proof {
        lemma_best_present_bounds(present@, prios@);
    }
    match best_index(&present, prios) {
        Some(k) => clone_opt_string(&v[k].title_original),
        None => None,
    }
}

fn ep_pick_synopsis(v: &Vec<CanonicalEpisode>, prios: &Vec<u8>) -> (r: Option<String>)
    requires
        prios@.len() == v@.len(),
    ensures
        r == pick_value(v@.map_values(|x: CanonicalEpisode| x.synopsis), prios@),
{
    let mut present: Vec<bool> = Vec::new();
    let mut i: usize = 0;
    while i < v.len()
        invariant
            i <= v@.len(),
            present@ == v@.subrange(0, i as int).map_values(|x: CanonicalEpisode| x.synopsis).map_values(
                |o: Option<String>| o is Some,
            ),
        decreases v.len() - i,
    {
        present.push(v[i].synopsis.is_some());
        i = i + 1;
        assert(present@ =~= v@.subrange(0, i as int).map_values(|x: CanonicalEpisode| x.synopsis).map_values(
            |o: Option<String>| o is Some,
        ));
    }
    assert(v@.subrange(0, v@.len() as int) =~= v@);
    proof {
        lemma_best_present_bounds(present@, prios@);
    }
    match best_index(&present, prios) {
        Some(k) => clone_opt_string(&v[k].synopsis),
        None => None,
    }
}

fn ep_pick_air_date(v: &Vec<CanonicalEpisode>, prios: &Vec<u8>) -> (r: Option<String>)
    requires
        prios@.len() == v@.len(),
    ensures
        r == pick_value(v@.map_values(|x: CanonicalEpisode| x.air_date), prios@),
{
    let mut present: Vec<bool> = Vec::new();
    let mut i: usize = 0;
    while i < v.len()
        invariant
            i <= v@.len(),
            present@ == v@.subrange(0, i as int).map_values(|x: CanonicalEpisode| x.air_date).map_values(
                |o: Option<String>| o is Some,
            ),
        decreases v.len() - i,
    {
        present.push(v[i].air_date.is_some());
        i = i + 1;
        assert(present@ =~= v@.subrange(0, i as int).map_values(|x: CanonicalEpisode| x.air_date).map_values(
            |o: Option<String>| o is Some,
        ));
    }
    assert(v@.subrange(0, v@.len() as int) =~= v@);
    proof {
        lemma_best_present_bounds(present@, prios@);
    }
    match best_index(&present, prios) {
        Some(k) => clone_opt_string(&v[k].air_date),
        None => None,
    }
}

fn ep_pick_thumbnail_url(v: &Vec<CanonicalEpisode>, prios: &Vec<u8>) -> (r: Option<String>)
    requires
        prios@.len() == v@.len(),
    ensures
        r == pick_value(v@.map_values(|x: CanonicalEpisode| x.thumbnail_url), prios@),
{
    let mut present: Vec<bool> = Vec::new();
    let mut i: usize = 0;
    while i < v.len()
        invariant
            i <= v@.len(),
            present@ == v@.subrange(0, i as int).map_values(|x: CanonicalEpisode| x.thumbnail_url).map_values(
                |o: Option<String>| o is Some,
            ),
        decreases v.len() - i,
    {
        present.push(v[i].thumbnail_url.is_some());
        i = i + 1;
        assert(present@ =~= v@.subrange(0, i as int).map_values(|x: CanonicalEpisode| x.thumbnail_url).map_values(
            |o: Option<String>| o is Some,
        ));
    }
    assert(v@.subrange(0, v@.len() as int) =~= v@);
    proof {
        lemma_best_present_bounds(present@, prios@);
    }
    match best_index(&present, prios) {
        Some(k) => clone_opt_string(&v[k].thumbnail_url),
        None => None,
    }
}

fn ep_pick_runtime_minutes(v: &Vec<CanonicalEpisode>, prios: &Vec<u8>) -> (r: Option<i32>)
    requires
        prios@.len() == v@.len(),
    ensures
        r == pick_value(v@.map_values(|x: CanonicalEpisode| x.runtime_minutes), prios@),
{
    let mut present: Vec<bool> = Vec::new();
    let mut i: usize = 0;
    while i < v.len()
        invariant
            i <= v@.len(),
            present@ == v@.subrange(0, i as int).map_values(|x: CanonicalEpisode| x.runtime_minutes).map_values(
                |o: Option<i32>| o is Some,
            ),
        decreases v.len() - i,
    {
        present.push(v[i].runtime_minutes.is_some());
        i = i + 1;
        assert(present@ =~= v@.subrange(0, i as int).map_values(|x: CanonicalEpisode| x.runtime_minutes).map_values(
            |o: Option<i32>| o is Some,
        ));
    }
    assert(v@.subrange(0, v@.len() as int) =~= v@);
    proof {
        lemma_best_present_bounds(present@, prios@);
    }
    match best_index(&present, prios) {
        Some(k) => v[k].runtime_minutes,
        None => None,
    }
}

fn ep_pick_raw_titles_json(v: &Vec<CanonicalEpisode>, prios: &Vec<u8>) -> (r: Option<String>)
    requires
        prios@.len() == v@.len(),
    ensures
        r == pick_value(v@.map_values(|x: CanonicalEpisode| x.raw_titles_json), prios@),
{
    let mut present: Vec<bool> = Vec::new();
    let mut i: usize = 0;
    while i < v.len()
        invariant
            i <= v@.len(),
            present@ == v@.subrange(0, i as int).map_values(|x: CanonicalEpisode| x.raw_titles_json).map_values(
                |o: Option<String>| o is Some,
            ),
        decreases v.len() - i,
    {
        present.push(v[i].raw_titles_json.is_some());
        i = i + 1;
        assert(present@ =~= v@.subrange(0, i as int).map_values(|x: CanonicalEpisode| x.raw_titles_json).map_values(
            |o: Option<String>| o is Some,
        ));
    }
    assert(v@.subrange(0, v@.len() as int) =~= v@);
    proof {
        lemma_best_present_bounds(present@, prios@);
    }
    match best_index(&present, prios) {
        Some(k) => clone_opt_string(&v[k].raw_titles_json),
        None => None,
    }
}

/// Merges the per-provider records of one episode into a canonical episode.
pub fn merge_episode_source_records(records: &Vec<EpisodeSourceRecord>) -> (r: StoredEpisode)
    requires
        records@.len() > 0,
    ensures
        r == spec_merge_episode_source_records(records@),
        exists|h: int|
            0 <= h < records@.len() && r.media_id == records@[h].media_id && r.season_number
                == records@[h].season_number && r.episode_number == records@[h].episode_number
                && r.absolute_number == records@[h].absolute_number && r.titles_json
                == records@[h].titles_json && forall|j: int|
                0 <= j < records@.len() ==> spec_episode_priority(records@[j].source)
                    <= spec_episode_priority(records@[h].source),
{
    proof {
        lemma_first_highest(record_prios(records@));
    }
    let prios = record_priorities(records);
    let h = highest_index(&prios);
    let hr = &records[h];
    let merged = StoredEpisode {
        id: 0,
        media_id: hr.media_id,
        season_number: hr.season_number,
        episode_number: hr.episode_number,
        absolute_number: hr.absolute_number,
        title_display: rec_pick_title_display(records, &prios),
        title_original: rec_pick_title_original(records, &prios),
        titles_json: clone_opt_string(&hr.titles_json),
        synopsis: rec_pick_synopsis(records, &prios),
        air_date: rec_pick_air_date(records, &prios),
        runtime_minutes: rec_pick_runtime_minutes(records, &prios),
        thumbnail_url: rec_pick_thumbnail_url(records, &prios),
    };
    proof {
        let hi = h as int;
        assert forall|j: int| 0 <= j < records@.len() implies spec_episode_priority(
            records@[j].source,
        ) <= spec_episode_priority(records@[hi].source) by {
            assert(prios@[j] <= prios@[hi]);
        }
    }
    merged
}


pub open spec fn ep_prios(v: Seq<CanonicalEpisode>) -> Seq<u8> {
    v.map_values(|e: CanonicalEpisode| spec_episode_priority(e.source))
}

pub open spec fn all_present(n: nat) -> Seq<bool> {
    Seq::new(n, |i: int| true)
}

/// The flat episode number used for grouping: the absolute number when
/// known, else the episode number.
pub open spec fn effective_number(e: CanonicalEpisode) -> Option<i32> {
    match e.absolute_number {
        Some(a) => Some(a),
        None => e.episode_number,
    }
}

/// One canonical episode from a group of provider records: identity,
/// numbering and raw JSON from the highest-priority record (the later one
/// on ties), every other field from the highest-priority record that has it.
pub open spec fn spec_merge_episode_group(g: Seq<CanonicalEpisode>) -> CanonicalEpisode {
    let pr = ep_prios(g);
    let id = g[best_present(all_present(g.len()), pr).unwrap()];
    CanonicalEpisode {
        source: id.source,
        source_id: id.source_id,
        media_kind: id.media_kind,
        season_number: id.season_number,
        episode_number: id.episode_number,
        absolute_number: id.absolute_number,
        title_display: pick_value(g.map_values(|e: CanonicalEpisode| e.title_display), pr),
        title_original: pick_value(g.map_values(|e: CanonicalEpisode| e.title_original), pr),
        synopsis: pick_value(g.map_values(|e: CanonicalEpisode| e.synopsis), pr),
        air_date: pick_value(g.map_values(|e: CanonicalEpisode| e.air_date), pr),
        runtime_minutes: pick_value(g.map_values(|e: CanonicalEpisode| e.runtime_minutes), pr),
        thumbnail_url: pick_value(g.map_values(|e: CanonicalEpisode| e.thumbnail_url), pr),
        raw_titles_json: pick_value(g.map_values(|e: CanonicalEpisode| e.raw_titles_json), pr),
        raw_json: id.raw_json,
    }
}

fn episode_priorities(v: &Vec<CanonicalEpisode>) -> (r: Vec<u8>)
    ensures
        r@ == ep_prios(v@),
{
    let mut out: Vec<u8> = Vec::new();
    let mut i: usize = 0;
    while i < v.len()
        invariant
            i <= v@.len(),
            out@ == ep_prios(v@.subrange(0, i as int)),
        decreases v.len() - i,
    {
        out.push(episode_provider_priority(v[i].source));
        i = i + 1;
        assert(out@ =~= ep_prios(v@.subrange(0, i as int)));
    }
    assert(v@.subrange(0, v@.len() as int) =~= v@);
    out
}

proof fn lemma_best_present_all(n: nat, prios: Seq<u8>)
    requires
        n > 0,
    ensures
        best_present(all_present(n), prios) is Some,
    decreases n,
{
    assert(all_present(n).drop_last() =~= all_present((n - 1) as nat));
    if n > 1 {
        lemma_best_present_all((n - 1) as nat, prios);
    }
}

pub fn clone_episode(e: &CanonicalEpisode) -> (r: CanonicalEpisode)
    ensures
        r == *e,
{
    CanonicalEpisode {
        source: e.source,
        source_id: clone_string(&e.source_id),
        media_kind: e.media_kind,
        season_number: e.season_number,
        episode_number: e.episode_number,
        absolute_number: e.absolute_number,
        title_display: clone_opt_string(&e.title_display),
        title_original: clone_opt_string(&e.title_original),
        synopsis: clone_opt_string(&e.synopsis),
        air_date: clone_opt_string(&e.air_date),
        runtime_minutes: e.runtime_minutes,
        thumbnail_url: clone_opt_string(&e.thumbnail_url),
        raw_titles_json: clone_opt_string(&e.raw_titles_json),
        raw_json: clone_opt_string(&e.raw_json),
    }
}

/// Merges one group of provider records for the same episode.
pub fn merge_canonical_episode_group(group: &Vec<CanonicalEpisode>) -> (r: CanonicalEpisode)
    requires
        group@.len() > 0,
    ensures
        r == spec_merge_episode_group(group@),
{
    let prios = episode_priorities(group);
    let mut present: Vec<bool> = Vec::new();
    let mut i: usize = 0;
    while i < group.len()
        invariant
            i <= group@.len(),
            present@ == all_present(i as nat),
        decreases group.len() - i,
    {
        present.push(true);
        i = i + 1;
        assert(present@ =~= all_present(i as nat));
    }
    proof {
        lemma_best_present_all(group@.len(), prios@);
        lemma_best_present_bounds(present@, prios@);
    }
    let k = match best_index(&present, &prios) {
        Some(k) => k,
        None => 0,
    };
    let id = &group[k];
    CanonicalEpisode {
        source: id.source,
        source_id: clone_string(&id.source_id),
        media_kind: id.media_kind,
        season_number: id.season_number,
        episode_number: id.episode_number,
        absolute_number: id.absolute_number,
        title_display: ep_pick_title_display(group, &prios),
        title_original: ep_pick_title_original(group, &prios),
        synopsis: ep_pick_synopsis(group, &prios),
        air_date: ep_pick_air_date(group, &prios),
        runtime_minutes: ep_pick_runtime_minutes(group, &prios),
        thumbnail_url: ep_pick_thumbnail_url(group, &prios),
        raw_titles_json: ep_pick_raw_titles_json(group, &prios),
        raw_json: clone_opt_string(&id.raw_json),
    }
}

/// The records whose effective number is `n`, in order.
pub open spec fn group_of(v: Seq<CanonicalEpisode>, n: i32) -> Seq<CanonicalEpisode>
    decreases v.len(),
{
    if v.len() == 0 {
        seq![]
    } else {
        let g = group_of(v.drop_last(), n);
        if effective_number(v.last()) == Some(n) {
            g.push(v.last())
        } else {
            g
        }
    }
}

proof fn lemma_group_members(v: Seq<CanonicalEpisode>, n: i32)
    ensures
        forall|j: int|
            0 <= j < group_of(v, n).len() ==> effective_number(#[trigger] group_of(v, n)[j])
                == Some(n),
        (exists|k: int| 0 <= k < v.len() && effective_number(#[trigger] v[k]) == Some(n))
            ==> group_of(v, n).len() > 0,
    decreases v.len(),
{
    if v.len() > 0 {
        lemma_group_members(v.drop_last(), n);
        if exists|k: int| 0 <= k < v.len() && effective_number(#[trigger] v[k]) == Some(n) {
            let k = choose|k: int| 0 <= k < v.len() && effective_number(#[trigger] v[k]) == Some(n);
            if k < v.len() - 1 {
                assert(v.drop_last()[k] == v[k]);
            }
        }
    }
}

/// The strictly increasing sequence holds exactly the effective numbers of
/// the records.
pub open spec fn is_key_list(keys: Seq<i32>, v: Seq<CanonicalEpisode>) -> bool {
    &&& forall|a: int, b: int| 0 <= a < b < keys.len() ==> keys[a] < keys[b]
    &&& forall|n: i32| keys.contains(n) <==> exists|k: int|
        0 <= k < v.len() && effective_number(#[trigger] v[k]) == Some(n)
}

fn effective_keys(v: &Vec<CanonicalEpisode>) -> (r: Vec<i32>)
    ensures
        is_key_list(r@, v@),
{
    let mut keys: Vec<i32> = Vec::new();
    let mut i: usize = 0;
    while i < v.len()
        invariant
            i <= v@.len(),
            is_key_list(keys@, v@.subrange(0, i as int)),
        decreases v.len() - i,
    {
        let ghost pre = v@.subrange(0, i as int);
        let ghost next = v@.subrange(0, i + 1);
        let key = match v[i].absolute_number {
            Some(a) => Some(a),
            None => v[i].episode_number,
        };
        match key {
            Some(n) => {
                let mut p: usize = 0;
                while p < keys.len() && keys[p] < n
                    invariant
                        p <= keys@.len(),
                        forall|q: int| 0 <= q < p ==> keys@[q] < n,
                    decreases keys.len() - p,
                {
                    p = p + 1;
                }
                if p < keys.len() && keys[p] == n {
                    assert forall|m: i32| keys@.contains(m) <==> exists|k: int|
                        0 <= k < next.len() && effective_number(#[trigger] next[k]) == Some(m) by {
                        if keys@.contains(m) {
                            let k = choose|k: int| 0 <= k < pre.len() && effective_number(#[trigger] pre[k]) == Some(m);
                            assert(next[k] == pre[k]);
                        }
                        if exists|k: int| 0 <= k < next.len() && effective_number(#[trigger] next[k]) == Some(m) {
                            let k = choose|k: int| 0 <= k < next.len() && effective_number(#[trigger] next[k]) == Some(m);
                            if k < pre.len() {
                                assert(pre[k] == next[k]);
                            } else {
                                assert(keys@[p as int] == m);
                            }
                        }
                    }
                } else {
                    let ghost old_keys = keys@;
                    keys.insert(p, n);
                    assert forall|a: int, b: int| 0 <= a < b < keys@.len() implies keys@[a] < keys@[b] by {
                        if b < p {
                        } else if a < p && b == p {
                        } else if a < p {
                            assert(old_keys[a] < n);
                            assert(keys@[b] == old_keys[b - 1]);
                            if b - 1 > p {
                                assert(old_keys[p as int] < old_keys[b - 1]);
                            }
                        } else if a == p {
                            assert(keys@[b] == old_keys[b - 1]);
                            if b - 1 > p {
                                assert(old_keys[p as int] < old_keys[b - 1]);
                            }
                        } else {
                            assert(keys@[a] == old_keys[a - 1]);
                            assert(keys@[b] == old_keys[b - 1]);
                        }
                    }
                    assert forall|m: i32| keys@.contains(m) <==> exists|k: int|
                        0 <= k < next.len() && effective_number(#[trigger] next[k]) == Some(m) by {
                        if keys@.contains(m) {
                            let j = choose|j: int| 0 <= j < keys@.len() && keys@[j] == m;
                            if j == p {
                                assert(effective_number(next[i as int]) == Some(m));
                            } else {
                                let jj = if j < p { j } else { j - 1 };
                                assert(old_keys[jj] == m);
                                assert(old_keys.contains(m));
                                let k = choose|k: int| 0 <= k < pre.len() && effective_number(#[trigger] pre[k]) == Some(m);
                                assert(next[k] == pre[k]);
                            }
                        }
                        if exists|k: int| 0 <= k < next.len() && effective_number(#[trigger] next[k]) == Some(m) {
                            let k = choose|k: int| 0 <= k < next.len() && effective_number(#[trigger] next[k]) == Some(m);
                            if k < pre.len() {
                                assert(pre[k] == next[k]);
                                assert(old_keys.contains(m));
                                let j = choose|j: int| 0 <= j < old_keys.len() && old_keys[j] == m;
                                if j < p {
                                    assert(keys@[j] == m);
                                } else {
                                    assert(keys@[j + 1] == m);
                                }
                            } else {
                                assert(keys@[p as int] == m);
                            }
                        }
                    }
                }
            },
            None => {
                assert forall|m: i32| keys@.contains(m) <==> exists|k: int|
                    0 <= k < next.len() && effective_number(#[trigger] next[k]) == Some(m) by {
                    if keys@.contains(m) {
                        let k = choose|k: int| 0 <= k < pre.len() && effective_number(#[trigger] pre[k]) == Some(m);
                        assert(next[k] == pre[k]);
                    }
                    if exists|k: int| 0 <= k < next.len() && effective_number(#[trigger] next[k]) == Some(m) {
                        let k = choose|k: int| 0 <= k < next.len() && effective_number(#[trigger] next[k]) == Some(m);
                        if k < pre.len() {
                            assert(pre[k] == next[k]);
                        }
                    }
                }
            },
        }
        i = i + 1;
    }
    assert(v@.subrange(0, v@.len() as int) =~= v@);
    keys
}

fn collect_group(v: &Vec<CanonicalEpisode>, n: i32) -> (r: Vec<CanonicalEpisode>)
    ensures
        r@ == group_of(v@, n),
{
    let mut out: Vec<CanonicalEpisode> = Vec::new();
    let mut i: usize = 0;
    while i < v.len()
        invariant
            i <= v@.len(),
            out@ == group_of(v@.subrange(0, i as int), n),
        decreases v.len() - i,
    {
        proof {
            assert(v@.subrange(0, i + 1).drop_last() =~= v@.subrange(0, i as int));
        }
        let key = match v[i].absolute_number {
            Some(a) => Some(a),
            None => v[i].episode_number,
        };
        if key == Some(n) {
            out.push(clone_episode(&v[i]));
        }
        i = i + 1;
    }
    assert(v@.subrange(0, v@.len() as int) =~= v@);
    out
}

/// Merges provider episode records into one record per flat effective
/// episode number (absolute number, else episode number), in increasing
/// order of that number; records with neither number are skipped.
pub fn merge_canonical_episodes_by_effective_number(episodes: &Vec<CanonicalEpisode>) -> (r: Vec<
    CanonicalEpisode,
>)
    ensures
        forall|a: int, b: int|
            #![trigger r@[a], r@[b]]
            0 <= a < b < r@.len() ==> (effective_number(r@[a]) matches Some(x) && effective_number(
                r@[b],
            ) matches Some(y) && x < y),
        forall|i: int|
            0 <= i < r@.len() ==> (effective_number(#[trigger] r@[i]) matches Some(n) && r@[i]
                == spec_merge_episode_group(group_of(episodes@, n))),
        forall|k: int|
            0 <= k < episodes@.len() ==> (effective_number(#[trigger] episodes@[k]) matches Some(n)
                ==> exists|i: int| 0 <= i < r@.len() && effective_number(r@[i]) == Some(n)),
        forall|i: int|
            0 <= i < r@.len() ==> exists|k: int|
                0 <= k < episodes@.len() && effective_number(episodes@[k]) == effective_number(
                    #[trigger] r@[i],
                ),
{
    let keys = effective_keys(episodes);
    let mut out: Vec<CanonicalEpisode> = Vec::new();
    let mut i: usize = 0;
    while i < keys.len()
        invariant
            i <= keys@.len(),
            is_key_list(keys@, episodes@),
            out@.len() == i,
            forall|j: int|
                0 <= j < i ==> effective_number(#[trigger] out@[j]) == Some(keys@[j]) && out@[j]
                    == spec_merge_episode_group(group_of(episodes@, keys@[j])),
        decreases keys.len() - i,
    {
        let n = keys[i];
        let group = collect_group(episodes, n);
        proof {
            assert(keys@.contains(n));
            lemma_group_members(episodes@, n);
            lemma_best_present_all(group@.len(), ep_prios(group@));
            lemma_best_present_bounds(all_present(group@.len()), ep_prios(group@));
            let b = best_present(all_present(group@.len()), ep_prios(group@)).unwrap();
            assert(effective_number(group@[b]) == Some(n));
        }
        let merged = merge_canonical_episode_group(&group);
        out.push(merged);
        i = i + 1;
    }
    proof {
        assert forall|k: int| 0 <= k < episodes@.len() implies (effective_number(
            #[trigger] episodes@[k],
        ) matches Some(n) ==> exists|i: int| 0 <= i < out@.len() && effective_number(out@[i]) == Some(n)) by {
            if let Some(n) = effective_number(episodes@[k]) {
                assert(keys@.contains(n));
                let j = choose|j: int| 0 <= j < keys@.len() && keys@[j] == n;
                assert(effective_number(out@[j]) == Some(n));
            }
        }
        assert forall|i: int| 0 <= i < out@.len() implies exists|k: int|
            0 <= k < episodes@.len() && effective_number(episodes@[k]) == effective_number(
                #[trigger] out@[i],
            ) by {
            assert(keys@.contains(keys@[i]));
        }
    }
    out
}


// ---------------------------------------------------------------------------
// Laws of the merge
// ---------------------------------------------------------------------------

/// No two values equal ignoring ASCII case.
pub open spec fn unique_ci(s: Seq<Seq<char>>) -> bool {
    forall|i: int, j: int| 0 <= i < j < s.len() ==> !eq_ci(#[trigger] s[i], #[trigger] s[j])
}

proof fn lemma_add_unique_ci(acc: Seq<Seq<char>>, items: Seq<Seq<char>>)
    ensures
        add_unique_ci(acc, items).len() >= acc.len(),
        forall|i: int| 0 <= i < acc.len() ==> add_unique_ci(acc, items)[i] == acc[i],
        unique_ci(acc) ==> unique_ci(add_unique_ci(acc, items)),
        forall|k: int| 0 <= k < items.len() ==> contains_ci(add_unique_ci(acc, items), #[trigger] items[k]),
    decreases items.len(),
{
    if items.len() > 0 {
        let pre = items.drop_last();
        let a = add_unique_ci(acc, pre);
        lemma_add_unique_ci(acc, pre);
        let x = items.last();
        if !contains_ci(a, x) {
            let b = a.push(x);
            assert(eq_ci(b[a.len() as int], x));
            assert forall|k: int| 0 <= k < items.len() implies contains_ci(b, #[trigger] items[k]) by {
                if k < pre.len() {
                    assert(items[k] == pre[k]);
                    let j = choose|j: int| 0 <= j < a.len() && eq_ci(#[trigger] a[j], pre[k]);
                    assert(b[j] == a[j]);
                } else {
                    assert(b[a.len() as int] == items[k]);
                }
            }
            if unique_ci(acc) {
                assert forall|i: int, j: int| 0 <= i < j < b.len() implies !eq_ci(
                    #[trigger] b[i],
                    #[trigger] b[j],
                ) by {
                    if j == a.len() {
                        assert(b[i] == a[i]);
                    } else {
                        assert(b[i] == a[i] && b[j] == a[j]);
                    }
                }
            }
        } else {
            assert forall|k: int| 0 <= k < items.len() implies contains_ci(a, #[trigger] items[k]) by {
                if k < pre.len() {
                    assert(items[k] == pre[k]);
                }
            }
        }
    }
}

/// Merging two lists keeps one value per case-insensitive spelling, and
/// keeps every stored and every incoming value (up to ASCII case).
pub proof fn lemma_merge_string_lists(existing: Seq<Seq<char>>, incoming: Seq<Seq<char>>)
    ensures
        unique_ci(spec_merge_string_lists(existing, incoming)),
        forall|k: int|
            0 <= k < existing.len() ==> contains_ci(
                spec_merge_string_lists(existing, incoming),
                #[trigger] existing[k],
            ),
        forall|k: int|
            0 <= k < incoming.len() ==> contains_ci(
                spec_merge_string_lists(existing, incoming),
                #[trigger] incoming[k],
            ),
{
    let empty: Seq<Seq<char>> = seq![];
    let a = add_unique_ci(empty, existing);
    lemma_add_unique_ci(empty, existing);
    lemma_add_unique_ci(a, incoming);
    let r = add_unique_ci(a, incoming);
    assert forall|k: int| 0 <= k < existing.len() implies contains_ci(r, #[trigger] existing[k]) by {
        let j = choose|j: int| 0 <= j < a.len() && eq_ci(#[trigger] a[j], existing[k]);
        assert(r[j] == a[j]);
    }
}

/// No two ids with the same source and source id.
pub open spec fn unique_ids(s: Seq<ExternalId>) -> bool {
    forall|i: int, j: int| 0 <= i < j < s.len() ==> !same_id(#[trigger] s[i], #[trigger] s[j])
}

proof fn lemma_add_unique_ids(acc: Seq<ExternalId>, items: Seq<ExternalId>)
    ensures
        add_unique_ids(acc, items).len() >= acc.len(),
        forall|i: int| 0 <= i < acc.len() ==> add_unique_ids(acc, items)[i] == acc[i],
        unique_ids(acc) ==> unique_ids(add_unique_ids(acc, items)),
        forall|k: int| 0 <= k < items.len() ==> has_same_id(add_unique_ids(acc, items), #[trigger] items[k]),
    decreases items.len(),
{
    if items.len() > 0 {
        let pre = items.drop_last();
        let a = add_unique_ids(acc, pre);
        lemma_add_unique_ids(acc, pre);
        let x = items.last();
        if !has_same_id(a, x) {
            let b = a.push(x);
            assert(same_id(b[a.len() as int], x));
            assert forall|k: int| 0 <= k < items.len() implies has_same_id(b, #[trigger] items[k]) by {
                if k < pre.len() {
                    assert(items[k] == pre[k]);
                    let j = choose|j: int| 0 <= j < a.len() && same_id(#[trigger] a[j], pre[k]);
                    assert(b[j] == a[j]);
                } else {
                    assert(b[a.len() as int] == items[k]);
                }
            }
            if unique_ids(acc) {
                assert forall|i: int, j: int| 0 <= i < j < b.len() implies !same_id(
                    #[trigger] b[i],
                    #[trigger] b[j],
                ) by {
                    if j == a.len() {
                        assert(b[i] == a[i]);
                        if same_id(b[i], b[j]) {
                            assert(same_id(a[i], x));
                        }
                    } else {
                        assert(b[i] == a[i] && b[j] == a[j]);
                    }
                }
            }
        } else {
            assert forall|k: int| 0 <= k < items.len() implies has_same_id(a, #[trigger] items[k]) by {
                if k < pre.len() {
                    assert(items[k] == pre[k]);
                }
            }
        }
    }
}

/// Merging external ids keeps one id per (source, source id) pair, and
/// keeps every stored and every incoming pair.
pub proof fn lemma_merge_external_ids(existing: Seq<ExternalId>, incoming: Seq<ExternalId>)
    ensures
        unique_ids(spec_merge_external_ids(existing, incoming)),
        forall|k: int|
            0 <= k < existing.len() ==> has_same_id(
                spec_merge_external_ids(existing, incoming),
                #[trigger] existing[k],
            ),
        forall|k: int|
            0 <= k < incoming.len() ==> has_same_id(
                spec_merge_external_ids(existing, incoming),
                #[trigger] incoming[k],
            ),
{
    let empty: Seq<ExternalId> = seq![];
    let a = add_unique_ids(empty, existing);
    lemma_add_unique_ids(empty, existing);
    lemma_add_unique_ids(a, incoming);
    let r = add_unique_ids(a, incoming);
    assert forall|k: int| 0 <= k < existing.len() implies has_same_id(r, #[trigger] existing[k]) by {
        let j = choose|j: int| 0 <= j < a.len() && same_id(#[trigger] a[j], existing[k]);
        assert(r[j] == a[j]);
    }
}

/// The merged rating is the higher of the two, whichever side it comes
/// from: merging is symmetric and never lowers a known rating.
pub proof fn lemma_choose_rating(a: Option<u64>, b: Option<u64>)
    ensures
        spec_choose_rating(a, b) == spec_choose_rating(b, a),
        a matches Some(x) ==> (spec_choose_rating(a, b) matches Some(y) && y >= x),
        b matches Some(x) ==> (spec_choose_rating(a, b) matches Some(y) && y >= x),
        a is None && b is None <==> spec_choose_rating(a, b) is None,
{
}

proof fn lemma_text_missing(
    field: Seq<char>,
    ev: Option<String>,
    ep: Option<FieldProvenance>,
    inc: CanonicalMedia,
    o: (SourceName, Seq<char>),
)
    ensures
        spec_choose_text(field, ev, ep, None, inc, o).0 == ev,
{
    reveal(spec_choose_text);
}

proof fn lemma_i32_missing(
    field: Seq<char>,
    ev: Option<i32>,
    ep: Option<FieldProvenance>,
    inc: CanonicalMedia,
    o: (SourceName, Seq<char>),
)
    ensures
        spec_choose_i32(field, ev, ep, None, inc, o).0 == ev,
{
    reveal(spec_choose_i32);
}

proof fn lemma_cover_missing(
    field: Seq<char>,
    ev: Option<String>,
    ep: Option<FieldProvenance>,
    inc: CanonicalMedia,
    o: (SourceName, Seq<char>),
)
    ensures
        spec_choose_cover(field, ev, ep, None, inc, o).0 == ev,
{
    reveal(spec_choose_cover);
}

/// A stored value is never replaced by a missing one: a field the incoming
/// record lacks keeps the stored value.
pub proof fn lemma_merge_keeps_stored_when_missing(existing: StoredMedia, incoming: CanonicalMedia)
    ensures
        ({
            let m = spec_merged(Some(existing), incoming);
            &&& incoming.title_romaji is None ==> m.title_romaji.0 == existing.title_romaji
            &&& incoming.title_english is None ==> m.title_english.0 == existing.title_english
            &&& incoming.title_native is None ==> m.title_native.0 == existing.title_native
            &&& incoming.synopsis is None ==> m.synopsis.0 == existing.synopsis
            &&& incoming.format is None ==> m.format.0 == existing.format
            &&& incoming.status is None ==> m.status.0 == existing.status
            &&& incoming.season is None ==> m.season.0 == existing.season
            &&& incoming.country_of_origin is None ==> m.country_of_origin.0
                == existing.country_of_origin
            &&& incoming.season_year is None ==> m.season_year.0 == existing.season_year
            &&& incoming.episodes is None ==> m.episodes.0 == existing.episodes
            &&& incoming.chapters is None ==> m.chapters.0 == existing.chapters
            &&& incoming.volumes is None ==> m.volumes.0 == existing.volumes
            &&& incoming.cover_image is None ==> m.cover_image.0 == existing.cover_image
            &&& incoming.banner_image is None ==> m.banner_image.0 == existing.banner_image
        }),
{
    let ex = Some(existing);
    let o = spec_origin(incoming);
    lemma_text_missing("title_romaji"@, existing.title_romaji, existing_provenance(ex, "title_romaji"@), incoming, o);
    lemma_text_missing("title_english"@, existing.title_english, existing_provenance(ex, "title_english"@), incoming, o);
    lemma_text_missing("title_native"@, existing.title_native, existing_provenance(ex, "title_native"@), incoming, o);
    lemma_text_missing("synopsis"@, existing.synopsis, existing_provenance(ex, "synopsis"@), incoming, o);
    lemma_text_missing("format"@, existing.format, existing_provenance(ex, "format"@), incoming, o);
    lemma_text_missing("status"@, existing.status, existing_provenance(ex, "status"@), incoming, o);
    lemma_text_missing("season"@, existing.season, existing_provenance(ex, "season"@), incoming, o);
    lemma_text_missing("country_of_origin"@, existing.country_of_origin, existing_provenance(ex, "country_of_origin"@), incoming, o);
    lemma_i32_missing("season_year"@, existing.season_year, existing_provenance(ex, "season_year"@), incoming, o);
    lemma_i32_missing("episodes"@, existing.episodes, existing_provenance(ex, "episodes"@), incoming, o);
    lemma_i32_missing("chapters"@, existing.chapters, existing_provenance(ex, "chapters"@), incoming, o);
    lemma_i32_missing("volumes"@, existing.volumes, existing_provenance(ex, "volumes"@), incoming, o);
    lemma_cover_missing("cover_image"@, existing.cover_image, existing_provenance(ex, "cover_image"@), incoming, o);
    lemma_cover_missing("banner_image"@, existing.banner_image, existing_provenance(ex, "banner_image"@), incoming, o);
}

proof fn lemma_best_present_max(present: Seq<bool>, prios: Seq<u8>)
    requires
        present.len() == prios.len(),
    ensures
        (exists|j: int| 0 <= j < present.len() && present[j]) ==> best_present(present, prios) is Some,
        best_present(present, prios) matches Some(i) ==> 0 <= i < present.len() && present[i]
            && forall|j: int| 0 <= j < present.len() && present[j] ==> prios[j] <= prios[i],
    decreases present.len(),
{
    if present.len() > 0 {
        let n = present.len() - 1;
        let pp = present.drop_last();
        let pr = prios.drop_last();
        lemma_best_present_max(pp, pr);
        lemma_best_present_prefix(pp, prios);
        if exists|j: int| 0 <= j < present.len() && present[j] {
            let j = choose|j: int| 0 <= j < present.len() && present[j];
            if j < n {
                assert(pp[j]);
            }
        }
        match best_present(present, prios) {
            Some(i) => {
                assert forall|j: int| 0 <= j < present.len() && present[j] implies prios[j]
                    <= prios[i] by {
                    if j < n {
                        assert(pp[j]);
                        assert(prios[j] == pr[j]);
                    }
                }
            },
            None => {},
        }
    }
}

proof fn lemma_best_present_prefix(present: Seq<bool>, prios: Seq<u8>)
    requires
        present.len() <= prios.len(),
    ensures
        best_present(present, prios) == best_present(present, prios.subrange(0, present.len() as int)),
        best_present(present, prios) matches Some(i) ==> 0 <= i < present.len(),
    decreases present.len(),
{
    if present.len() > 0 {
        let pre = prios.subrange(0, present.len() as int);
        lemma_best_present_prefix(present.drop_last(), prios);
        lemma_best_present_prefix(present.drop_last(), pre);
        assert(pre.subrange(0, present.len() - 1) =~= prios.subrange(0, present.len() - 1));
    }
}

/// A merged episode field comes from a highest-priority provider among
/// those that supplied a value, and is present whenever any provider
/// supplied one.
pub proof fn lemma_pick_value_highest<T>(vals: Seq<Option<T>>, prios: Seq<u8>)
    requires
        vals.len() == prios.len(),
    ensures
        (exists|j: int| 0 <= j < vals.len() && vals[j] is Some) ==> pick_value(vals, prios) is Some,
        pick_value(vals, prios) matches Some(v) ==> exists|i: int|
            0 <= i < vals.len() && vals[i] == Some(v) && forall|j: int|
                0 <= j < vals.len() && vals[j] is Some ==> prios[j] <= prios[i],
{
    let present = vals.map_values(|o: Option<T>| o is Some);
    lemma_best_present_max(present, prios);
    if exists|j: int| 0 <= j < vals.len() && vals[j] is Some {
        let j = choose|j: int| 0 <= j < vals.len() && vals[j] is Some;
        assert(present[j]);
    }
    match best_present(present, prios) {
        Some(i) => {
            assert(vals[i] is Some);
            assert forall|j: int| 0 <= j < vals.len() && vals[j] is Some implies prios[j]
                <= prios[i] by {
                assert(present[j]);
            }
        },
        None => {},
    }
}


// ---------------------------------------------------------------------------
// Re-merging the same incoming record
// ---------------------------------------------------------------------------

proof fn lemma_add_unique_ci_of_unique(r: Seq<Seq<char>>)
    requires
        unique_ci(r),
    ensures
        add_unique_ci(seq![], r) == r,
    decreases r.len(),
{
    if r.len() > 0 {
        let p = r.drop_last();
        assert forall|i: int, j: int| 0 <= i < j < p.len() implies !eq_ci(
            #[trigger] p[i],
            #[trigger] p[j],
        ) by {
            assert(p[i] == r[i] && p[j] == r[j]);
        }
        lemma_add_unique_ci_of_unique(p);
        if contains_ci(p, r.last()) {
            let j = choose|j: int| 0 <= j < p.len() && eq_ci(#[trigger] p[j], r.last());
            assert(p[j] == r[j]);
            assert(!eq_ci(r[j], r[r.len() - 1]));
        }
        assert(p.push(r.last()) =~= r);
    }
}

proof fn lemma_add_unique_ci_covered(acc: Seq<Seq<char>>, items: Seq<Seq<char>>)
    requires
        forall|k: int| 0 <= k < items.len() ==> contains_ci(acc, #[trigger] items[k]),
    ensures
        add_unique_ci(acc, items) == acc,
    decreases items.len(),
{
    if items.len() > 0 {
        let p = items.drop_last();
        assert forall|k: int| 0 <= k < p.len() implies contains_ci(acc, #[trigger] p[k]) by {
            assert(p[k] == items[k]);
        }
        lemma_add_unique_ci_covered(acc, p);
        assert(contains_ci(acc, items[items.len() - 1]));
    }
}

/// Merging the incoming list into a merge result gives that result back.
proof fn lemma_list_remerge(existing: Seq<Seq<char>>, incoming: Seq<Seq<char>>)
    ensures
        spec_merge_string_lists(spec_merge_string_lists(existing, incoming), incoming)
            == spec_merge_string_lists(existing, incoming),
{
    let r = spec_merge_string_lists(existing, incoming);
    lemma_merge_string_lists(existing, incoming);
    lemma_add_unique_ci_of_unique(r);
    lemma_add_unique_ci_covered(r, incoming);
}

/// Merging a list without repeats into itself gives it back.
proof fn lemma_list_self_merge(r: Seq<Seq<char>>)
    requires
        unique_ci(r),
    ensures
        spec_merge_string_lists(r, r) == r,
{
    lemma_add_unique_ci_of_unique(r);
    assert forall|k: int| 0 <= k < r.len() implies contains_ci(r, #[trigger] r[k]) by {
        assert(eq_ci(r[k], r[k]));
    }
    lemma_add_unique_ci_covered(r, r);
}

proof fn lemma_add_unique_ids_of_unique(r: Seq<ExternalId>)
    requires
        unique_ids(r),
    ensures
        add_unique_ids(seq![], r) == r,
    decreases r.len(),
{
    if r.len() > 0 {
        let p = r.drop_last();
        assert forall|i: int, j: int| 0 <= i < j < p.len() implies !same_id(
            #[trigger] p[i],
            #[trigger] p[j],
        ) by {
            assert(p[i] == r[i] && p[j] == r[j]);
        }
        lemma_add_unique_ids_of_unique(p);
        if has_same_id(p, r.last()) {
            let j = choose|j: int| 0 <= j < p.len() && same_id(#[trigger] p[j], r.last());
            assert(p[j] == r[j]);
            assert(!same_id(r[j], r[r.len() - 1]));
        }
        assert(p.push(r.last()) =~= r);
    }
}

proof fn lemma_add_unique_ids_covered(acc: Seq<ExternalId>, items: Seq<ExternalId>)
    requires
        forall|k: int| 0 <= k < items.len() ==> has_same_id(acc, #[trigger] items[k]),
    ensures
        add_unique_ids(acc, items) == acc,
    decreases items.len(),
{
    if items.len() > 0 {
        let p = items.drop_last();
        assert forall|k: int| 0 <= k < p.len() implies has_same_id(acc, #[trigger] p[k]) by {
            assert(p[k] == items[k]);
        }
        lemma_add_unique_ids_covered(acc, p);
        assert(has_same_id(acc, items[items.len() - 1]));
    }
}

proof fn lemma_ids_remerge(existing: Seq<ExternalId>, incoming: Seq<ExternalId>)
    ensures
        spec_merge_external_ids(spec_merge_external_ids(existing, incoming), incoming)
            == spec_merge_external_ids(existing, incoming),
{
    let r = spec_merge_external_ids(existing, incoming);
    lemma_merge_external_ids(existing, incoming);
    lemma_add_unique_ids_of_unique(r);
    lemma_add_unique_ids_covered(r, incoming);
}

proof fn lemma_ids_self_merge(r: Seq<ExternalId>)
    requires
        unique_ids(r),
    ensures
        spec_merge_external_ids(r, r) == r,
{
    lemma_add_unique_ids_of_unique(r);
    assert forall|k: int| 0 <= k < r.len() implies has_same_id(r, #[trigger] r[k]) by {
        assert(same_id(r[k], r[k]));
    }
    lemma_add_unique_ids_covered(r, r);
}

/// The score a field's recorded provenance defends with.
pub open spec fn kept_score(p: Seq<ProvenanceView>) -> nat {
    if p.len() > 0 {
        p[0].score as nat
    } else {
        720000
    }
}

/// Every entry records the named field, and there is at most one.
pub open spec fn named_entries(p: Seq<ProvenanceView>, name: Seq<char>) -> bool {
    &&& p.len() <= 1
    &&& forall|j: int| 0 <= j < p.len() ==> (#[trigger] p[j]).field_name == name
}

proof fn lemma_text_rechoose(
    field: Seq<char>,
    ev: Option<String>,
    ep: Option<FieldProvenance>,
    x: Option<String>,
    inc: CanonicalMedia,
    o: (SourceName, Seq<char>),
    ep2: Option<FieldProvenance>,
)
    requires
        defended_score(ep2) == kept_score(spec_choose_text(field, ev, ep, x, inc, o).1),
    ensures
        spec_choose_text(field, spec_choose_text(field, ev, ep, x, inc, o).0, ep2, x, inc, o).0
            == spec_choose_text(field, ev, ep, x, inc, o).0,
{
    reveal(spec_choose_text);
    assert(kept_score(kept_provenance(ep)) == defended_score(ep));
}

proof fn lemma_text_same(field: Seq<char>, v: Option<String>, ep2: Option<FieldProvenance>, inc: CanonicalMedia, o: (SourceName, Seq<char>))
    ensures
        spec_choose_text(field, v, ep2, v, inc, o).0 == v,
{
    reveal(spec_choose_text);
}

proof fn lemma_text_named(
    field: Seq<char>,
    ev: Option<String>,
    ep: Option<FieldProvenance>,
    x: Option<String>,
    inc: CanonicalMedia,
    o: (SourceName, Seq<char>),
)
    requires
        ep matches Some(p) ==> p.field_name@ == field,
    ensures
        named_entries(spec_choose_text(field, ev, ep, x, inc, o).1, field),
{
    reveal(spec_choose_text);
}

proof fn lemma_i32_rechoose(
    field: Seq<char>,
    ev: Option<i32>,
    ep: Option<FieldProvenance>,
    x: Option<i32>,
    inc: CanonicalMedia,
    o: (SourceName, Seq<char>),
    ep2: Option<FieldProvenance>,
)
    requires
        defended_score(ep2) == kept_score(spec_choose_i32(field, ev, ep, x, inc, o).1),
    ensures
        spec_choose_i32(field, spec_choose_i32(field, ev, ep, x, inc, o).0, ep2, x, inc, o).0
            == spec_choose_i32(field, ev, ep, x, inc, o).0,
{
    reveal(spec_choose_i32);
    assert(kept_score(kept_provenance(ep)) == defended_score(ep));
}

proof fn lemma_i32_same(field: Seq<char>, v: Option<i32>, ep2: Option<FieldProvenance>, inc: CanonicalMedia, o: (SourceName, Seq<char>))
    ensures
        spec_choose_i32(field, v, ep2, v, inc, o).0 == v,
{
    reveal(spec_choose_i32);
}

proof fn lemma_i32_named(
    field: Seq<char>,
    ev: Option<i32>,
    ep: Option<FieldProvenance>,
    x: Option<i32>,
    inc: CanonicalMedia,
    o: (SourceName, Seq<char>),
)
    requires
        ep matches Some(p) ==> p.field_name@ == field,
    ensures
        named_entries(spec_choose_i32(field, ev, ep, x, inc, o).1, field),
{
    reveal(spec_choose_i32);
}

proof fn lemma_cover_rechoose(
    field: Seq<char>,
    ev: Option<String>,
    ep: Option<FieldProvenance>,
    x: Option<String>,
    inc: CanonicalMedia,
    o: (SourceName, Seq<char>),
    ep2: Option<FieldProvenance>,
)
    requires
        defended_score(ep2) == kept_score(spec_choose_cover(field, ev, ep, x, inc, o).1),
    ensures
        spec_choose_cover(field, spec_choose_cover(field, ev, ep, x, inc, o).0, ep2, x, inc, o).0
            == spec_choose_cover(field, ev, ep, x, inc, o).0,
{
    reveal(spec_choose_cover);
    assert(kept_score(kept_provenance(ep)) == defended_score(ep));
}

proof fn lemma_cover_same(field: Seq<char>, v: Option<String>, ep2: Option<FieldProvenance>, inc: CanonicalMedia, o: (SourceName, Seq<char>))
    ensures
        spec_choose_cover(field, v, ep2, v, inc, o).0 == v,
{
    reveal(spec_choose_cover);
}

proof fn lemma_cover_named(
    field: Seq<char>,
    ev: Option<String>,
    ep: Option<FieldProvenance>,
    x: Option<String>,
    inc: CanonicalMedia,
    o: (SourceName, Seq<char>),
)
    requires
        ep matches Some(p) ==> p.field_name@ == field,
    ensures
        named_entries(spec_choose_cover(field, ev, ep, x, inc, o).1, field),
{
    reveal(spec_choose_cover);
}

proof fn lemma_bool_rechoose(
    field: Seq<char>,
    ev: bool,
    ep: Option<FieldProvenance>,
    x: bool,
    inc: CanonicalMedia,
    o: (SourceName, Seq<char>),
    ep2: Option<FieldProvenance>,
)
    requires
        defended_score(ep2) == kept_score(spec_choose_bool(field, Some(ev), ep, x, inc, o).1),
    ensures
        spec_choose_bool(field, Some(spec_choose_bool(field, Some(ev), ep, x, inc, o).0), ep2, x, inc, o).0
            == spec_choose_bool(field, Some(ev), ep, x, inc, o).0,
{
    reveal(spec_choose_bool);
    assert(kept_score(kept_provenance(ep)) == defended_score(ep));
}

proof fn lemma_bool_same(field: Seq<char>, v: bool, ep2: Option<FieldProvenance>, inc: CanonicalMedia, o: (SourceName, Seq<char>))
    ensures
        spec_choose_bool(field, Some(v), ep2, v, inc, o).0 == v,
{
    reveal(spec_choose_bool);
}

proof fn lemma_bool_named(
    field: Seq<char>,
    ev: Option<bool>,
    ep: Option<FieldProvenance>,
    x: bool,
    inc: CanonicalMedia,
    o: (SourceName, Seq<char>),
)
    requires
        ep matches Some(p) ==> p.field_name@ == field,
    ensures
        named_entries(spec_choose_bool(field, ev, ep, x, inc, o).1, field),
{
    reveal(spec_choose_bool);
}

proof fn lemma_text_present(
    field: Seq<char>,
    a: String,
    ep: Option<FieldProvenance>,
    c: String,
    inc: CanonicalMedia,
    o: (SourceName, Seq<char>),
)
    ensures
        spec_choose_text(field, Some(a), ep, Some(c), inc, o).0 is Some,
{
    reveal(spec_choose_text);
}

proof fn lemma_last_provenance_name(v: Seq<FieldProvenance>, name: Seq<char>)
    ensures
        last_provenance(v, name) matches Some(p) ==> p.field_name@ == name,
    decreases v.len(),
{
    if v.len() > 0 {
        lemma_last_provenance_name(v.drop_last(), name);
    }
}

/// The records of several fields, one after another.
pub open spec fn flat_views(ps: Seq<Seq<ProvenanceView>>) -> Seq<ProvenanceView>
    decreases ps.len(),
{
    if ps.len() == 0 {
        seq![]
    } else {
        flat_views(ps.drop_last()) + ps.last()
    }
}

/// The last record for a field, among provenance views.
pub open spec fn last_view(q: Seq<ProvenanceView>, name: Seq<char>) -> Option<ProvenanceView>
    decreases q.len(),
{
    if q.len() == 0 {
        None
    } else if q.last().field_name == name {
        Some(q.last())
    } else {
        last_view(q.drop_last(), name)
    }
}

pub open spec fn view_score(v: Option<ProvenanceView>) -> nat {
    match v {
        Some(p) => p.score as nat,
        None => 720000,
    }
}

proof fn lemma_last_view_of_views(v: Seq<FieldProvenance>, name: Seq<char>)
    ensures
        defended_score(last_provenance(v, name)) == view_score(last_view(prov_views(v), name)),
    decreases v.len(),
{
    if v.len() > 0 {
        lemma_last_view_of_views(v.drop_last(), name);
        assert(prov_views(v).drop_last() =~= prov_views(v.drop_last()));
        assert(prov_views(v).last() == v.last()@);
    }
}

proof fn lemma_last_view_skip(a: Seq<ProvenanceView>, b: Seq<ProvenanceView>, name: Seq<char>)
    requires
        forall|j: int| 0 <= j < b.len() ==> (#[trigger] b[j]).field_name != name,
    ensures
        last_view(a + b, name) == last_view(a, name),
    decreases b.len(),
{
    if b.len() == 0 {
        assert(a + b =~= a);
    } else {
        let c = b.drop_last();
        assert forall|j: int| 0 <= j < c.len() implies (#[trigger] c[j]).field_name != name by {
            assert(c[j] == b[j]);
        }
        lemma_last_view_skip(a, c, name);
        assert((a + b).drop_last() =~= a + c);
        assert((a + b).last() == b[b.len() - 1]);
    }
}

proof fn lemma_last_view_absent(q: Seq<ProvenanceView>, name: Seq<char>)
    requires
        forall|j: int| 0 <= j < q.len() ==> (#[trigger] q[j]).field_name != name,
    ensures
        last_view(q, name) is None,
    decreases q.len(),
{
    if q.len() > 0 {
        let p = q.drop_last();
        assert forall|j: int| 0 <= j < p.len() implies (#[trigger] p[j]).field_name != name by {
            assert(p[j] == q[j]);
        }
        lemma_last_view_absent(p, name);
        assert(q[q.len() - 1].field_name != name);
    }
}

proof fn lemma_flat_views_names(ps: Seq<Seq<ProvenanceView>>, names: Seq<Seq<char>>)
    requires
        ps.len() <= names.len(),
        forall|k: int| 0 <= k < ps.len() ==> named_entries(#[trigger] ps[k], names[k]),
    ensures
        forall|j: int|
            0 <= j < flat_views(ps).len() ==> exists|k: int|
                0 <= k < ps.len() && (#[trigger] flat_views(ps)[j]).field_name == names[k],
    decreases ps.len(),
{
    if ps.len() > 0 {
        let pre = ps.drop_last();
        assert forall|k: int| 0 <= k < pre.len() implies named_entries(#[trigger] pre[k], names[k]) by {
            assert(pre[k] == ps[k]);
        }
        lemma_flat_views_names(pre, names);
        let a = flat_views(pre);
        let n = ps.len() - 1;
        assert(named_entries(ps[n], names[n]));
        assert forall|j: int| 0 <= j < flat_views(ps).len() implies exists|k: int|
            0 <= k < ps.len() && (#[trigger] flat_views(ps)[j]).field_name == names[k] by {
            if j < a.len() {
                assert(flat_views(ps)[j] == a[j]);
                let k = choose|k: int| 0 <= k < pre.len() && (#[trigger] a[j]).field_name == names[k];
                assert(pre[k] == ps[k]);
            } else {
                assert(flat_views(ps)[j] == ps[n][j - a.len()]);
            }
        }
    }
}

/// In records of distinct fields, each with at most one record of its own
/// field, the record found for a field is that field's own.
proof fn lemma_flat_views_lookup(ps: Seq<Seq<ProvenanceView>>, names: Seq<Seq<char>>, i: int)
    requires
        ps.len() == names.len(),
        forall|k: int| 0 <= k < ps.len() ==> named_entries(#[trigger] ps[k], names[k]),
        forall|a: int, b: int| 0 <= a < b < names.len() ==> #[trigger] names[a] != #[trigger] names[b],
        0 <= i < ps.len(),
    ensures
        view_score(last_view(flat_views(ps), names[i])) == kept_score(ps[i]),
    decreases ps.len(),
{
    let n = ps.len() - 1;
    let pre = ps.drop_last();
    let pn = names.drop_last();
    assert forall|k: int| 0 <= k < pre.len() implies named_entries(#[trigger] pre[k], pn[k]) by {
        assert(pre[k] == ps[k]);
        assert(pn[k] == names[k]);
    }
    assert forall|a: int, b: int| 0 <= a < b < pn.len() implies #[trigger] pn[a] != #[trigger] pn[b] by {
        assert(pn[a] == names[a] && pn[b] == names[b]);
    }
    assert(named_entries(ps[n], names[n]));
    if i < n {
        assert forall|j: int| 0 <= j < ps[n].len() implies (#[trigger] ps[n][j]).field_name
            != names[i] by {
            assert(names[i] != names[n]);
        }
        lemma_last_view_skip(flat_views(pre), ps[n], names[i]);
        lemma_flat_views_lookup(pre, pn, i);
        assert(pre[i] == ps[i]);
    } else {
        let a = flat_views(pre);
        if ps[n].len() == 0 {
            assert(a + ps[n] =~= a);
            lemma_flat_views_names(pre, pn);
            assert forall|j: int| 0 <= j < a.len() implies (#[trigger] a[j]).field_name != names[n] by {
                let k = choose|k: int| 0 <= k < pre.len() && (#[trigger] a[j]).field_name == pn[k];
                assert(pn[k] == names[k]);
                assert(names[k] != names[n]);
            }
            lemma_last_view_absent(a, names[n]);
        } else {
            assert((a + ps[n]).last() == ps[n][0]);
        }
    }
}

/// The merged fields, in the order their provenance is recorded.
pub open spec fn merged_field_names() -> Seq<Seq<char>> {
    seq![
        "title_display"@,
        "title_romaji"@,
        "title_english"@,
        "title_native"@,
        "synopsis"@,
        "format"@,
        "status"@,
        "season"@,
        "country_of_origin"@,
        "season_year"@,
        "episodes"@,
        "chapters"@,
        "volumes"@,
        "cover_image"@,
        "banner_image"@,
        "nsfw"@,
    ]
}

/// Each merged field's provenance records, in the same order.
pub open spec fn merged_parts(m: MergedSpec) -> Seq<Seq<ProvenanceView>> {
    seq![
        m.title_display.1,
        m.title_romaji.1,
        m.title_english.1,
        m.title_native.1,
        m.synopsis.1,
        m.format.1,
        m.status.1,
        m.season.1,
        m.country_of_origin.1,
        m.season_year.1,
        m.episodes.1,
        m.chapters.1,
        m.volumes.1,
        m.cover_image.1,
        m.banner_image.1,
        m.nsfw.1,
    ]
}

proof fn lemma_merged_field_names_distinct()
    ensures
        merged_field_names().len() == 16,
        forall|a: int, b: int|
            0 <= a < b < 16 ==> #[trigger] merged_field_names()[a] != #[trigger] merged_field_names()[b],
{
    reveal_strlit("title_display");
    reveal_strlit("title_romaji");
    reveal_strlit("title_english");
    reveal_strlit("title_native");
    reveal_strlit("synopsis");
    reveal_strlit("format");
    reveal_strlit("status");
    reveal_strlit("season");
    reveal_strlit("country_of_origin");
    reveal_strlit("season_year");
    reveal_strlit("episodes");
    reveal_strlit("chapters");
    reveal_strlit("volumes");
    reveal_strlit("cover_image");
    reveal_strlit("banner_image");
    reveal_strlit("nsfw");
    let n = merged_field_names();
    assert(n[0].len() == 13 && n[0][0] == 't' && n[0][12] == 'y' && n[0][6] == 'd');
    assert(n[1].len() == 12 && n[1][0] == 't' && n[1][11] == 'i' && n[1][6] == 'r');
    assert(n[2].len() == 13 && n[2][0] == 't' && n[2][12] == 'h' && n[2][6] == 'e');
    assert(n[3].len() == 12 && n[3][0] == 't' && n[3][11] == 'e' && n[3][6] == 'n');
    assert(n[4].len() == 8 && n[4][0] == 's' && n[4][7] == 's' && n[4][6] == 'i');
    assert(n[5].len() == 6 && n[5][0] == 'f' && n[5][5] == 't' && n[5][5] == 't');
    assert(n[6].len() == 6 && n[6][0] == 's' && n[6][5] == 's' && n[6][5] == 's');
    assert(n[7].len() == 6 && n[7][0] == 's' && n[7][5] == 'n' && n[7][5] == 'n');
    assert(n[8].len() == 17 && n[8][0] == 'c' && n[8][16] == 'n' && n[8][6] == 'y');
    assert(n[9].len() == 11 && n[9][0] == 's' && n[9][10] == 'r' && n[9][6] == '_');
    assert(n[10].len() == 8 && n[10][0] == 'e' && n[10][7] == 's' && n[10][6] == 'e');
    assert(n[11].len() == 8 && n[11][0] == 'c' && n[11][7] == 's' && n[11][6] == 'r');
    assert(n[12].len() == 7 && n[12][0] == 'v' && n[12][6] == 's' && n[12][6] == 's');
    assert(n[13].len() == 11 && n[13][0] == 'c' && n[13][10] == 'e' && n[13][6] == 'i');
    assert(n[14].len() == 12 && n[14][0] == 'b' && n[14][11] == 'e' && n[14][6] == '_');
    assert(n[15].len() == 4 && n[15][0] == 'n' && n[15][3] == 'w' && n[15][3] == 'w');
    assert forall|a: int, b: int| 0 <= a < b < 16 implies #[trigger] n[a] != #[trigger] n[b] by {
        assert(a == 0 || a == 1 || a == 2 || a == 3 || a == 4 || a == 5 || a == 6 || a == 7 || a == 8 || a == 9 || a == 10 || a == 11 || a == 12 || a == 13 || a == 14 || a == 15);
        assert(b == 0 || b == 1 || b == 2 || b == 3 || b == 4 || b == 5 || b == 6 || b == 7 || b == 8 || b == 9 || b == 10 || b == 11 || b == 12 || b == 13 || b == 14 || b == 15);
        if n[a] == n[b] {
            assert(n[a].len() == n[b].len());
            assert(n[a][0] == n[b][0]);
            assert(n[a][n[a].len() - 1] == n[b][n[b].len() - 1]);
            let j: int = if n[a].len() > 6 { 6 } else { n[a].len() - 1 };
            assert(n[a][j] == n[b][j]);
        }
    }
}

proof fn lemma_merged_provenance_flat(m: MergedSpec)
    ensures
        merged_provenance(m) == flat_views(merged_parts(m)),
{
    reveal_with_fuel(flat_views, 17);
    let ps = merged_parts(m);
    assert(flat_views(ps.take(0)) =~= Seq::<ProvenanceView>::empty());
    assert(ps.take(16) =~= ps);
}

/// A stored record holding exactly the values of a merged record.
pub open spec fn stored_as(s: StoredMedia, r: CanonicalMedia) -> bool {
    &&& s.media_kind == r.media_kind
    &&& s.title_display == r.title_display
    &&& s.title_romaji == r.title_romaji
    &&& s.title_english == r.title_english
    &&& s.title_native == r.title_native
    &&& s.synopsis == r.synopsis
    &&& s.format == r.format
    &&& s.status == r.status
    &&& s.season == r.season
    &&& s.country_of_origin == r.country_of_origin
    &&& s.season_year == r.season_year
    &&& s.episodes == r.episodes
    &&& s.chapters == r.chapters
    &&& s.volumes == r.volumes
    &&& s.cover_image == r.cover_image
    &&& s.banner_image == r.banner_image
    &&& s.provider_rating == r.provider_rating
    &&& s.nsfw == r.nsfw
    &&& s.aliases@ == r.aliases@
    &&& s.genres@ == r.genres@
    &&& s.tags@ == r.tags@
    &&& s.external_ids@ == r.external_ids@
    &&& s.source_payloads@ == r.source_payloads@
    &&& s.field_provenance@ == r.field_provenance@
}

/// Two records hold the same values: kind, every scalar field, the rating,
/// the lists and the external ids.
pub open spec fn same_values(a: CanonicalMedia, b: CanonicalMedia) -> bool {
    &&& a.media_kind == b.media_kind
    &&& a.title_display == b.title_display
    &&& a.title_romaji == b.title_romaji
    &&& a.title_english == b.title_english
    &&& a.title_native == b.title_native
    &&& a.synopsis == b.synopsis
    &&& a.format == b.format
    &&& a.status == b.status
    &&& a.season == b.season
    &&& a.country_of_origin == b.country_of_origin
    &&& a.season_year == b.season_year
    &&& a.episodes == b.episodes
    &&& a.chapters == b.chapters
    &&& a.volumes == b.volumes
    &&& a.cover_image == b.cover_image
    &&& a.banner_image == b.banner_image
    &&& a.provider_rating == b.provider_rating
    &&& a.nsfw == b.nsfw
    &&& views(a.aliases@) == views(b.aliases@)
    &&& views(a.genres@) == views(b.genres@)
    &&& views(a.tags@) == views(b.tags@)
    &&& a.external_ids@ == b.external_ids@
}

/// The provenance recorded by a merge defends each field with the score of
/// that field's own record.
proof fn lemma_merged_field_score(e: StoredMedia, incoming: CanonicalMedia, r: CanonicalMedia, i: int)
    requires
        merged_from(e, incoming, r),
        0 <= i < 16,
    ensures
        defended_score(last_provenance(r.field_provenance@, merged_field_names()[i])) == kept_score(
            merged_parts(spec_merged(Some(e), incoming))[i],
        ),
{
    let ex = Some(e);
    let o = spec_origin(incoming);
    let m = spec_merged(ex, incoming);
    let names = merged_field_names();
    let ps = merged_parts(m);
    lemma_merged_field_names_distinct();
    lemma_last_provenance_name(e.field_provenance@, "title_display"@);
    lemma_last_provenance_name(e.field_provenance@, "title_romaji"@);
    lemma_last_provenance_name(e.field_provenance@, "title_english"@);
    lemma_last_provenance_name(e.field_provenance@, "title_native"@);
    lemma_last_provenance_name(e.field_provenance@, "synopsis"@);
    lemma_last_provenance_name(e.field_provenance@, "format"@);
    lemma_last_provenance_name(e.field_provenance@, "status"@);
    lemma_last_provenance_name(e.field_provenance@, "season"@);
    lemma_last_provenance_name(e.field_provenance@, "country_of_origin"@);
    lemma_last_provenance_name(e.field_provenance@, "season_year"@);
    lemma_last_provenance_name(e.field_provenance@, "episodes"@);
    lemma_last_provenance_name(e.field_provenance@, "chapters"@);
    lemma_last_provenance_name(e.field_provenance@, "volumes"@);
    lemma_last_provenance_name(e.field_provenance@, "cover_image"@);
    lemma_last_provenance_name(e.field_provenance@, "banner_image"@);
    lemma_last_provenance_name(e.field_provenance@, "nsfw"@);
    lemma_text_named("title_display"@, Some(e.title_display), existing_provenance(ex, "title_display"@), Some(incoming.title_display), incoming, o);
    lemma_text_named("title_romaji"@, e.title_romaji, existing_provenance(ex, "title_romaji"@), incoming.title_romaji, incoming, o);
    lemma_text_named("title_english"@, e.title_english, existing_provenance(ex, "title_english"@), incoming.title_english, incoming, o);
    lemma_text_named("title_native"@, e.title_native, existing_provenance(ex, "title_native"@), incoming.title_native, incoming, o);
    lemma_text_named("synopsis"@, e.synopsis, existing_provenance(ex, "synopsis"@), incoming.synopsis, incoming, o);
    lemma_text_named("format"@, e.format, existing_provenance(ex, "format"@), incoming.format, incoming, o);
    lemma_text_named("status"@, e.status, existing_provenance(ex, "status"@), incoming.status, incoming, o);
    lemma_text_named("season"@, e.season, existing_provenance(ex, "season"@), incoming.season, incoming, o);
    lemma_text_named("country_of_origin"@, e.country_of_origin, existing_provenance(ex, "country_of_origin"@), incoming.country_of_origin, incoming, o);
    lemma_i32_named("season_year"@, e.season_year, existing_provenance(ex, "season_year"@), incoming.season_year, incoming, o);
    lemma_i32_named("episodes"@, e.episodes, existing_provenance(ex, "episodes"@), incoming.episodes, incoming, o);
    lemma_i32_named("chapters"@, e.chapters, existing_provenance(ex, "chapters"@), incoming.chapters, incoming, o);
    lemma_i32_named("volumes"@, e.volumes, existing_provenance(ex, "volumes"@), incoming.volumes, incoming, o);
    lemma_cover_named("cover_image"@, e.cover_image, existing_provenance(ex, "cover_image"@), incoming.cover_image, incoming, o);
    lemma_cover_named("banner_image"@, e.banner_image, existing_provenance(ex, "banner_image"@), incoming.banner_image, incoming, o);
    lemma_bool_named("nsfw"@, Some(e.nsfw), existing_provenance(ex, "nsfw"@), incoming.nsfw, incoming, o);
    assert forall|k: int| 0 <= k < ps.len() implies named_entries(#[trigger] ps[k], names[k]) by {
        assert(k == 0 || k == 1 || k == 2 || k == 3 || k == 4 || k == 5 || k == 6 || k == 7 || k == 8 || k == 9 || k == 10 || k == 11 || k == 12 || k == 13 || k == 14 || k == 15);
    }
    lemma_merged_provenance_flat(m);
    lemma_last_view_of_views(r.field_provenance@, names[i]);
    lemma_flat_views_lookup(ps, names, i);
}

proof fn lemma_remerge_stored(
    e: StoredMedia,
    incoming: CanonicalMedia,
    r: CanonicalMedia,
    s: StoredMedia,
    r2: CanonicalMedia,
)
    requires
        merged_from(e, incoming, r),
        stored_as(s, r),
        merged_from(s, incoming, r2),
    ensures
        same_values(r2, r),
{
    let ex = Some(e);
    let o = spec_origin(incoming);
    let m = spec_merged(ex, incoming);
    let names = merged_field_names();
    lemma_merged_field_score(e, incoming, r, 0);
    assert(names[0] == "title_display"@ && merged_parts(m)[0] == m.title_display.1);
    lemma_text_present("title_display"@, e.title_display, existing_provenance(ex, "title_display"@), incoming.title_display, incoming, o);
    lemma_text_rechoose("title_display"@, Some(e.title_display), existing_provenance(ex, "title_display"@), Some(incoming.title_display), incoming, o, last_provenance(s.field_provenance@, "title_display"@));
    lemma_merged_field_score(e, incoming, r, 1);
    assert(names[1] == "title_romaji"@ && merged_parts(m)[1] == m.title_romaji.1);
    lemma_text_rechoose("title_romaji"@, e.title_romaji, existing_provenance(ex, "title_romaji"@), incoming.title_romaji, incoming, o, last_provenance(s.field_provenance@, "title_romaji"@));
    lemma_merged_field_score(e, incoming, r, 2);
    assert(names[2] == "title_english"@ && merged_parts(m)[2] == m.title_english.1);
    lemma_text_rechoose("title_english"@, e.title_english, existing_provenance(ex, "title_english"@), incoming.title_english, incoming, o, last_provenance(s.field_provenance@, "title_english"@));
    lemma_merged_field_score(e, incoming, r, 3);
    assert(names[3] == "title_native"@ && merged_parts(m)[3] == m.title_native.1);
    lemma_text_rechoose("title_native"@, e.title_native, existing_provenance(ex, "title_native"@), incoming.title_native, incoming, o, last_provenance(s.field_provenance@, "title_native"@));
    lemma_merged_field_score(e, incoming, r, 4);
    assert(names[4] == "synopsis"@ && merged_parts(m)[4] == m.synopsis.1);
    lemma_text_rechoose("synopsis"@, e.synopsis, existing_provenance(ex, "synopsis"@), incoming.synopsis, incoming, o, last_provenance(s.field_provenance@, "synopsis"@));
    lemma_merged_field_score(e, incoming, r, 5);
    assert(names[5] == "format"@ && merged_parts(m)[5] == m.format.1);
    lemma_text_rechoose("format"@, e.format, existing_provenance(ex, "format"@), incoming.format, incoming, o, last_provenance(s.field_provenance@, "format"@));
    lemma_merged_field_score(e, incoming, r, 6);
    assert(names[6] == "status"@ && merged_parts(m)[6] == m.status.1);
    lemma_text_rechoose("status"@, e.status, existing_provenance(ex, "status"@), incoming.status, incoming, o, last_provenance(s.field_provenance@, "status"@));
    lemma_merged_field_score(e, incoming, r, 7);
    assert(names[7] == "season"@ && merged_parts(m)[7] == m.season.1);
    lemma_text_rechoose("season"@, e.season, existing_provenance(ex, "season"@), incoming.season, incoming, o, last_provenance(s.field_provenance@, "season"@));
    lemma_merged_field_score(e, incoming, r, 8);
    assert(names[8] == "country_of_origin"@ && merged_parts(m)[8] == m.country_of_origin.1);
    lemma_text_rechoose("country_of_origin"@, e.country_of_origin, existing_provenance(ex, "country_of_origin"@), incoming.country_of_origin, incoming, o, last_provenance(s.field_provenance@, "country_of_origin"@));
    lemma_merged_field_score(e, incoming, r, 9);
    assert(names[9] == "season_year"@ && merged_parts(m)[9] == m.season_year.1);
    lemma_i32_rechoose("season_year"@, e.season_year, existing_provenance(ex, "season_year"@), incoming.season_year, incoming, o, last_provenance(s.field_provenance@, "season_year"@));
    lemma_merged_field_score(e, incoming, r, 10);
    assert(names[10] == "episodes"@ && merged_parts(m)[10] == m.episodes.1);
    lemma_i32_rechoose("episodes"@, e.episodes, existing_provenance(ex, "episodes"@), incoming.episodes, incoming, o, last_provenance(s.field_provenance@, "episodes"@));
    lemma_merged_field_score(e, incoming, r, 11);
    assert(names[11] == "chapters"@ && merged_parts(m)[11] == m.chapters.1);
    lemma_i32_rechoose("chapters"@, e.chapters, existing_provenance(ex, "chapters"@), incoming.chapters, incoming, o, last_provenance(s.field_provenance@, "chapters"@));
    lemma_merged_field_score(e, incoming, r, 12);
    assert(names[12] == "volumes"@ && merged_parts(m)[12] == m.volumes.1);
    lemma_i32_rechoose("volumes"@, e.volumes, existing_provenance(ex, "volumes"@), incoming.volumes, incoming, o, last_provenance(s.field_provenance@, "volumes"@));
    lemma_merged_field_score(e, incoming, r, 13);
    assert(names[13] == "cover_image"@ && merged_parts(m)[13] == m.cover_image.1);
    lemma_cover_rechoose("cover_image"@, e.cover_image, existing_provenance(ex, "cover_image"@), incoming.cover_image, incoming, o, last_provenance(s.field_provenance@, "cover_image"@));
    lemma_merged_field_score(e, incoming, r, 14);
    assert(names[14] == "banner_image"@ && merged_parts(m)[14] == m.banner_image.1);
    lemma_cover_rechoose("banner_image"@, e.banner_image, existing_provenance(ex, "banner_image"@), incoming.banner_image, incoming, o, last_provenance(s.field_provenance@, "banner_image"@));
    lemma_merged_field_score(e, incoming, r, 15);
    assert(names[15] == "nsfw"@ && merged_parts(m)[15] == m.nsfw.1);
    lemma_bool_rechoose("nsfw"@, e.nsfw, existing_provenance(ex, "nsfw"@), incoming.nsfw, incoming, o, last_provenance(s.field_provenance@, "nsfw"@));
    lemma_list_remerge(views(e.aliases@), views(incoming.aliases@));
    lemma_list_remerge(views(e.genres@), views(incoming.genres@));
    lemma_list_remerge(views(e.tags@), views(incoming.tags@));
    lemma_ids_remerge(e.external_ids@, incoming.external_ids@);
}

/// Re-merging the same incoming record into the stored result of a merge
/// changes no value: the kind, every scalar field, the rating, the lists
/// and the external ids come out as they went in. With no stored record
/// the first merge returns the incoming record as it is, so this holds
/// there when its lists and ids hold no repeats.
pub proof fn lemma_remerge_keeps_values(
    existing: Option<StoredMedia>,
    incoming: CanonicalMedia,
    r: CanonicalMedia,
    s: StoredMedia,
    r2: CanonicalMedia,
)
    requires
        existing matches Some(e) ==> merged_from(e, incoming, r),
        existing is None ==> same_media(r, incoming) && unique_ci(views(incoming.aliases@))
            && unique_ci(views(incoming.genres@)) && unique_ci(views(incoming.tags@)) && unique_ids(
            incoming.external_ids@,
        ),
        stored_as(s, r),
        merged_from(s, incoming, r2),
    ensures
        same_values(r2, r),
{
    match existing {
        Some(e) => {
            lemma_remerge_stored(e, incoming, r, s, r2);
        },
        None => {
            let o = spec_origin(incoming);
            let ex = Some(s);
            lemma_text_same("title_display"@, Some(s.title_display), existing_provenance(ex, "title_display"@), incoming, o);
            lemma_text_present("title_display"@, s.title_display, existing_provenance(ex, "title_display"@), incoming.title_display, incoming, o);
            lemma_text_same("title_romaji"@, s.title_romaji, existing_provenance(ex, "title_romaji"@), incoming, o);
            lemma_text_same("title_english"@, s.title_english, existing_provenance(ex, "title_english"@), incoming, o);
            lemma_text_same("title_native"@, s.title_native, existing_provenance(ex, "title_native"@), incoming, o);
            lemma_text_same("synopsis"@, s.synopsis, existing_provenance(ex, "synopsis"@), incoming, o);
            lemma_text_same("format"@, s.format, existing_provenance(ex, "format"@), incoming, o);
            lemma_text_same("status"@, s.status, existing_provenance(ex, "status"@), incoming, o);
            lemma_text_same("season"@, s.season, existing_provenance(ex, "season"@), incoming, o);
            lemma_text_same("country_of_origin"@, s.country_of_origin, existing_provenance(ex, "country_of_origin"@), incoming, o);
            lemma_i32_same("season_year"@, s.season_year, existing_provenance(ex, "season_year"@), incoming, o);
            lemma_i32_same("episodes"@, s.episodes, existing_provenance(ex, "episodes"@), incoming, o);
            lemma_i32_same("chapters"@, s.chapters, existing_provenance(ex, "chapters"@), incoming, o);
            lemma_i32_same("volumes"@, s.volumes, existing_provenance(ex, "volumes"@), incoming, o);
            lemma_cover_same("cover_image"@, s.cover_image, existing_provenance(ex, "cover_image"@), incoming, o);
            lemma_cover_same("banner_image"@, s.banner_image, existing_provenance(ex, "banner_image"@), incoming, o);
            lemma_bool_same("nsfw"@, s.nsfw, existing_provenance(ex, "nsfw"@), incoming, o);
            lemma_list_self_merge(views(incoming.aliases@));
            lemma_list_self_merge(views(incoming.genres@));
            lemma_list_self_merge(views(incoming.tags@));
            lemma_ids_self_merge(incoming.external_ids@);
        },
    }
}

} // verus!
