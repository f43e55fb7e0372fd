//! Normalization shared by the catalog: alias cleanup, lookup keys and the
//! full-text query syntax.

use vstd::prelude::*;
use crate::error::Error;
use crate::text::{
    char_is_whitespace, char_to_ascii_lower, copy_chars, chars_eq_ignore_ascii_case, chars_of,
    ascii_lower, eq_ci, is_ws, push_char, string_from_chars, trim, trim_chars, usize_to_decimal,
    decimal, views, is_ascii_upper, lemma_trim_idempotent,
};
use crate::merge::unique_ci;
use vstd::string::StringExecFns;
use vstd::string::StringSliceAdditionalSpecFns;

pub use crate::model::{parse_media_kind, parse_source};

verus! {

/// What `char::is_alphanumeric` answers for a character beyond ASCII
/// (Unicode Alphabetic or Numeric, by std's Unicode tables).
pub uninterp spec fn spec_unicode_alphanumeric(c: char) -> bool;

/// An ASCII letter or digit.
pub open spec fn is_ascii_alnum(c: char) -> bool {
    ||| ('a' <= c && c <= 'z')
    ||| ('A' <= c && c <= 'Z')
    ||| ('0' <= c && c <= '9')
}

/// What `char::is_alphanumeric` answers: within ASCII exactly the letters
/// and digits, beyond it the Unicode tables.
pub open spec fn spec_is_alphanumeric(c: char) -> bool {
    if c <= '\u{7f}' {
        is_ascii_alnum(c)
    } else {
        spec_unicode_alphanumeric(c)
    }
}

/// `char::is_alphanumeric`: Unicode Alphabetic or Numeric. Within ASCII
/// these are exactly the letters and digits, as std documents; beyond
/// ASCII the Unicode tables decide, and that answer is left to the name.
#[verifier::external_body]
fn char_is_alphanumeric(c: char) -> (r: bool)
    ensures
        c <= '\u{7f}' ==> (r <==> is_ascii_alnum(c)),
        c > '\u{7f}' ==> r == spec_unicode_alphanumeric(c),
{
    c.is_alphanumeric()
}

/// Some element of `acc` equals `t` ignoring ASCII case.
pub open spec fn contains_ci(acc: Seq<Seq<char>>, t: Seq<char>) -> bool {
    exists|j: int| 0 <= j < acc.len() && eq_ci(#[trigger] acc[j], t)
}

/// Trimmed aliases, blank ones dropped, keeping the first of any group
/// that is equal ignoring ASCII case.
pub open spec fn spec_normalize_aliases(a: Seq<Seq<char>>) -> Seq<Seq<char>>
    decreases a.len(),
{
    if a.len() == 0 {
        seq![]
    } else {
        let acc = spec_normalize_aliases(a.drop_last());
        let t = trim(a.last());
        if t.len() == 0 || contains_ci(acc, t) {
            acc
        } else {
            acc.push(t)
        }
    }
}

proof fn lemma_aliases_stable(r: Seq<Seq<char>>)
    requires
        forall|i: int| 0 <= i < r.len() ==> (#[trigger] r[i]).len() > 0 && trim(r[i]) == r[i],
        unique_ci(r),
    ensures
        spec_normalize_aliases(r) == r,
    decreases r.len(),
{
    if r.len() > 0 {
        let p = r.drop_last();
        assert forall|i: int| 0 <= i < p.len() implies (#[trigger] p[i]).len() > 0 && trim(p[i])
            == p[i] by {
            assert(p[i] == r[i]);
        }
        assert forall|i: int, j: int| 0 <= i < j < p.len() implies !eq_ci(
            #[trigger] p[i],
            #[trigger] p[j],
        ) by {
            assert(p[i] == r[i] && p[j] == r[j]);
        }
        lemma_aliases_stable(p);
        let t = r.last();
        assert(trim(t) == t && t.len() > 0);
        if contains_ci(p, t) {
            let j = choose|j: int| 0 <= j < p.len() && eq_ci(#[trigger] p[j], t);
            assert(p[j] == r[j]);
            assert(!eq_ci(r[j], r[r.len() - 1]));
        }
        assert(p.push(t) =~= r);
    }
}

proof fn lemma_aliases_props(a: Seq<Seq<char>>)
    ensures
        ({
            let r = spec_normalize_aliases(a);
            &&& forall|i: int| 0 <= i < r.len() ==> (#[trigger] r[i]).len() > 0 && trim(r[i]) == r[i]
            &&& unique_ci(r)
            &&& forall|k: int|
                0 <= k < a.len() && trim(#[trigger] a[k]).len() > 0 ==> contains_ci(r, trim(a[k]))
            &&& forall|i: int|
                0 <= i < r.len() ==> exists|k: int| 0 <= k < a.len() && #[trigger] r[i] == trim(a[k])
        }),
    decreases a.len(),
{
    if a.len() > 0 {
        let p = a.drop_last();
        lemma_aliases_props(p);
        let acc = spec_normalize_aliases(p);
        let t = trim(a.last());
        let r = spec_normalize_aliases(a);
        lemma_trim_idempotent(a.last());
        assert forall|k: int|
            0 <= k < a.len() && trim(#[trigger] a[k]).len() > 0 implies contains_ci(r, trim(a[k])) by {
            if k < p.len() {
                assert(a[k] == p[k]);
                let j = choose|j: int| 0 <= j < acc.len() && eq_ci(#[trigger] acc[j], trim(p[k]));
                assert(r[j] == acc[j]);
            } else {
                if !contains_ci(acc, t) {
                    assert(r[acc.len() as int] == t);
                    assert(eq_ci(r[acc.len() as int], t));
                }
            }
        }
        assert forall|i: int| 0 <= i < r.len() implies exists|k: int|
            0 <= k < a.len() && #[trigger] r[i] == trim(a[k]) by {
            if i < acc.len() {
                assert(r[i] == acc[i]);
                let k = choose|k: int| 0 <= k < p.len() && #[trigger] acc[i] == trim(p[k]);
                assert(p[k] == a[k]);
            } else {
                assert(r[i] == trim(a[a.len() - 1]));
            }
        }
        if !(t.len() == 0 || contains_ci(acc, t)) {
            assert forall|i: int, j: int| 0 <= i < j < r.len() implies !eq_ci(
                #[trigger] r[i],
                #[trigger] r[j],
            ) by {
                assert(r[i] == acc[i]);
                if j < acc.len() {
                    assert(r[j] == acc[j]);
                } else {
                    assert(r[j] == t);
                }
            }
            assert forall|i: int| 0 <= i < r.len() implies (#[trigger] r[i]).len() > 0 && trim(r[i])
                == r[i] by {
                if i < acc.len() {
                    assert(r[i] == acc[i]);
                }
            }
        }
    }
}

/// Normalized aliases are trimmed, non-empty and distinct ignoring ASCII
/// case; each comes from an input alias, every input alias that is not
/// blank is represented, and normalizing them again changes nothing.
pub proof fn lemma_normalize_aliases_laws(a: Seq<Seq<char>>)
    ensures
        ({
            let r = spec_normalize_aliases(a);
            &&& forall|i: int| 0 <= i < r.len() ==> (#[trigger] r[i]).len() > 0 && trim(r[i]) == r[i]
            &&& unique_ci(r)
            &&& forall|k: int|
                0 <= k < a.len() && trim(#[trigger] a[k]).len() > 0 ==> contains_ci(r, trim(a[k]))
            &&& forall|i: int|
                0 <= i < r.len() ==> exists|k: int| 0 <= k < a.len() && #[trigger] r[i] == trim(a[k])
            &&& spec_normalize_aliases(r) == r
        }),
{
    lemma_aliases_props(a);
    lemma_aliases_stable(spec_normalize_aliases(a));
}

pub(crate) fn contains_ignore_ascii_case(list: &Vec<String>, item: &[char]) -> (r: bool)
    ensures
        r == contains_ci(views(list@), item@),
{
    let mut j: usize = 0;
    while j < list.len()
        invariant
            j <= list@.len(),
            forall|k: int| 0 <= k < j ==> !eq_ci(#[trigger] views(list@)[k], item@),
        decreases list.len() - j,
    {
        let c = chars_of(list[j].as_str());
        if chars_eq_ignore_ascii_case(c.as_slice(), item) {
            assert(views(list@)[j as int] == c@);
            return true;
        }
        j = j + 1;
    }
    false
}

/// Trims every alias, drops blank ones and keeps only the first of aliases
/// that are equal ignoring ASCII case.
pub fn normalize_aliases(aliases: &[String]) -> (r: Vec<String>)
    ensures
        views(r@) == spec_normalize_aliases(views(aliases@)),
{
    let mut result: Vec<String> = Vec::new();
    let mut i: usize = 0;
    while i < aliases.len()
        invariant
            i <= aliases@.len(),
            views(result@) == spec_normalize_aliases(views(aliases@.subrange(0, i as int))),
        decreases aliases.len() - i,
    {
        let v = chars_of(aliases[i].as_str());
        let t = trim_chars(v.as_slice());
        let ghost pre = aliases@.subrange(0, i as int);
        let ghost next = aliases@.subrange(0, i + 1);
        proof {
            assert(views(next).drop_last() =~= views(pre));
            assert(views(next).last() == aliases@[i as int]@);
        }
        if t.len() > 0 && !contains_ignore_ascii_case(&result, t.as_slice()) {
            let s = string_from_chars(t.as_slice());
            result.push(s);
            assert(views(result@) =~= spec_normalize_aliases(views(next)));
        }
        i = i + 1;
    }
    assert(aliases@.subrange(0, aliases@.len() as int) =~= aliases@);
    result
}

// ---------------------------------------------------------------------------
// Words
// ---------------------------------------------------------------------------

/// The maximal runs of non-whitespace characters of `s`, in order, and
/// whether `s` ends inside such a run.
pub open spec fn words_state(s: Seq<char>) -> (Seq<Seq<char>>, bool)
    decreases s.len(),
{
    if s.len() == 0 {
        (seq![], false)
    } else {
        let (ws, inw) = words_state(s.drop_last());
        let c = s.last();
        if is_ws(c) {
            (ws, false)
        } else if inw && ws.len() > 0 {
            (ws.update(ws.len() - 1, ws.last().push(c)), true)
        } else {
            (ws.push(seq![c]), true)
        }
    }
}

/// `str::split_whitespace`: the maximal runs of non-whitespace characters.
pub open spec fn words(s: Seq<char>) -> Seq<Seq<char>> {
    words_state(s).0
}

/// The words joined with a separator character (`[&str]::join`).
pub open spec fn join_with(ws: Seq<Seq<char>>, sep: char) -> Seq<char>
    decreases ws.len(),
{
    if ws.len() == 0 {
        seq![]
    } else if ws.len() == 1 {
        ws[0]
    } else {
        join_with(ws.drop_last(), sep).push(sep) + ws.last()
    }
}

pub open spec fn vviews(v: Seq<Vec<char>>) -> Seq<Seq<char>> {
    v.map_values(|w: Vec<char>| w@)
}

/// Splits a character sequence into its whitespace-separated words.
pub fn split_words(v: &[char]) -> (r: Vec<Vec<char>>)
    ensures
        vviews(r@) == words(v@),
{
    let mut done: Vec<Vec<char>> = Vec::new();
    let mut cur: Vec<char> = Vec::new();
    let mut i: usize = 0;
    while i < v.len()
        invariant
            i <= v@.len(),
            words_state(v@.subrange(0, i as int)).1 == (cur@.len() > 0),
            cur@.len() > 0 ==> words(v@.subrange(0, i as int)) == vviews(done@).push(cur@),
            cur@.len() == 0 ==> words(v@.subrange(0, i as int)) == vviews(done@),
        decreases v.len() - i,
    {
        let c = v[i];
        let ghost pre = v@.subrange(0, i as int);
        let ghost next = v@.subrange(0, i + 1);
        proof {
            assert(next.drop_last() =~= pre);
            assert(next.last() == c);
        }
        if char_is_whitespace(c) {
            if cur.len() > 0 {
                let w = cur;
                done.push(w);
                cur = Vec::new();
                assert(vviews(done@) =~= words(pre));
            }
        } else {
            let ghost old_cur = cur@;
            cur.push(c);
            proof {
                let (wp, inw) = words_state(pre);
                if old_cur.len() > 0 {
                    assert(wp == vviews(done@).push(old_cur));
                    assert(wp.len() > 0);
                    assert(words_state(next).0 == wp.update(wp.len() - 1, wp.last().push(c)));
                    assert(words(next) =~= vviews(done@).push(cur@));
                } else {
                    assert(wp == vviews(done@));
                    assert(!inw);
                    assert(words_state(next).0 == wp.push(seq![c]));
                    assert(cur@ =~= seq![c]);
                    assert(words(next) =~= vviews(done@).push(cur@));
                }
            }
        }
        i = i + 1;
    }
    assert(v@.subrange(0, v@.len() as int) =~= v@);
    if cur.len() > 0 {
        done.push(cur);
        assert(vviews(done@) =~= words(v@));
    }
    done
}

/// Joins words with a separator character.
pub fn join_words(ws: &Vec<Vec<char>>, sep: char) -> (r: Vec<char>)
    ensures
        r@ == join_with(vviews(ws@), sep),
{
    let mut out: Vec<char> = Vec::new();
    let mut i: usize = 0;
    while i < ws.len()
        invariant
            i <= ws@.len(),
            out@ == join_with(vviews(ws@.subrange(0, i as int)), sep),
        decreases ws.len() - i,
    {
        let ghost pre = vviews(ws@.subrange(0, i as int));
        let ghost next = vviews(ws@.subrange(0, i + 1));
        proof {
            assert(next.drop_last() =~= pre);
        }
        if i > 0 {
            out.push(sep);
        }
        let w = &ws[i];
        let mut k: usize = 0;
        let ghost base = out@;
        while k < w.len()
            invariant
                k <= w@.len(),
                out@ == base + w@.subrange(0, k as int),
            decreases w.len() - k,
        {
            out.push(w[k]);
            k = k + 1;
            assert(out@ =~= base + w@.subrange(0, k as int));
        }
        assert(w@.subrange(0, w@.len() as int) =~= w@);
        proof {
            if i == 0 {
                assert(out@ =~= join_with(next, sep));
            } else {
                assert(out@ =~= join_with(next, sep));
            }
        }
        i = i + 1;
    }
    assert(ws@.subrange(0, ws@.len() as int) =~= ws@);
    out
}

// ---------------------------------------------------------------------------
// Lookup normalization and full-text queries
// ---------------------------------------------------------------------------

/// Each alphanumeric or whitespace character lowercased (ASCII), every
/// other character replaced by a space.
pub open spec fn lookup_char(c: char) -> char {
    if spec_is_alphanumeric(c) || is_ws(c) {
        ascii_lower(c)
    } else {
        ' '
    }
}

pub open spec fn lookup_chars(s: Seq<char>) -> Seq<char> {
    s.map_values(|c: char| lookup_char(c))
}

/// The lookup key of a text: its lookup characters split into words and
/// re-joined with single spaces.
pub open spec fn spec_normalize_for_lookup(s: Seq<char>) -> Seq<char> {
    join_with(words(lookup_chars(s)), ' ')
}

fn lookup_chars_of(value: &str) -> (r: Vec<char>)
    ensures
        r@ == lookup_chars(value@),
{
    let v = chars_of(value);
    let mut out: Vec<char> = Vec::new();
    let mut i: usize = 0;
    while i < v.len()
        invariant
            v@ == value@,
            i <= v@.len(),
            out@ == lookup_chars(v@.subrange(0, i as int)),
        decreases v.len() - i,
    {
        let c = v[i];
        let m = if char_is_alphanumeric(c) || char_is_whitespace(c) {
            char_to_ascii_lower(c)
        } else {
            ' '
        };
        out.push(m);
        i = i + 1;
        assert(out@ =~= lookup_chars(v@.subrange(0, i as int)));
    }
    assert(v@.subrange(0, v@.len() as int) =~= v@);
    out
}

/// Lowercases (ASCII) alphanumeric and whitespace characters, turns every
/// other character into a space, and collapses whitespace runs into single
/// spaces with none at either end.
pub fn normalize_for_lookup(value: &str) -> (r: String)
    ensures
        r@ == spec_normalize_for_lookup(value@),
{
    let mapped = lookup_chars_of(value);
    let ws = split_words(mapped.as_slice());
    let joined = join_words(&ws, ' ');
    string_from_chars(joined.as_slice())
}

/// A search term: words longer than one character become prefix queries.
pub open spec fn fts_term(w: Seq<char>) -> Seq<char> {
    if w.len() > 1 {
        w.push('*')
    } else {
        w
    }
}

pub open spec fn fts_terms(ws: Seq<Seq<char>>) -> Seq<Seq<char>> {
    ws.map_values(|w: Seq<char>| fts_term(w))
}

/// Builds the full-text query for a free-text search: one term per word of
/// the query's lookup key, each word longer than one character turned into
/// a prefix query (`word*`), joined with spaces. A query without words is
/// rejected.
pub fn build_fts_query(query: &str) -> (r: Result<String, Error>)
    ensures
        words(lookup_chars(query@)).len() == 0 ==> (r matches Err(Error::Validation(m))
            && m@ == "search query cannot be empty"@),
        words(lookup_chars(query@)).len() > 0 ==> (r matches Ok(q) && q@ == join_with(
            fts_terms(words(lookup_chars(query@))),
            ' ',
        )),
{
    let mapped = lookup_chars_of(query);
    let ws = split_words(mapped.as_slice());
    if ws.len() == 0 {
        return Err(Error::Validation(String::from_str("search query cannot be empty")));
    }
    let mut terms: Vec<Vec<char>> = Vec::new();
    let mut i: usize = 0;
    while i < ws.len()
        invariant
            i <= ws@.len(),
            vviews(terms@) == fts_terms(vviews(ws@.subrange(0, i as int))),
        decreases ws.len() - i,
    {
        let ghost w = ws@[i as int]@;
        let mut t = copy_chars(ws[i].as_slice());
        if t.len() > 1 {
            t.push('*');
        }
        assert(t@ == fts_term(w));
        let ghost before = vviews(terms@);
        terms.push(t);
        assert(vviews(terms@) =~= before.push(fts_term(w)));
        assert(vviews(ws@.subrange(0, i + 1)) =~= vviews(ws@.subrange(0, i as int)).push(w));
        i = i + 1;
        assert(vviews(terms@) =~= fts_terms(vviews(ws@.subrange(0, i as int))));
    }
    assert(ws@.subrange(0, ws@.len() as int) =~= ws@);
    let joined = join_words(&terms, ' ');
    Ok(string_from_chars(joined.as_slice()))
}

/// The change-detection hash of a stored payload: its length in bytes,
/// in decimal.
pub fn stable_payload_hash(payload: &str) -> (r: Result<String, Error>)
    ensures
        r matches Ok(h) && h@ == decimal(payload.len() as nat),
{
    Ok(usize_to_decimal(payload.len()))
}

// ---------------------------------------------------------------------------
// Shape of lookup keys
// ---------------------------------------------------------------------------

/// Every word is non-empty and holds no whitespace; when no character of
/// the text is an ASCII capital, no character of a word is either.
proof fn lemma_words_shape(s: Seq<char>)
    ensures
        words_state(s).1 ==> words_state(s).0.len() > 0,
        forall|k: int|
            0 <= k < words(s).len() ==> (#[trigger] words(s)[k]).len() > 0 && forall|j: int|
                0 <= j < words(s)[k].len() ==> !is_ws(#[trigger] words(s)[k][j]),
        (forall|i: int| 0 <= i < s.len() ==> !is_ascii_upper(#[trigger] s[i])) ==> forall|k: int, j: int|
            0 <= k < words(s).len() && 0 <= j < words(s)[k].len() ==> !is_ascii_upper(
                #[trigger] words(s)[k][j],
            ),
    decreases s.len(),
{
    if s.len() > 0 {
        let pre = s.drop_last();
        lemma_words_shape(pre);
        let ws = words(pre);
        let inw = words_state(pre).1;
        let c = s.last();
        let no_upper = forall|i: int| 0 <= i < s.len() ==> !is_ascii_upper(#[trigger] s[i]);
        if no_upper {
            assert forall|i: int| 0 <= i < pre.len() implies !is_ascii_upper(#[trigger] pre[i]) by {
                assert(pre[i] == s[i]);
            }
            assert(!is_ascii_upper(s[s.len() - 1]));
        }
        if is_ws(c) {
        } else if inw && ws.len() > 0 {
            let nw = ws.update(ws.len() - 1, ws.last().push(c));
            assert(words(s) == nw);
            assert forall|k: int| 0 <= k < nw.len() implies (#[trigger] nw[k]).len() > 0 && forall|j: int|
                0 <= j < nw[k].len() ==> !is_ws(#[trigger] nw[k][j]) by {
                if k == ws.len() - 1 {
                    assert forall|j: int| 0 <= j < nw[k].len() implies !is_ws(#[trigger] nw[k][j]) by {
                        if j < ws.last().len() {
                            assert(nw[k][j] == ws[k][j]);
                        } else {
                            assert(nw[k][j] == c);
                        }
                    }
                } else {
                    assert(nw[k] == ws[k]);
                }
            }
            if no_upper {
                assert forall|k: int, j: int|
                    0 <= k < nw.len() && 0 <= j < nw[k].len() implies !is_ascii_upper(
                    #[trigger] nw[k][j],
                ) by {
                    if k == ws.len() - 1 {
                        if j < ws.last().len() {
                            assert(nw[k][j] == ws[k][j]);
                        } else {
                            assert(nw[k][j] == c);
                        }
                    } else {
                        assert(nw[k] == ws[k]);
                    }
                }
            }
        } else {
            let nw = ws.push(seq![c]);
            assert(words(s) == nw);
            assert forall|k: int| 0 <= k < nw.len() implies (#[trigger] nw[k]).len() > 0 && forall|j: int|
                0 <= j < nw[k].len() ==> !is_ws(#[trigger] nw[k][j]) by {
                if k < ws.len() {
                    assert(nw[k] == ws[k]);
                } else {
                    assert(nw[k] == seq![c]);
                }
            }
            if no_upper {
                assert forall|k: int, j: int|
                    0 <= k < nw.len() && 0 <= j < nw[k].len() implies !is_ascii_upper(
                    #[trigger] nw[k][j],
                ) by {
                    if k < ws.len() {
                        assert(nw[k] == ws[k]);
                    } else {
                        assert(nw[k][j] == c);
                    }
                }
            }
        }
    }
}

/// The shape of a text built by joining words with single spaces.
pub open spec fn lookup_shaped(r: Seq<char>) -> bool {
    &&& forall|i: int| 0 <= i < r.len() ==> !is_ascii_upper(#[trigger] r[i])
    &&& forall|i: int| 0 <= i < r.len() && is_ws(#[trigger] r[i]) ==> r[i] == ' '
    &&& r.len() > 0 ==> r[0] != ' ' && r[r.len() - 1] != ' '
    &&& forall|i: int| 0 <= i < r.len() - 1 ==> !(#[trigger] r[i] == ' ' && r[i + 1] == ' ')
}

proof fn lemma_join_shape(ws: Seq<Seq<char>>)
    requires
        forall|k: int|
            0 <= k < ws.len() ==> (#[trigger] ws[k]).len() > 0 && forall|j: int|
                0 <= j < ws[k].len() ==> !is_ws(#[trigger] ws[k][j]) && !is_ascii_upper(ws[k][j]),
    ensures
        lookup_shaped(join_with(ws, ' ')),
        ws.len() > 0 ==> join_with(ws, ' ').len() > 0,
    decreases ws.len(),
{
    if ws.len() == 1 {
        assert(join_with(ws, ' ') == ws[0]);
        let w = ws[0];
        assert forall|i: int| 0 <= i < w.len() implies !is_ascii_upper(#[trigger] w[i]) && !is_ws(w[i]) by {}
        assert(!is_ws(w[0]) && !is_ws(w[w.len() - 1]));
    } else if ws.len() > 1 {
        let pre = ws.drop_last();
        assert forall|k: int| 0 <= k < pre.len() implies (#[trigger] pre[k]).len() > 0 && forall|j: int|
            0 <= j < pre[k].len() ==> !is_ws(#[trigger] pre[k][j]) && !is_ascii_upper(pre[k][j]) by {
            assert(pre[k] == ws[k]);
        }
        lemma_join_shape(pre);
        let a = join_with(pre, ' ');
        let w = ws.last();
        let r = a.push(' ') + w;
        assert(join_with(ws, ' ') == r);
        assert(w == ws[ws.len() - 1]);
        assert forall|j: int| 0 <= j < w.len() implies !is_ws(#[trigger] w[j]) && !is_ascii_upper(w[j]) by {
            assert(w[j] == ws[ws.len() - 1][j]);
        }
        assert(!is_ws(w[0]) && !is_ws(w[w.len() - 1]));
        assert forall|i: int| 0 <= i < r.len() implies !is_ascii_upper(#[trigger] r[i]) by {
            if i < a.len() {
                assert(r[i] == a[i]);
            } else if i > a.len() {
                assert(r[i] == w[i - a.len() - 1]);
            }
        }
        assert forall|i: int| 0 <= i < r.len() && is_ws(#[trigger] r[i]) implies r[i] == ' ' by {
            if i < a.len() {
                assert(r[i] == a[i]);
            } else if i > a.len() {
                assert(r[i] == w[i - a.len() - 1]);
            }
        }
        assert(r[0] == a[0]);
        assert(r[r.len() - 1] == w[w.len() - 1]);
        assert forall|i: int| 0 <= i < r.len() - 1 implies !(#[trigger] r[i] == ' ' && r[i + 1] == ' ') by {
            if i + 1 < a.len() {
                assert(r[i] == a[i] && r[i + 1] == a[i + 1]);
            } else if i + 1 == a.len() {
                assert(r[i] == a[a.len() - 1]);
            } else if i == a.len() {
                assert(r[i + 1] == w[0]);
            } else {
                assert(r[i] == w[i - a.len() - 1]);
            }
        }
    }
}

/// A lookup key has no ASCII capitals and no whitespace but single spaces
/// between words, none at either end.
pub proof fn lemma_normalize_for_lookup_shape(s: Seq<char>)
    ensures
        lookup_shaped(spec_normalize_for_lookup(s)),
{
    let l = lookup_chars(s);
    assert forall|i: int| 0 <= i < l.len() implies !is_ascii_upper(#[trigger] l[i]) by {
        assert(l[i] == lookup_char(s[i]));
    }
    lemma_words_shape(l);
    let ws = words(l);
    assert forall|k: int| 0 <= k < ws.len() implies (#[trigger] ws[k]).len() > 0 && forall|j: int|
        0 <= j < ws[k].len() ==> !is_ws(#[trigger] ws[k][j]) && !is_ascii_upper(ws[k][j]) by {
        assert forall|j: int| 0 <= j < ws[k].len() implies !is_ws(#[trigger] ws[k][j])
            && !is_ascii_upper(ws[k][j]) by {
            assert(!is_ascii_upper(words(l)[k][j]));
        }
    }
    lemma_join_shape(ws);
}

proof fn lemma_lookup_char_fixed(c: char)
    ensures
        lookup_char(lookup_char(c)) == lookup_char(c),
{
    if is_ascii_upper(c) {
        assert(spec_is_alphanumeric(ascii_lower(c)));
    }
}

/// When every character of a text is left as it is by `lookup_char`, so is
/// every character of its words.
proof fn lemma_words_fixed(s: Seq<char>)
    requires
        forall|i: int| 0 <= i < s.len() ==> lookup_char(#[trigger] s[i]) == s[i],
    ensures
        forall|k: int, j: int|
            0 <= k < words(s).len() && 0 <= j < words(s)[k].len() ==> lookup_char(
                #[trigger] words(s)[k][j],
            ) == words(s)[k][j],
    decreases s.len(),
{
    if s.len() > 0 {
        let pre = s.drop_last();
        assert forall|i: int| 0 <= i < pre.len() implies lookup_char(#[trigger] pre[i]) == pre[i] by {
            assert(pre[i] == s[i]);
        }
        lemma_words_fixed(pre);
        let ws = words(pre);
        let inw = words_state(pre).1;
        let c = s.last();
        assert(lookup_char(s[s.len() - 1]) == s[s.len() - 1]);
        if is_ws(c) {
        } else if inw && ws.len() > 0 {
            let nw = ws.update(ws.len() - 1, ws.last().push(c));
            assert(words(s) == nw);
            assert forall|k: int, j: int|
                0 <= k < nw.len() && 0 <= j < nw[k].len() implies lookup_char(#[trigger] nw[k][j])
                == nw[k][j] by {
                if k == ws.len() - 1 {
                    if j < ws.last().len() {
                        assert(nw[k][j] == ws[k][j]);
                    } else {
                        assert(nw[k][j] == c);
                    }
                } else {
                    assert(nw[k] == ws[k]);
                }
            }
        } else {
            let nw = ws.push(seq![c]);
            assert(words(s) == nw);
            assert forall|k: int, j: int|
                0 <= k < nw.len() && 0 <= j < nw[k].len() implies lookup_char(#[trigger] nw[k][j])
                == nw[k][j] by {
                if k < ws.len() {
                    assert(nw[k] == ws[k]);
                } else {
                    assert(nw[k] == seq![c]);
                }
            }
        }
    }
}

/// Joining words whose characters `lookup_char` leaves alone, with spaces,
/// gives a text that `lookup_chars` leaves alone.
proof fn lemma_join_fixed(ws: Seq<Seq<char>>)
    requires
        forall|k: int, j: int|
            0 <= k < ws.len() && 0 <= j < ws[k].len() ==> lookup_char(#[trigger] ws[k][j])
                == ws[k][j],
    ensures
        lookup_chars(join_with(ws, ' ')) == join_with(ws, ' '),
    decreases ws.len(),
{
    let r = join_with(ws, ' ');
    if ws.len() == 1 {
        assert forall|j: int| 0 <= j < r.len() implies lookup_char(#[trigger] r[j]) == r[j] by {
            assert(r[j] == ws[0][j]);
        }
    } else if ws.len() > 1 {
        let pre = ws.drop_last();
        assert forall|k: int, j: int|
            0 <= k < pre.len() && 0 <= j < pre[k].len() implies lookup_char(#[trigger] pre[k][j])
            == pre[k][j] by {
            assert(pre[k] == ws[k]);
        }
        lemma_join_fixed(pre);
        let a = join_with(pre, ' ');
        let w = ws.last();
        assert(r == a.push(' ') + w);
        assert forall|j: int| 0 <= j < r.len() implies lookup_char(#[trigger] r[j]) == r[j] by {
            if j < a.len() {
                assert(r[j] == a[j]);
                assert(lookup_chars(a)[j] == lookup_char(a[j]));
            } else if j > a.len() {
                assert(r[j] == w[j - a.len() - 1]);
                assert(w == ws[ws.len() - 1]);
            } else {
                assert(r[j] == ' ');
            }
        }
    }
    assert(lookup_chars(r) =~= r);
}

/// Appending a word (non-empty, no whitespace) after whitespace or at the
/// start adds exactly that word.
proof fn lemma_words_append_word(p: Seq<char>, w: Seq<char>)
    requires
        w.len() > 0,
        forall|j: int| 0 <= j < w.len() ==> !is_ws(#[trigger] w[j]),
        !words_state(p).1,
    ensures
        words_state(p + w) == (words(p).push(w), true),
    decreases w.len(),
{
    if w.len() == 1 {
        assert((p + w).drop_last() =~= p);
        assert(seq![w[0]] =~= w);
    } else {
        let v = w.drop_last();
        assert forall|j: int| 0 <= j < v.len() implies !is_ws(#[trigger] v[j]) by {
            assert(v[j] == w[j]);
        }
        lemma_words_append_word(p, v);
        assert((p + w).drop_last() =~= p + v);
        assert(!is_ws(w[w.len() - 1]));
        assert((p + w).last() == w.last());
        assert(v.push(w.last()) =~= w);
        assert(words(p).push(v).update(words(p).len() as int, w) =~= words(p).push(w));
    }
}

/// Splitting words joined with single spaces gives the words back.
proof fn lemma_words_of_join(ws: Seq<Seq<char>>)
    requires
        forall|k: int|
            0 <= k < ws.len() ==> (#[trigger] ws[k]).len() > 0 && forall|j: int|
                0 <= j < ws[k].len() ==> !is_ws(#[trigger] ws[k][j]),
    ensures
        words(join_with(ws, ' ')) == ws,
    decreases ws.len(),
{
    if ws.len() == 0 {
        assert(words(seq![]) =~= ws);
    } else if ws.len() == 1 {
        let w = ws[0];
        assert(seq![] + w =~= w);
        lemma_words_append_word(seq![], w);
        assert(seq![].push(w) =~= ws);
    } else {
        let pre = ws.drop_last();
        assert forall|k: int| 0 <= k < pre.len() implies (#[trigger] pre[k]).len() > 0 && forall|j: int|
            0 <= j < pre[k].len() ==> !is_ws(#[trigger] pre[k][j]) by {
            assert(pre[k] == ws[k]);
        }
        lemma_words_of_join(pre);
        let p = join_with(pre, ' ').push(' ');
        assert(p.drop_last() =~= join_with(pre, ' '));
        assert(words_state(p) == (pre, false));
        let w = ws.last();
        assert(w == ws[ws.len() - 1]);
        lemma_words_append_word(p, w);
        assert(pre.push(w) =~= ws);
    }
}

/// A lookup key is its own lookup key.
pub proof fn lemma_normalize_for_lookup_idempotent(s: Seq<char>)
    ensures
        spec_normalize_for_lookup(spec_normalize_for_lookup(s)) == spec_normalize_for_lookup(s),
{
    let l = lookup_chars(s);
    assert forall|i: int| 0 <= i < l.len() implies lookup_char(#[trigger] l[i]) == l[i] by {
        lemma_lookup_char_fixed(s[i]);
    }
    lemma_words_fixed(l);
    lemma_words_shape(l);
    let ws = words(l);
    lemma_join_fixed(ws);
    lemma_words_of_join(ws);
}

/// Every character of a lookup key is alphanumeric or a space.
pub proof fn lemma_normalize_for_lookup_chars(s: Seq<char>)
    ensures
        forall|i: int|
            0 <= i < spec_normalize_for_lookup(s).len() ==> spec_is_alphanumeric(
                #[trigger] spec_normalize_for_lookup(s)[i],
            ) || spec_normalize_for_lookup(s)[i] == ' ',
{
    let l = lookup_chars(s);
    assert forall|i: int| 0 <= i < l.len() implies lookup_char(#[trigger] l[i]) == l[i] by {
        lemma_lookup_char_fixed(s[i]);
    }
    lemma_words_fixed(l);
    lemma_words_shape(l);
    let ws = words(l);
    lemma_join_fixed(ws);
    lemma_normalize_for_lookup_shape(s);
    let r = spec_normalize_for_lookup(s);
    assert forall|i: int| 0 <= i < r.len() implies spec_is_alphanumeric(#[trigger] r[i]) || r[i]
        == ' ' by {
        assert(lookup_chars(r)[i] == lookup_char(r[i]));
    }
}

/// The full-text query has one term per word of the query's lookup key, in
/// order: a word of two or more characters becomes a prefix term (the word
/// followed by `*`), a one-character word stays as it is.
pub proof fn lemma_fts_query_terms(query: Seq<char>)
    ensures
        ({
            let ws = words(lookup_chars(query));
            let ts = fts_terms(ws);
            &&& ts.len() == ws.len()
            &&& forall|i: int|
                0 <= i < ws.len() && ws[i].len() >= 2 ==> #[trigger] ts[i] == ws[i].push('*')
            &&& forall|i: int| 0 <= i < ws.len() && ws[i].len() < 2 ==> #[trigger] ts[i] == ws[i]
        }),
{
}

} // verus!
