//! The dictionary resolver: a three-tier lookup used identically for
//! species and moves. First an exact key match; then a case-insensitive,
//! anchored-at-start wildcard match built from the query (`%` matching any
//! sequence, `_` any single character), won by the first key in the
//! dictionary's enumeration order; then, for hyphenated queries, the same
//! two tiers on the part before the first hyphen, reported under the
//! original query.

use vstd::prelude::*;

use crate::dict::{Dict, first_idx};
use crate::text::{Class, scan_end, scan};

verus! {

/// Whether `regex::Regex::new` accepts the pattern; a function of the
/// pattern text alone.
pub uninterp spec fn regex_compiles(pat: Seq<char>) -> bool;

/// Whether the compiled pattern matches the text, as `regex::Regex::is_match`
/// decides it; a function of the two texts alone.
pub uninterp spec fn regex_matched(pat: Seq<char>, text: Seq<char>) -> bool;

/// Relies on `regex::Regex::new` (whether the pattern compiles, named by
/// `regex_compiles`) and `regex::Regex::is_match` (whether the pattern
/// matches the text, named by `regex_matched`). Both results depend on the
/// two strings alone.
#[verifier::external_body]
fn regex_try_match(pat: &str, text: &str) -> (r: Option<bool>)
    ensures
        r is Some <==> regex_compiles(pat@),
        r matches Some(b) ==> b == regex_matched(pat@, text@),
{
    match regex::Regex::new(pat) {
        Ok(re) => Some(re.is_match(text)),
        Err(_) => None,
    }
}

/// The query with `%` expanded to `.*` and `_` to `.`.
pub open spec fn wild_expand(q: Seq<char>) -> Seq<char>
    decreases q.len(),
{
    if q.len() == 0 {
        q
    } else {
        wild_expand(q.drop_last()) + (if q.last() == '%' {
            ".*"@
        } else if q.last() == '_' {
            "."@
        } else {
            seq![q.last()]
        })
    }
}

/// The wildcard pattern derived from a query: case-insensitive, anchored at
/// the start, `%` matching any sequence and `_` any single character.
pub open spec fn wild_pattern(q: Seq<char>) -> Seq<char> {
    "(?i)^"@ + wild_expand(q)
}

/// Builds the wildcard pattern for a query.
pub fn build_wild_pattern(q: &str) -> (r: String)
    ensures
        r@ == wild_pattern(q@),
{
    let n = q.unicode_len();
    let mut r = String::from_str("(?i)^");
    let mut i: usize = 0;
    while i < n
        invariant
            n == q@.len(),
            i <= n,
            r@ == "(?i)^"@ + wild_expand(q@.subrange(0, i as int)),
        decreases n - i,
    {
        let c = q.get_char(i);
        if c == '%' {
            r.append(".*");
        } else if c == '_' {
            r.append(".");
        } else {
            r.push(c);
        }
        i += 1;
        proof {
            assert(q@.subrange(0, i as int).drop_last() =~= q@.subrange(0, i - 1));
            assert(q@.subrange(0, i as int).last() == q@[i - 1]);
        }
    }
    proof {
        assert(q@.subrange(0, n as int) =~= q@);
    }
    r
}

/// The first index at or after `i` whose key the query's wildcard pattern
/// matches.
pub open spec fn first_wild(keys: Seq<Seq<char>>, q: Seq<char>, i: int) -> Option<int>
    recommends
        0 <= i <= keys.len(),
    decreases keys.len() - i,
{
    if i >= keys.len() {
        None
    } else if regex_matched(wild_pattern(q), keys[i]) {
        Some(i)
    } else {
        first_wild(keys, q, i + 1)
    }
}

pub proof fn lemma_first_wild(keys: Seq<Seq<char>>, q: Seq<char>, i: int)
    requires
        0 <= i <= keys.len(),
    ensures
        match first_wild(keys, q, i) {
            Some(j) => i <= j < keys.len() && regex_matched(wild_pattern(q), keys[j]),
            None => forall|m: int|
                i <= m < keys.len() ==> !regex_matched(wild_pattern(q), keys[m]),
        },
    decreases keys.len() - i,
{
    if i < keys.len() && !regex_matched(wild_pattern(q), keys[i]) {
        lemma_first_wild(keys, q, i + 1);
    }
}

/// The part of the query before its first hyphen (the whole query when it
/// has none).
pub open spec fn first_seg(q: Seq<char>) -> Seq<char> {
    q.subrange(0, scan_end(Class::NonHyphen, q, 0))
}

/// The resolver cascade: exact match, then wildcard match, then — for a
/// hyphenated query — the same two tiers on the part before the first
/// hyphen, reported under the original query. The tie among several
/// wildcard matches goes to the first key in enumeration order.
pub open spec fn resolve_spec(keys: Seq<Seq<char>>, q: Seq<char>) -> Option<(Seq<char>, int)> {
    match first_idx(keys, q, 0) {
        Some(i) => Some((q, i)),
        None => match first_wild(keys, q, 0) {
            Some(i) => Some((keys[i], i)),
            None => {
                let fs = first_seg(q);
                if fs != q {
                    match first_idx(keys, fs, 0) {
                        Some(i) => Some((q, i)),
                        None => match first_wild(keys, fs, 0) {
                            Some(i) => Some((q, i)),
                            None => None,
                        },
                    }
                } else {
                    None
                }
            },
        },
    }
}

/// The patterns the cascade can build for this query all compile.
pub open spec fn patterns_ok(q: Seq<char>) -> bool {
    regex_compiles(wild_pattern(q)) && (first_seg(q) != q ==> regex_compiles(
        wild_pattern(first_seg(q)),
    ))
}

/// Finds the first key in enumeration order that the query's wildcard
/// pattern matches.
fn wild_scan<T>(dict: &Dict<T>, q: &str) -> (r: Option<usize>)
    requires
        regex_compiles(wild_pattern(q@)),
    ensures
        match r {
            Some(i) => Some(i as int) == first_wild(dict.keys(), q@, 0) && i < dict.spec_len(),
            None => first_wild(dict.keys(), q@, 0) is None,
        },
{
    let pat = build_wild_pattern(q);
    let n = dict.len();
    let mut i: usize = 0;
    while i < n
        invariant
            n == dict.spec_len(),
            i <= n,
            pat@ == wild_pattern(q@),
            regex_compiles(wild_pattern(q@)),
            first_wild(dict.keys(), q@, 0) == first_wild(dict.keys(), q@, i as int),
        decreases n - i,
    {
        let key = dict.key_at(i);
        let hit = match regex_try_match(pat.as_str(), key.as_str()) {
            Some(b) => b,
            // the pattern compiles, so the matcher always answers
            None => vstd::pervasive::unreached(),
        };
        if hit {
            return Some(i);
        }
        i += 1;
    }
    None
}

/// Resolves a query against a dictionary: the reported key and the index of
/// the matched record. `requires` asks only that the wildcard patterns the
/// cascade actually reaches compile; `try_search_like` probes that first.
pub fn search_like<T>(dict: &Dict<T>, pattern: &str) -> (r: Option<(String, usize)>)
    requires
        first_idx(dict.keys(), pattern@, 0) is None ==> regex_compiles(wild_pattern(pattern@)),
        (first_idx(dict.keys(), pattern@, 0) is None && first_wild(dict.keys(), pattern@, 0)
            is None && first_seg(pattern@) != pattern@ && first_idx(
            dict.keys(),
            first_seg(pattern@),
            0,
        ) is None) ==> regex_compiles(wild_pattern(first_seg(pattern@))),
    ensures
        match r {
            Some((k, i)) => resolve_spec(dict.keys(), pattern@) == Some((k@, i as int)) && i
                < dict.spec_len(),
            None => resolve_spec(dict.keys(), pattern@) is None,
        },
{
    if let Some(i) = dict.find(pattern) {
        return Some((pattern.to_owned(), i));
    }
    if let Some(i) = wild_scan(dict, pattern) {
        let key = dict.key_at(i);
        return Some((key.clone(), i));
    }
    let n = pattern.unicode_len();
    let cut = scan(Class::NonHyphen, pattern, 0);
    if cut == n {
        proof {
            assert(first_seg(pattern@) =~= pattern@);
        }
        return None;
    }
    let fs = pattern.substring_char(0, cut);
    proof {
        assert(fs@ == first_seg(pattern@));
        assert(fs@.len() < pattern@.len());
        assert(first_seg(pattern@) != pattern@);
    }
    if let Some(i) = dict.find(fs) {
        return Some((pattern.to_owned(), i));
    }
    if let Some(i) = wild_scan(dict, fs) {
        return Some((pattern.to_owned(), i));
    }
    None
}

/// Resolves a query, probing first that the wildcard patterns the cascade
/// could need compile; a query whose derived pattern the pattern engine
/// rejects resolves to `None`, as no dictionary key can be matched under it.
pub fn try_search_like<T>(dict: &Dict<T>, pattern: &str) -> (r: Option<(String, usize)>)
    ensures
        patterns_ok(pattern@) ==> (match r {
            Some((k, i)) => resolve_spec(dict.keys(), pattern@) == Some((k@, i as int)) && i
                < dict.spec_len(),
            None => resolve_spec(dict.keys(), pattern@) is None,
        }),
        !patterns_ok(pattern@) ==> r is None,
{
    let pat = build_wild_pattern(pattern);
    if regex_try_match(pat.as_str(), "").is_none() {
        return None;
    }
    let n = pattern.unicode_len();
    let cut = scan(Class::NonHyphen, pattern, 0);
    if cut < n {
        let fs = pattern.substring_char(0, cut);
        proof {
            assert(fs@ == first_seg(pattern@));
            assert(fs@.len() < pattern@.len());
        }
        let fpat = build_wild_pattern(fs);
        if regex_try_match(fpat.as_str(), "").is_none() {
            return None;
        }
    } else {
        proof {
            assert(first_seg(pattern@) =~= pattern@);
        }
    }
    search_like(dict, pattern)
}

/// The resolver is a function of the dictionary and the query alone:
/// repeated calls with the same dictionary and query return the same
/// result.
pub proof fn lemma_resolver_deterministic(
    keys: Seq<Seq<char>>,
    q: Seq<char>,
    r1: Option<(Seq<char>, int)>,
    r2: Option<(Seq<char>, int)>,
)
    requires
        r1 == resolve_spec(keys, q),
        r2 == resolve_spec(keys, q),
    ensures
        r1 == r2,
{
}

/// Hyphen-prefix fallback only engages when both direct tiers fail: an
/// exact match answers with the query itself, and failing that a wildcard
/// match answers with the matched key, before any shortened query is tried.
pub proof fn lemma_fallback_only_after_tiers(keys: Seq<Seq<char>>, q: Seq<char>)
    ensures
        first_idx(keys, q, 0) is Some ==> resolve_spec(keys, q) == Some(
            (q, first_idx(keys, q, 0)->Some_0),
        ),
        (first_idx(keys, q, 0) is None && first_wild(keys, q, 0) is Some) ==> resolve_spec(keys, q)
            == Some((keys[first_wild(keys, q, 0)->Some_0], first_wild(keys, q, 0)->Some_0)),
{
}

/// Hyphen-prefix fallback only engages for hyphenated queries: a query
/// without a hyphen that neither tier matches resolves to nothing, with no
/// recursion on any shortened query.
pub proof fn lemma_no_hyphen_no_fallback(keys: Seq<Seq<char>>, q: Seq<char>)
    requires
        forall|i: int| 0 <= i < q.len() ==> q[i] != '-',
        first_idx(keys, q, 0) is None,
        first_wild(keys, q, 0) is None,
    ensures
        resolve_spec(keys, q) is None,
{
    lemma_scan_end_nonhyphen(q, 0);
    assert(first_seg(q) =~= q);
}

proof fn lemma_scan_end_nonhyphen(q: Seq<char>, p: int)
    requires
        0 <= p <= q.len(),
        forall|i: int| p <= i < q.len() ==> q[i] != '-',
    ensures
        scan_end(Class::NonHyphen, q, p) == q.len(),
    decreases q.len() - p,
{
    if p < q.len() {
        lemma_scan_end_nonhyphen(q, p + 1);
    }
}

} // verus!
