//! Keyword search: turning symbol hits into code hits, merging them with chunk hits, and the
//! limits a search runs under.
use vstd::prelude::*;

use crate::indexer::{occurs, occurs_in};
use crate::text::{chars_of, str_eq};
use crate::types::{SearchResult, SymbolSearchResult};

verus! {

/// Where a hit points: its file and first line. Two hits with one location are one hit.
pub open spec fn location<S>(r: SearchResult<S>) -> (Seq<char>, usize) {
    (r.file_path@, r.line_start)
}

/// Some hit before position `i` of `s` has the location of `s[i]`.
pub open spec fn seen_before<S>(s: Seq<SearchResult<S>>, i: int) -> bool {
    exists|j: int| 0 <= j < i && #[trigger] location(s[j]) == location(s[i])
}

/// The hits of `s` whose location no earlier hit has, in order: each location once, at its
/// first hit.
pub open spec fn first_per_location<S>(s: Seq<SearchResult<S>>) -> Seq<SearchResult<S>>
    decreases s.len(),
{
    if s.len() == 0 {
        Seq::empty()
    } else {
        let r = first_per_location(s.drop_last());
        if seen_before(s, s.len() - 1) {
            r
        } else {
            r.push(s.last())
        }
    }
}

/// `r` is the code hit that the symbol hit `s` stands for: the symbol's signature (empty
/// where it has none) is the snippet, and its name and kind are kept.
pub open spec fn is_symbol_hit<S>(r: SearchResult<S>, s: SymbolSearchResult<S>) -> bool {
    &&& r.file_path == s.file_path
    &&& r.line_start == s.line_start
    &&& r.line_end == s.line_end
    &&& r.snippet@ == (match s.signature {
        Some(sig) => sig@,
        None => Seq::<char>::empty(),
    })
    &&& r.symbol_name == Some(s.name)
    &&& r.symbol_kind == Some(s.kind)
    &&& r.score == s.score
    &&& r.language == s.language
}

/// The code hit that a symbol hit stands for.
pub fn symbol_hit<S>(s: SymbolSearchResult<S>) -> (r: SearchResult<S>)
    ensures
        is_symbol_hit(r, s),
{
    let snippet = match s.signature {
        Some(sig) => sig,
        None => String::new(),
    };
    SearchResult {
        file_path: s.file_path,
        line_start: s.line_start,
        line_end: s.line_end,
        snippet,
        symbol_name: Some(s.name),
        symbol_kind: Some(s.kind),
        score: s.score,
        language: s.language,
    }
}

/// Whether some hit of `res` has the location of `r`.
fn contains_location<S>(res: &Vec<SearchResult<S>>, r: &SearchResult<S>) -> (b: bool)
    ensures
        b == has_location(res@, location(*r)),
{
    let mut k: usize = 0;
    while k < res.len()
        invariant
            k <= res@.len(),
            forall|j: int| 0 <= j < k ==> #[trigger] location(res@[j]) != location(*r),
        decreases res@.len() - k,
    {
        if res[k].line_start == r.line_start && str_eq(
            res[k].file_path.as_str(),
            r.file_path.as_str(),
        ) {
            assert(location(res@[k as int]) == location(*r));
            return true;
        }
        k = k + 1;
    }
    false
}

/// Some hit of `s` has location `l`.
pub open spec fn has_location<S>(s: Seq<SearchResult<S>>, l: (Seq<char>, usize)) -> bool {
    exists|j: int| 0 <= j < s.len() && #[trigger] location(s[j]) == l
}

proof fn lemma_has_location_push<S>(s: Seq<SearchResult<S>>, x: SearchResult<S>, l: (Seq<char>, usize))
    ensures
        has_location(s.push(x), l) == (has_location(s, l) || location(x) == l),
{
    if has_location(s, l) {
        let j = choose|j: int| 0 <= j < s.len() && #[trigger] location(s[j]) == l;
        assert(location(s.push(x)[j]) == l);
    }
    if location(x) == l {
        assert(location(s.push(x)[s.len() as int]) == l);
    }
    if has_location(s.push(x), l) {
        let j = choose|j: int| 0 <= j < s.push(x).len() && #[trigger] location(s.push(x)[j]) == l;
        if j < s.len() {
            assert(location(s[j]) == l);
        }
    }
}

/// Keeping the first hit per location keeps every location.
pub proof fn lemma_first_per_location_locations<S>(s: Seq<SearchResult<S>>, l: (Seq<char>, usize))
    ensures
        has_location(first_per_location(s), l) == has_location(s, l),
    decreases s.len(),
{
    if s.len() > 0 {
        let p = s.drop_last();
        lemma_first_per_location_locations(p, l);
        lemma_has_location_push(p, s.last(), l);
        assert(s =~= p.push(s.last()));
        let r = first_per_location(p);
        if seen_before(s, s.len() - 1) {
            let i = choose|i: int| 0 <= i < s.len() - 1 && #[trigger] location(s[i]) == location(
                s[s.len() - 1],
            );
            assert(location(p[i]) == location(s.last()));
            lemma_first_per_location_locations(p, location(s.last()));
            if location(s.last()) == l {
                assert(has_location(p, l));
            }
        } else {
            lemma_has_location_push(r, s.last(), l);
        }
    }
}

/// No two hits of `s` share a location.
pub open spec fn distinct_locations<S>(s: Seq<SearchResult<S>>) -> bool {
    forall|i: int, j: int| 0 <= i < j < s.len() ==> location(#[trigger] s[i]) != location(#[trigger] s[j])
}

/// Keeping the first hit per location leaves no two hits with one location.
pub proof fn lemma_first_per_location_distinct<S>(s: Seq<SearchResult<S>>)
    ensures
        distinct_locations(first_per_location(s)),
    decreases s.len(),
{
    if s.len() > 0 {
        let p = s.drop_last();
        lemma_first_per_location_distinct(p);
        let r = first_per_location(p);
        if !seen_before(s, s.len() - 1) {
            let x = s.last();
            lemma_first_per_location_locations(p, location(x));
            assert(!has_location(p, location(x))) by {
                if has_location(p, location(x)) {
                    let j = choose|j: int| 0 <= j < p.len() && #[trigger] location(p[j]) == location(x);
                    assert(location(s[j]) == location(s[s.len() - 1]));
                }
            }
            let t = r.push(x);
            assert forall|i: int, j: int| 0 <= i < j < t.len() implies location(#[trigger] t[i])
                != location(#[trigger] t[j]) by {
                if j == t.len() - 1 {
                    assert(t[i] == r[i]);
                    if location(r[i]) == location(x) {
                        assert(has_location(r, location(x)));
                    }
                } else {
                    assert(t[i] == r[i] && t[j] == r[j]);
                }
            }
        }
    }
}

/// The first hits of a sequence with distinct locations have distinct locations.
proof fn lemma_distinct_take<S>(s: Seq<SearchResult<S>>, n: int)
    requires
        distinct_locations(s),
        0 <= n <= s.len(),
    ensures
        distinct_locations(s.take(n)),
{
    assert forall|i: int, j: int| 0 <= i < j < s.take(n).len() implies location(
        #[trigger] s.take(n)[i],
    ) != location(#[trigger] s.take(n)[j]) by {
        assert(s.take(n)[i] == s[i] && s.take(n)[j] == s[j]);
    }
}

/// The hits of `items` with each location once, at its first hit, in order.
pub fn dedup_by_location<S>(items: Vec<SearchResult<S>>) -> (res: Vec<SearchResult<S>>)
    ensures
        res@ == first_per_location(items@),
{
    let ghost orig = items@;
    let n = items.len();
    let mut rest = items;
    let mut res: Vec<SearchResult<S>> = Vec::new();
    let mut i: usize = 0;
    proof {
        assert(orig.take(0) =~= Seq::<SearchResult<S>>::empty());
        assert(orig.skip(0) =~= orig);
    }
    while rest.len() > 0
        invariant
            n == orig.len(),
            i <= orig.len(),
            rest@ == orig.skip(i as int),
            res@ == first_per_location(orig.take(i as int)),
        decreases rest@.len(),
    {
        let ghost pre = orig.take(i as int);
        let ghost now = orig.take(i + 1);
        proof {
            assert(now.drop_last() =~= pre);
            assert(rest@[0] == orig[i as int]);
        }
        let r = rest.remove(0);
        proof {
            assert(rest@ =~= orig.skip(i + 1));
        }
        let seen = contains_location(&res, &r);
        proof {
            assert(now.last() == r);
            lemma_first_per_location_locations(pre, location(r));
            if seen_before(now, now.len() - 1) {
                let j = choose|j: int|
                    0 <= j < now.len() - 1 && #[trigger] location(now[j]) == location(
                        now[now.len() - 1],
                    );
                assert(location(pre[j]) == location(r));
            }
            if has_location(pre, location(r)) {
                let j = choose|j: int| 0 <= j < pre.len() && #[trigger] location(pre[j]) == location(r);
                assert(location(now[j]) == location(now[now.len() - 1]));
            }
        }
        if !seen {
            res.push(r);
        }
        i = i + 1;
    }
    proof {
        assert(orig.take(i as int) =~= orig);
    }
    res
}

/// The first `limit` hits of `s` (all of them when there are fewer).
pub open spec fn at_most<T>(s: Seq<T>, limit: usize) -> Seq<T> {
    if s.len() <= limit {
        s
    } else {
        s.take(limit as int)
    }
}

/// What a keyword code search returns from its symbol hits and chunk hits: the symbol hits
/// first, as code hits, then the chunk hits; each location once, at its first hit; at most
/// `limit` hits.
pub open spec fn merged_code_results<S>(
    res: Seq<SearchResult<S>>,
    symbol_hits: Seq<SymbolSearchResult<S>>,
    chunk_hits: Seq<SearchResult<S>>,
    limit: usize,
) -> bool {
    exists|hits: Seq<SearchResult<S>>|
        {
            &&& hits.len() == symbol_hits.len()
            &&& forall|k: int| 0 <= k < hits.len() ==> is_symbol_hit(#[trigger] hits[k], symbol_hits[k])
            &&& res == at_most(first_per_location(hits + chunk_hits), limit)
        }
}

/// Merges the hits of a keyword code search: symbol hits (more relevant for exact names) come
/// first, then chunk hits; a location already hit is dropped; at most `limit` are kept.
pub fn merge_code_results<S>(
    symbol_hits: Vec<SymbolSearchResult<S>>,
    chunk_hits: Vec<SearchResult<S>>,
    limit: usize,
) -> (res: Vec<SearchResult<S>>)
    ensures
        merged_code_results(res@, symbol_hits@, chunk_hits@, limit),
{
    let ghost sym = symbol_hits@;
    let ghost chunks = chunk_hits@;
    let n = symbol_hits.len();
    let mut rest = symbol_hits;
    let mut merged: Vec<SearchResult<S>> = Vec::new();
    let mut i: usize = 0;
    proof {
        assert(sym.skip(0) =~= sym);
    }
    while rest.len() > 0
        invariant
            n == sym.len(),
            i <= sym.len(),
            rest@ == sym.skip(i as int),
            merged@.len() == i,
            forall|k: int| 0 <= k < i ==> is_symbol_hit(#[trigger] merged@[k], sym[k]),
        decreases rest@.len(),
    {
        proof {
            assert(rest@[0] == sym[i as int]);
        }
        let s = rest.remove(0);
        proof {
            assert(rest@ =~= sym.skip(i + 1));
        }
        let h = symbol_hit(s);
        merged.push(h);
        i = i + 1;
    }
    let ghost hits = merged@;
    let mut more = chunk_hits;
    merged.append(&mut more);
    assert(merged@ =~= hits + chunks);
    let mut res = dedup_by_location(merged);
    res.truncate(limit);
    proof {
        assert(res@ =~= at_most(first_per_location(hits + chunks), limit));
    }
    res
}

/// Some symbol hit of `s` has location `l`.
pub open spec fn has_symbol_at<S>(s: Seq<SymbolSearchResult<S>>, l: (Seq<char>, usize)) -> bool {
    exists|j: int| 0 <= j < s.len() && (#[trigger] s[j]).file_path@ == l.0 && s[j].line_start == l.1
}

/// A merged code search returns at most `limit` hits, no two of them at one location, and every
/// location it returns is one that some symbol hit or chunk hit has.
pub proof fn lemma_merged_code_results<S>(
    res: Seq<SearchResult<S>>,
    symbol_hits: Seq<SymbolSearchResult<S>>,
    chunk_hits: Seq<SearchResult<S>>,
    limit: usize,
)
    requires
        merged_code_results(res, symbol_hits, chunk_hits, limit),
    ensures
        res.len() <= limit,
        distinct_locations(res),
        forall|k: int|
            0 <= k < res.len() ==> has_symbol_at(symbol_hits, location(#[trigger] res[k]))
                || has_location(chunk_hits, location(res[k])),
{
    let hits = choose|hits: Seq<SearchResult<S>>|
        {
            &&& hits.len() == symbol_hits.len()
            &&& forall|k: int| 0 <= k < hits.len() ==> is_symbol_hit(#[trigger] hits[k], symbol_hits[k])
            &&& res == at_most(first_per_location(hits + chunk_hits), limit)
        };
    let all = hits + chunk_hits;
    let f = first_per_location(all);
    lemma_first_per_location_distinct(all);
    if f.len() > limit {
        lemma_distinct_take(f, limit as int);
    }
    assert forall|k: int| 0 <= k < res.len() implies has_symbol_at(
        symbol_hits,
        location(#[trigger] res[k]),
    ) || has_location(chunk_hits, location(res[k])) by {
        assert(res[k] == f[k]);
        assert(has_location(f, location(f[k])));
        lemma_first_per_location_locations(all, location(f[k]));
        let j = choose|j: int| 0 <= j < all.len() && #[trigger] location(all[j]) == location(f[k]);
        if j < hits.len() {
            assert(is_symbol_hit(hits[j], symbol_hits[j]));
            assert(symbol_hits[j].file_path@ == res[k].file_path@);
        } else {
            assert(all[j] == chunk_hits[j - hits.len()]);
            assert(location(chunk_hits[j - hits.len()]) == location(res[k]));
        }
    }
}

// ---------------------------------------------------------------------------
// Filters
// ---------------------------------------------------------------------------

/// The text `f` asks for is `name`, or `f` asks for nothing.
pub open spec fn names_match(f: Option<Seq<char>>, name: Seq<char>) -> bool {
    match f {
        Some(x) => x == name,
        None => true,
    }
}

/// The text `f` asks for occurs in `path`, or `f` asks for nothing.
pub open spec fn path_matches(f: Option<Seq<char>>, path: Seq<char>) -> bool {
    match f {
        Some(x) => occurs_in(path, x),
        None => true,
    }
}

/// The view of an optional text.
pub open spec fn opt_text(o: Option<&str>) -> Option<Seq<char>> {
    match o {
        Some(s) => Some(s@),
        None => None,
    }
}

/// A symbol hit passes the filters of a symbol search: its kind and language are the ones
/// asked for (by their names), and its path holds the text asked for.
pub open spec fn symbol_passes<S>(
    r: SymbolSearchResult<S>,
    kind: Option<Seq<char>>,
    language: Option<Seq<char>>,
    path_part: Option<Seq<char>>,
) -> bool {
    names_match(kind, r.kind.spec_name()) && names_match(language, r.language.spec_name())
        && path_matches(path_part, r.file_path@)
}

/// A code hit passes the filters of a code search: its language is the one asked for (by its
/// name), and its path holds the text asked for.
pub open spec fn code_passes<S>(
    r: SearchResult<S>,
    language: Option<Seq<char>>,
    path_part: Option<Seq<char>>,
) -> bool {
    names_match(language, r.language.spec_name()) && path_matches(path_part, r.file_path@)
}

/// Whether `name` is what `f` asks for.
fn name_ok(f: Option<&str>, name: &str) -> (b: bool)
    ensures
        b == names_match(opt_text(f), name@),
{
    match f {
        Some(x) => str_eq(x, name),
        None => true,
    }
}

/// Whether `path` holds what `f` asks for.
fn path_ok(f: Option<&str>, path: &str) -> (b: bool)
    ensures
        b == path_matches(opt_text(f), path@),
{
    match f {
        Some(x) => {
            let p = chars_of(path);
            let q = chars_of(x);
            occurs(&p, &q)
        },
        None => true,
    }
}

/// The symbol hits that pass the filters, in order.
pub fn filter_symbol_hits<S>(
    hits: Vec<SymbolSearchResult<S>>,
    kind: Option<&str>,
    language: Option<&str>,
    path_part: Option<&str>,
) -> (res: Vec<SymbolSearchResult<S>>)
    ensures
        res@ == hits@.filter(
            |r: SymbolSearchResult<S>| symbol_passes(r, opt_text(kind), opt_text(language), opt_text(path_part)),
        ),
{
    let ghost f = |r: SymbolSearchResult<S>| symbol_passes(r, opt_text(kind), opt_text(language), opt_text(path_part));
    let ghost orig = hits@;
    let n = hits.len();
    let mut rest = hits;
    let mut res: Vec<SymbolSearchResult<S>> = Vec::new();
    let mut i: usize = 0;
    proof {
        assert(orig.take(0) =~= Seq::<SymbolSearchResult<S>>::empty());
        assert(orig.skip(0) =~= orig);
    }
    while rest.len() > 0
        invariant
            n == orig.len(),
            i <= orig.len(),
            rest@ == orig.skip(i as int),
            res@ == orig.take(i as int).filter(f),
            f == (|r: SymbolSearchResult<S>| symbol_passes(r, opt_text(kind), opt_text(language), opt_text(path_part))),
        decreases rest@.len(),
    {
        proof {
            assert(rest@[0] == orig[i as int]);
            assert(orig.take(i + 1) =~= orig.take(i as int).push(orig[i as int]));
            orig.take(i as int).lemma_filter_push(orig[i as int], f);
        }
        let r = rest.remove(0);
        proof {
            assert(rest@ =~= orig.skip(i + 1));
        }
        let keep = name_ok(kind, r.kind.as_str()) && name_ok(language, r.language.as_str())
            && path_ok(path_part, r.file_path.as_str());
        assert(keep == f(r));
        if keep {
            res.push(r);
        }
        i = i + 1;
    }
    proof {
        assert(orig.take(i as int) =~= orig);
    }
    res
}

/// The code hits that pass the filters, in order.
pub fn filter_code_hits<S>(
    hits: Vec<SearchResult<S>>,
    language: Option<&str>,
    path_part: Option<&str>,
) -> (res: Vec<SearchResult<S>>)
    ensures
        res@ == hits@.filter(|r: SearchResult<S>| code_passes(r, opt_text(language), opt_text(path_part))),
{
    let ghost f = |r: SearchResult<S>| code_passes(r, opt_text(language), opt_text(path_part));
    let ghost orig = hits@;
    let n = hits.len();
    let mut rest = hits;
    let mut res: Vec<SearchResult<S>> = Vec::new();
    let mut i: usize = 0;
    proof {
        assert(orig.take(0) =~= Seq::<SearchResult<S>>::empty());
        assert(orig.skip(0) =~= orig);
    }
    while rest.len() > 0
        invariant
            n == orig.len(),
            i <= orig.len(),
            rest@ == orig.skip(i as int),
            res@ == orig.take(i as int).filter(f),
            f == (|r: SearchResult<S>| code_passes(r, opt_text(language), opt_text(path_part))),
        decreases rest@.len(),
    {
        proof {
            assert(rest@[0] == orig[i as int]);
            assert(orig.take(i + 1) =~= orig.take(i as int).push(orig[i as int]));
            orig.take(i as int).lemma_filter_push(orig[i as int], f);
        }
        let r = rest.remove(0);
        proof {
            assert(rest@ =~= orig.skip(i + 1));
        }
        let keep = name_ok(language, r.language.as_str()) && path_ok(path_part, r.file_path.as_str());
        assert(keep == f(r));
        if keep {
            res.push(r);
        }
        i = i + 1;
    }
    proof {
        assert(orig.take(i as int) =~= orig);
    }
    res
}

} // verus!
