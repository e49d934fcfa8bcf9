//! The requests of the tools the server offers, and how each request is read: its limits,
//! directions and defaults.
use vstd::prelude::*;

use crate::text::str_eq;

verus! {

/// The first `n` items of `s` (all of them when there are fewer).
pub open spec fn first_items<T>(s: Seq<T>, n: usize) -> Seq<T> {
    if s.len() <= n {
        s
    } else {
        s.take(n as int)
    }
}

/// The first `n` items of `v`.
pub fn take_first<T>(v: Vec<T>, n: usize) -> (res: Vec<T>)
    ensures
        res@ == first_items(v@, n),
{
    let mut res = v;
    res.truncate(n);
    res
}

/// How many candidates each search of a hybrid search fetches before fusion: twice the
/// number of results asked for.
pub fn candidate_limit(limit: usize) -> (n: usize)
    requires
        limit <= usize::MAX / 2,
    ensures
        n == 2 * limit,
{
    limit * 2
}

/// The number of results a search returns: the limit asked for (or `default_limit` where none
/// is), and never more than `max_limit`.
pub open spec fn spec_search_limit(asked: Option<usize>, default_limit: usize, max_limit: usize) -> usize {
    let n = asked.unwrap_or(default_limit);
    if n <= max_limit {
        n
    } else {
        max_limit
    }
}

/// The number of results a search returns.
pub fn search_limit(asked: Option<usize>, default_limit: usize, max_limit: usize) -> (n: usize)
    ensures
        n == spec_search_limit(asked, default_limit, max_limit),
{
    let n = match asked {
        Some(l) => l,
        None => default_limit,
    };
    if n <= max_limit {
        n
    } else {
        max_limit
    }
}

/// A request to find symbols by name.
#[derive(Debug, Clone)]
pub struct FindSymbolParams {
    /// Symbol name or partial name to search for.
    pub query: String,
    /// Filter by symbol kind.
    pub kind: Option<String>,
    /// Filter by language.
    pub language: Option<String>,
    /// Filter by file path substring.
    pub file_path_contains: Option<String>,
    /// Maximum results to return.
    pub limit: Option<usize>,
}

impl FindSymbolParams {
    /// How many symbols the search returns: the limit asked for (or `default_limit`), and
    /// never more than `max_limit`.
    pub fn effective_limit(&self, default_limit: usize, max_limit: usize) -> (n: usize)
        ensures
            n == spec_search_limit(self.limit, default_limit, max_limit),
    {
        search_limit(self.limit, default_limit, max_limit)
    }
}

/// A request to search code by meaning or keywords.
#[derive(Debug, Clone)]
pub struct SearchCodeParams {
    /// Natural language query or keywords.
    pub query: String,
    /// Filter by language.
    pub language: Option<String>,
    /// Filter by file path substring.
    pub file_path_contains: Option<String>,
    /// Maximum results to return.
    pub limit: Option<usize>,
}

impl SearchCodeParams {
    /// How many hits the search returns: the limit asked for (or `default_limit`), and never
    /// more than `max_limit`.
    pub fn effective_limit(&self, default_limit: usize, max_limit: usize) -> (n: usize)
        ensures
            n == spec_search_limit(self.limit, default_limit, max_limit),
    {
        search_limit(self.limit, default_limit, max_limit)
    }
}

/// A request to explore the dependencies of a file.
#[derive(Debug, Clone)]
pub struct QueryDepsParams {
    /// File path relative to the repository root.
    pub file: Option<String>,
    /// `outgoing`, `incoming` or `both` (the default).
    pub direction: Option<String>,
    /// Maximum results per direction (default 50, at most 200).
    pub limit: Option<usize>,
}

/// Which directions a dependency query asks for, as (outgoing, incoming): `outgoing` and
/// `incoming` ask for one each, `both` (also when no direction is given) for both, and any
/// other word for neither.
pub open spec fn spec_directions(direction: Option<Seq<char>>) -> (bool, bool) {
    let d = match direction {
        Some(d) => d,
        None => "both"@,
    };
    (d == "outgoing"@ || d == "both"@, d == "incoming"@ || d == "both"@)
}

impl QueryDepsParams {
    /// The file whose dependencies are asked for; the empty path where none is given.
    pub fn file_or_empty(&self) -> (f: &str)
        ensures
            f@ == (match self.file {
                Some(s) => s@,
                None => Seq::<char>::empty(),
            }),
    {
        match &self.file {
            Some(s) => s.as_str(),
            None => {
                proof {
                    reveal_strlit("");
                }
                ""
            },
        }
    }

    /// How many edges are returned per direction: the limit asked for (50 by default), and
    /// never more than 200.
    pub fn effective_limit(&self) -> (n: usize)
        ensures
            n == (if self.limit.unwrap_or(50) <= 200 { self.limit.unwrap_or(50) } else { 200 }),
    {
        let asked = match self.limit {
            Some(l) => l,
            None => 50,
        };
        if asked <= 200 {
            asked
        } else {
            200
        }
    }

    /// Which directions are asked for, as (outgoing, incoming).
    pub fn directions(&self) -> (r: (bool, bool))
        ensures
            r == spec_directions(
                match self.direction {
                    Some(d) => Some(d@),
                    None => None,
                },
            ),
    {
        let d: &str = match &self.direction {
            Some(s) => s.as_str(),
            None => "both",
        };
        proof {
            reveal_strlit("both");
        }
        let both = str_eq(d, "both");
        let outgoing = str_eq(d, "outgoing") || both;
        let incoming = str_eq(d, "incoming") || both;
        (outgoing, incoming)
    }
}

/// A request to index the repository again.
#[derive(Debug, Clone)]
pub struct ReindexParams {
    /// Whether to clear the index and index every file; by default only changed files.
    pub full: Option<bool>,
}

impl ReindexParams {
    /// Whether the run indexes every file: only when asked to.
    pub fn is_full(&self) -> (b: bool)
        ensures
            b == self.full.unwrap_or(false),
    {
        match self.full {
            Some(b) => b,
            None => false,
        }
    }
}

/// The provider an index status reports: the one detected in this process, or else the one
/// the index recorded.
pub fn reported_provider(detected: Option<String>, recorded: Option<String>) -> (r: Option<String>)
    ensures
        r == (if detected is Some { detected } else { recorded }),
{
    match detected {
        Some(p) => Some(p),
        None => recorded,
    }
}

} // verus!
