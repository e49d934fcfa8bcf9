//! The indexing pipeline's decisions: which files are indexed, what indexing one file
//! produces, and how the run is counted.
use vstd::prelude::*;

use crate::chunker::{hex_encode, hex_lower, lemma_hex_lower_len, sha256, sha256_digest};
use crate::config::{strings_view, IndexerConfig};
use crate::chunker::chunks_are;
use crate::parser::{
    chunks_at_some_tree, create_parser, has_grammar, imports_of_some_tree, symbols_of_some_tree, LanguageParser,
};
use crate::syntax::spec_source_text;
use crate::paths::{
    components, extension, file_name, path_components, spec_file_name, spec_path_extension,
};
use crate::text::{chars_of, str_eq};
use crate::types::{spec_from_extension, Chunk, DepEdge, Import, Language, Symbol};

verus! {

// ---------------------------------------------------------------------------
// Content hashes
// ---------------------------------------------------------------------------

/// The hex SHA-256 digest of `bytes`.
pub open spec fn spec_bytes_hash(bytes: Seq<u8>) -> Seq<char> {
    hex_lower(sha256_digest(bytes))
}

/// The hex SHA-256 digest of `bytes`, 64 characters long: what the index stores to tell
/// whether a file changed.
pub fn compute_bytes_hash(bytes: &[u8]) -> (res: String)
    ensures
        res@ == spec_bytes_hash(bytes@),
        res@.len() == 64,
{
    let digest = sha256(bytes);
    proof {
        lemma_hex_lower_len(digest@);
    }
    hex_encode(digest.as_slice())
}

/// Whether a file must be indexed again: its stored hash is missing or differs from the hash
/// of what it holds now.
pub fn needs_reindex(stored_hash: &Option<String>, current_hash: &str) -> (r: bool)
    ensures
        r == !(stored_hash matches Some(h) && h@ == current_hash@),
{
    match stored_hash {
        Some(h) => !str_eq(h.as_str(), current_hash),
        None => true,
    }
}

// ---------------------------------------------------------------------------
// File-name patterns
// ---------------------------------------------------------------------------

/// `p` occurs somewhere in `s` (the empty text occurs in every text).
pub open spec fn occurs_in(s: Seq<char>, p: Seq<char>) -> bool {
    exists|i: int| 0 <= i <= s.len() - p.len() && #[trigger] s.subrange(i, i + p.len()) == p
}

/// Whether the pattern from position `i` on matches the name from position `j` on, where
/// each `*` stands for any run of characters (the empty one too) and every other character
/// for itself.
pub open spec fn wildcard_match(p: Seq<char>, s: Seq<char>, i: int, j: int) -> bool
    decreases p.len() - i, s.len() - j,
{
    if i >= p.len() {
        j >= s.len()
    } else if p[i] == '*' {
        wildcard_match(p, s, i + 1, j) || (j < s.len() && wildcard_match(p, s, i, j + 1))
    } else {
        j < s.len() && s[j] == p[i] && wildcard_match(p, s, i + 1, j + 1)
    }
}

/// Whether `name` matches the exclude pattern `pattern`: a pattern with a `*` must match the
/// whole name, each `*` standing for any run of characters; a pattern without one matches the
/// names that hold it.
pub open spec fn spec_glob_match(pattern: Seq<char>, name: Seq<char>) -> bool {
    if pattern.contains('*') {
        wildcard_match(pattern, name, 0, 0)
    } else {
        occurs_in(name, pattern)
    }
}

/// Whether `s[at..at + len]` equals `p[from..from + len]`.
fn same_run(s: &Vec<char>, at: usize, p: &Vec<char>, from: usize, len: usize) -> (r: bool)
    requires
        at + len <= s@.len(),
        from + len <= p@.len(),
    ensures
        r == (s@.subrange(at as int, at + len) == p@.subrange(from as int, from + len)),
{
    let ghost a = s@.subrange(at as int, at + len);
    let ghost b = p@.subrange(from as int, from + len);
    let sl = s.len();
    let pl = p.len();
    let mut k: usize = 0;
    while k < len
        invariant
            sl == s@.len(),
            pl == p@.len(),
            at + len <= sl,
            from + len <= pl,
            a == s@.subrange(at as int, at + len),
            b == p@.subrange(from as int, from + len),
            k <= len,
            forall|j: int| 0 <= j < k ==> #[trigger] a[j] == b[j],
        decreases len - k,
    {
        if s[at + k] != p[from + k] {
            proof {
                assert(a[k as int] != b[k as int]);
            }
            return false;
        }
        k = k + 1;
    }
    assert(a =~= b);
    true
}

/// Whether `p` occurs somewhere in `s`.
pub(crate) fn occurs(s: &Vec<char>, p: &Vec<char>) -> (r: bool)
    ensures
        r == occurs_in(s@, p@),
{
    let m = p.len();
    let n = s.len();
    if m > n {
        return false;
    }
    proof {
        assert(p@.subrange(0, m as int) =~= p@);
    }
    let last = n - m;
    let mut at: usize = 0;
    loop
        invariant
            m <= n,
            last == n - m,
            at <= last,
            n == s@.len(),
            m == p@.len(),
            p@.subrange(0, m as int) == p@,
            forall|i: int| 0 <= i < at ==> #[trigger] s@.subrange(i, i + m) != p@,
        decreases last - at,
    {
        if same_run(s, at, p, 0, m) {
            proof {
                assert(s@.subrange(at as int, at + p@.len()) == p@);
            }
            return true;
        }
        if at == last {
            return false;
        }
        at = at + 1;
    }
}

/// Whether `p` holds a `*`.
fn has_star(p: &Vec<char>) -> (r: bool)
    ensures
        r == p@.contains('*'),
{
    let mut k: usize = 0;
    while k < p.len()
        invariant
            k <= p@.len(),
            forall|j: int| 0 <= j < k ==> p@[j] != '*',
        decreases p@.len() - k,
    {
        if p[k] == '*' {
            assert(p@[k as int] == '*');
            return true;
        }
        k = k + 1;
    }
    false
}

/// Whether all of `s` matches all of `p`, `*` standing for any run of characters. The table
/// is filled from the ends of both texts back to their starts, one pattern position at a time.
fn wildcard(p: &Vec<char>, s: &Vec<char>) -> (r: bool)
    ensures
        r == wildcard_match(p@, s@, 0, 0),
{
    let m = p.len();
    let n = s.len();
    // Row `i + 1` of the table: `next[j]` for `j < n`, and `next_end` for `j == n`.
    let mut next: Vec<bool> = Vec::new();
    let mut k: usize = 0;
    while k < n
        invariant
            n == s@.len(),
            m == p@.len(),
            k <= n,
            next@.len() == k,
            forall|j: int| 0 <= j < k ==> next@[j] == wildcard_match(p@, s@, m as int, j),
        decreases n - k,
    {
        next.push(false);
        k = k + 1;
    }
    let mut next_end = true;
    let mut i = m;
    while i > 0
        invariant
            n == s@.len(),
            m == p@.len(),
            i <= m,
            next@.len() == n,
            forall|j: int| 0 <= j < n ==> #[trigger] next@[j] == wildcard_match(p@, s@, i as int, j),
            next_end == wildcard_match(p@, s@, i as int, n as int),
        decreases i,
    {
        i = i - 1;
        let star = p[i] == '*';
        let cur_end = star && next_end;
        let mut cur = next.clone();
        let mut j = n;
        while j > 0
            invariant
                n == s@.len(),
                m == p@.len(),
                i < m,
                star == (p@[i as int] == '*'),
                j <= n,
                next@.len() == n,
                cur@.len() == n,
                forall|q: int| 0 <= q < n ==> #[trigger] next@[q] == wildcard_match(p@, s@, i + 1, q),
                next_end == wildcard_match(p@, s@, i + 1, n as int),
                cur_end == wildcard_match(p@, s@, i as int, n as int),
                forall|q: int| j <= q < n ==> #[trigger] cur@[q] == wildcard_match(p@, s@, i as int, q),
            decreases j,
        {
            j = j - 1;
            let later = if j + 1 < n {
                cur[j + 1]
            } else {
                cur_end
            };
            let next_later = if j + 1 < n {
                next[j + 1]
            } else {
                next_end
            };
            let v = if star {
                next[j] || later
            } else {
                s[j] == p[i] && next_later
            };
            proof {
                assert(v == wildcard_match(p@, s@, i as int, j as int));
            }
            cur.set(j, v);
        }
        next = cur;
        next_end = cur_end;
    }
    if n > 0 {
        next[0]
    } else {
        next_end
    }
}

/// Whether `name` matches the exclude pattern `pattern`.
pub fn simple_glob_match(pattern: &str, name: &str) -> (r: bool)
    ensures
        r == spec_glob_match(pattern@, name@),
{
    let p = chars_of(pattern);
    let s = chars_of(name);
    if has_star(&p) {
        wildcard(&p, &s)
    } else {
        occurs(&s, &p)
    }
}

// ---------------------------------------------------------------------------
// Which files are indexed
// ---------------------------------------------------------------------------

/// Some component of `path` is one of the directory names `dirs`.
pub open spec fn spec_in_excluded_dir(dirs: Seq<Seq<char>>, path: Seq<char>) -> bool {
    exists|k: int|
        0 <= k < path_components(path).len() && #[trigger] dirs.contains(
            path_components(path)[k],
        )
}

/// Whether some component of `path` is a directory name that `config` excludes.
pub fn is_excluded_dir(config: &IndexerConfig, path: &str) -> (r: bool)
    ensures
        r == spec_in_excluded_dir(strings_view(config.exclude_dirs@), path@),
{
    let cs = components(path);
    let ghost dirs = strings_view(config.exclude_dirs@);
    let mut k: usize = 0;
    while k < cs.len()
        invariant
            k <= cs@.len(),
            dirs == strings_view(config.exclude_dirs@),
            cs@.len() == path_components(path@).len(),
            forall|j: int| 0 <= j < cs@.len() ==> #[trigger] cs@[j]@ == path_components(path@)[j],
            forall|j: int| 0 <= j < k ==> !dirs.contains(#[trigger] path_components(path@)[j]),
        decreases cs@.len() - k,
    {
        let mut d: usize = 0;
        while d < config.exclude_dirs.len()
            invariant
                k < cs@.len(),
                cs@.len() == path_components(path@).len(),
                d <= config.exclude_dirs@.len(),
                dirs == strings_view(config.exclude_dirs@),
                cs@[k as int]@ == path_components(path@)[k as int],
                forall|e: int| 0 <= e < d ==> dirs[e] != path_components(path@)[k as int],
            decreases config.exclude_dirs@.len() - d,
        {
            if str_eq(config.exclude_dirs[d].as_str(), cs[k].as_str()) {
                proof {
                    assert(dirs[d as int] == path_components(path@)[k as int]);
                    assert(dirs.contains(path_components(path@)[k as int]));
                    assert(0 <= k < path_components(path@).len());
                }
                return true;
            }
            d = d + 1;
        }
        proof {
            assert(!dirs.contains(path_components(path@)[k as int])) by {
                if dirs.contains(path_components(path@)[k as int]) {
                    let e = choose|e: int|
                        0 <= e < dirs.len() && dirs[e] == path_components(path@)[k as int];
                    assert(dirs[e] != path_components(path@)[k as int]);
                }
            }
        }
        k = k + 1;
    }
    false
}

/// Whether a file is indexed: no component of its path is an excluded directory, its
/// extension denotes a language, its size (where known) is within the limit, and its name
/// (empty where the path names no file) matches no excluded pattern.
pub open spec fn spec_should_index(
    dirs: Seq<Seq<char>>,
    patterns: Seq<Seq<char>>,
    max_file_size: u64,
    path: Seq<char>,
    size: Option<u64>,
) -> bool {
    &&& !spec_in_excluded_dir(dirs, path)
    &&& match spec_path_extension(path) {
        Some(e) => spec_from_extension(e) is Some,
        None => false,
    }
    &&& !(size matches Some(n) && n > max_file_size)
    &&& forall|k: int|
        0 <= k < patterns.len() ==> !spec_glob_match(
            #[trigger] patterns[k],
            match spec_file_name(path) {
                Some(f) => f,
                None => Seq::empty(),
            },
        )
}

/// Whether the file at `path`, of `size` bytes where the size could be read, is indexed under
/// `config`.
#[verifier::loop_isolation(false)]
pub fn should_index(config: &IndexerConfig, path: &str, size: Option<u64>) -> (r: bool)
    ensures
        r == spec_should_index(
            strings_view(config.exclude_dirs@),
            strings_view(config.exclude_patterns@),
            config.max_file_size,
            path@,
            size,
        ),
{
    if is_excluded_dir(config, path) {
        return false;
    }
    let ext = match extension(path) {
        Some(e) => e,
        None => return false,
    };
    if crate::types::Language::from_extension(ext.as_str()).is_none() {
        return false;
    }
    if let Some(n) = size {
        if n > config.max_file_size {
            return false;
        }
    }
    let name = match file_name(path) {
        Some(f) => f,
        None => String::new(),
    };
    let ghost pats = strings_view(config.exclude_patterns@);
    let mut k: usize = 0;
    while k < config.exclude_patterns.len()
        invariant
            k <= config.exclude_patterns@.len(),
            pats == strings_view(config.exclude_patterns@),
            name@ == (match spec_file_name(path@) {
                Some(f) => f,
                None => Seq::<char>::empty(),
            }),
            forall|j: int| 0 <= j < k ==> !spec_glob_match(#[trigger] pats[j], name@),
        decreases config.exclude_patterns@.len() - k,
    {
        if simple_glob_match(config.exclude_patterns[k].as_str(), name.as_str()) {
            proof {
                assert(pats[k as int] == config.exclude_patterns@[k as int]@);
            }
            return false;
        }
        k = k + 1;
    }
    true
}

// ---------------------------------------------------------------------------
// Indexing one file
// ---------------------------------------------------------------------------

/// What indexing one source file produces, before it is stored.
#[derive(Debug, Clone)]
pub struct IndexedFile {
    pub language: Language,
    pub content_hash: String,
    pub symbols: Vec<Symbol>,
    pub chunks: Vec<Chunk>,
    pub deps: Vec<DepEdge>,
}

/// The edges that record `imports`, one per import and in the same order.
pub open spec fn edges_of(imports: Seq<Import>, edges: Seq<DepEdge>) -> bool {
    &&& edges.len() == imports.len()
    &&& forall|k: int|
        0 <= k < edges.len() ==> (#[trigger] edges[k]).source_file == imports[k].source_file
            && edges[k].target_path == imports[k].target_path && edges[k].kind == imports[k].kind
            && edges[k].line_number == imports[k].line_number
}

/// The dependency edges that record `imports`.
pub fn dep_edges(imports: Vec<Import>) -> (edges: Vec<DepEdge>)
    ensures
        edges_of(imports@, edges@),
{
    let ghost orig = imports@;
    let mut edges: Vec<DepEdge> = Vec::new();
    let mut k: usize = 0;
    while k < imports.len()
        invariant
            imports@ == orig,
            k <= orig.len(),
            edges@.len() == k,
            forall|j: int|
                0 <= j < k ==> (#[trigger] edges@[j]).source_file == orig[j].source_file
                    && edges@[j].target_path == orig[j].target_path && edges@[j].kind
                    == orig[j].kind && edges@[j].line_number == orig[j].line_number,
        decreases orig.len() - k,
    {
        let imp = &imports[k];
        let e = DepEdge {
            source_file: imp.source_file.clone(),
            target_path: imp.target_path.clone(),
            kind: imp.kind,
            line_number: imp.line_number,
        };
        edges.push(e);
        k = k + 1;
    }
    edges
}

/// The extension `index_file` reads a path's language from: the path's extension, or the
/// empty text where it has none.
pub open spec fn extension_or_empty(path: Seq<char>) -> Seq<char> {
    match spec_path_extension(path) {
        Some(e) => e,
        None => Seq::empty(),
    }
}

/// Indexes the file at `rel_path`, holding `source`: its language (from the extension), the
/// hash of its content, its symbols, chunks and dependency edges. `None` when the extension
/// denotes no language.
pub fn index_file(rel_path: &str, source: &[u8]) -> (res: Option<IndexedFile>)
    ensures
        res is None <==> spec_from_extension(extension_or_empty(rel_path@)) is None,
        res matches Some(f) ==> {
            &&& spec_from_extension(extension_or_empty(rel_path@)) == Some(f.language)
            &&& f.content_hash@ == spec_bytes_hash(source@)
            &&& has_grammar(f.language) ==> symbols_of_some_tree(f.symbols@, source@, rel_path@, f.language)
            &&& has_grammar(f.language) ==> chunks_at_some_tree(f.chunks@, source@, rel_path@, f.language)
            &&& has_grammar(f.language) ==> exists|imports: Seq<Import>|
                imports_of_some_tree(imports, source@, rel_path@, f.language) && #[trigger] edges_of(imports, f.deps@)
            &&& !has_grammar(f.language) ==> f.symbols@.len() == 0 && f.deps@.len() == 0
                && chunks_are(f.chunks@, spec_source_text(source@), rel_path@, f.language, Seq::empty())
            &&& forall|k: int|
                0 <= k < f.symbols@.len() ==> (#[trigger] f.symbols@[k]).language == f.language
                    && f.symbols@[k].file_path@ == rel_path@
            &&& forall|k: int|
                0 <= k < f.deps@.len() ==> (#[trigger] f.deps@[k]).source_file@ == rel_path@
        },
{
    let ext = match extension(rel_path) {
        Some(e) => e,
        None => String::new(),
    };
    let language = match Language::from_extension(ext.as_str()) {
        Some(l) => l,
        None => return None,
    };
    let content_hash = compute_bytes_hash(source);
    let parser = create_parser(language);
    let symbols = parser.parse_symbols(source, rel_path);
    let imports = parser.parse_imports(source, rel_path);
    let chunks = parser.chunk_file(source, rel_path);
    let ghost imps = imports@;
    let deps = dep_edges(imports);
    proof {
        assert(edges_of(imps, deps@));
        assert forall|k: int| 0 <= k < deps@.len() implies (#[trigger] deps@[k]).source_file@
            == rel_path@ by {
            assert(imps[k].source_file@ == rel_path@);
        }
    }
    Some(IndexedFile { language, content_hash, symbols, chunks, deps })
}

/// A file that discovery admits is indexed, never skipped for want of a language.
pub proof fn lemma_admitted_files_have_language(
    dirs: Seq<Seq<char>>,
    patterns: Seq<Seq<char>>,
    max_file_size: u64,
    path: Seq<char>,
    size: Option<u64>,
)
    requires
        spec_should_index(dirs, patterns, max_file_size, path, size),
    ensures
        spec_from_extension(extension_or_empty(path)) is Some,
{
}

// ---------------------------------------------------------------------------
// Counting a run
// ---------------------------------------------------------------------------

/// What a run of the pipeline did.
#[derive(Debug, Clone, Copy, PartialEq, Eq, Structural)]
pub struct IndexStats {
    pub files_indexed: usize,
    pub symbols_found: usize,
    pub chunks_created: usize,
    pub files_skipped: usize,
}

impl Default for IndexStats {
    fn default() -> (s: Self)
        ensures
            s == (IndexStats { files_indexed: 0, symbols_found: 0, chunks_created: 0, files_skipped: 0 }),
    {
        IndexStats { files_indexed: 0, symbols_found: 0, chunks_created: 0, files_skipped: 0 }
    }
}

impl IndexStats {
    /// Counts one indexed file with its symbols and chunks.
    pub fn record_indexed(&mut self, symbols: usize, chunks: usize)
        requires
            old(self).files_indexed < usize::MAX,
            old(self).symbols_found + symbols <= usize::MAX,
            old(self).chunks_created + chunks <= usize::MAX,
        ensures
            final(self).files_indexed == old(self).files_indexed + 1,
            final(self).symbols_found == old(self).symbols_found + symbols,
            final(self).chunks_created == old(self).chunks_created + chunks,
            final(self).files_skipped == old(self).files_skipped,
    {
        self.files_indexed = self.files_indexed + 1;
        self.symbols_found = self.symbols_found + symbols;
        self.chunks_created = self.chunks_created + chunks;
    }

    /// Counts one file that could not be read or has no known language.
    pub fn record_skipped(&mut self)
        requires
            old(self).files_skipped < usize::MAX,
        ensures
            final(self).files_skipped == old(self).files_skipped + 1,
            final(self).files_indexed == old(self).files_indexed,
            final(self).symbols_found == old(self).symbols_found,
            final(self).chunks_created == old(self).chunks_created,
    {
        self.files_skipped = self.files_skipped + 1;
    }
}

// ---------------------------------------------------------------------------
// Incremental runs
// ---------------------------------------------------------------------------

/// Whether an incremental run asks git which files changed: only when a commit was recorded
/// after the last run and the repository is a git repository. Otherwise (or when git fails)
/// the run compares content hashes.
pub fn use_git_diff(last_indexed_commit: &Option<String>, is_git_repo: bool) -> (r: bool)
    ensures
        r == (last_indexed_commit is Some && is_git_repo),
{
    last_indexed_commit.is_some() && is_git_repo
}

/// The path a changed entry of a diff stands for: its new path, or its old path where it has
/// no new one (a deleted file).
pub fn delta_path(new_path: Option<String>, old_path: Option<String>) -> (r: Option<String>)
    ensures
        r == (if new_path is Some { new_path } else { old_path }),
{
    match new_path {
        Some(p) => Some(p),
        None => old_path,
    }
}

// ---------------------------------------------------------------------------
// Watching
// ---------------------------------------------------------------------------

/// Watches a directory tree and reports changed paths in batches, one batch per quiet period.
pub struct FileWatcher {
    debounce_ms: u64,
}

impl FileWatcher {
    /// How long, in milliseconds, the watcher waits for quiet before it reports a batch.
    pub closed spec fn spec_debounce_ms(&self) -> u64 {
        self.debounce_ms
    }

    /// A watcher that waits `debounce_ms` milliseconds of quiet before each batch.
    pub fn new(debounce_ms: u64) -> (w: Self)
        ensures
            w.spec_debounce_ms() == debounce_ms,
    {
        FileWatcher { debounce_ms }
    }

    /// The quiet period, in milliseconds.
    pub fn debounce_ms(&self) -> (n: u64)
        ensures
            n == self.spec_debounce_ms(),
    {
        self.debounce_ms
    }
}

} // verus!
