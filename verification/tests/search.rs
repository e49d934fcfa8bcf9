use code_indexer::search::{dedup_by_location, merge_code_results, symbol_hit};
use code_indexer::tools::{
    candidate_limit, reported_provider, search_limit, take_first, FindSymbolParams,
    QueryDepsParams, ReindexParams, SearchCodeParams,
};
use code_indexer::types::{Language, SearchResult, SymbolKind, SymbolSearchResult};

fn chunk_hit(path: &str, line: usize, score: f64) -> SearchResult<f64> {
    SearchResult {
        file_path: path.to_string(),
        line_start: line,
        line_end: line + 5,
        snippet: format!("chunk at {line}"),
        symbol_name: None,
        symbol_kind: None,
        score,
        language: Language::Rust,
    }
}

fn sym(name: &str, path: &str, line: usize, signature: Option<&str>) -> SymbolSearchResult<f64> {
    SymbolSearchResult {
        name: name.to_string(),
        kind: SymbolKind::Function,
        file_path: path.to_string(),
        line_start: line,
        line_end: line + 2,
        signature: signature.map(|s| s.to_string()),
        doc_comment: None,
        visibility: Some("pub".to_string()),
        score: -1.5,
        language: Language::Rust,
    }
}

#[test]
fn symbol_hits_become_code_hits() {
    let h = symbol_hit(sym("run", "src/a.rs", 3, Some("pub fn run()")));
    assert_eq!(h.snippet, "pub fn run()");
    assert_eq!(h.symbol_name.as_deref(), Some("run"));
    assert_eq!(h.symbol_kind, Some(SymbolKind::Function));
    assert_eq!(h.line_start, 3);
    assert_eq!(h.line_end, 5);
    assert_eq!(h.score, -1.5);
    let h = symbol_hit(sym("run", "src/a.rs", 3, None));
    assert_eq!(h.snippet, "");
}

#[test]
fn merge_puts_symbols_first_and_drops_repeated_locations() {
    let symbols = vec![sym("run", "src/a.rs", 3, Some("pub fn run()")), sym("go", "src/b.rs", 7, None)];
    let chunks = vec![
        chunk_hit("src/a.rs", 3, 0.5),
        chunk_hit("src/c.rs", 1, 0.4),
        chunk_hit("src/b.rs", 8, 0.3),
        chunk_hit("src/c.rs", 1, 0.2),
    ];
    let merged = merge_code_results(symbols, chunks, 10);
    let locs: Vec<(&str, usize)> = merged.iter().map(|r| (r.file_path.as_str(), r.line_start)).collect();
    assert_eq!(locs, vec![("src/a.rs", 3), ("src/b.rs", 7), ("src/c.rs", 1), ("src/b.rs", 8)]);
    assert_eq!(merged[0].symbol_name.as_deref(), Some("run"));
    assert_eq!(merged[2].score, 0.4);
}

#[test]
fn merge_keeps_at_most_the_limit() {
    let chunks = vec![chunk_hit("a", 1, 0.0), chunk_hit("b", 1, 0.0), chunk_hit("c", 1, 0.0)];
    let merged = merge_code_results(Vec::new(), chunks, 2);
    assert_eq!(merged.len(), 2);
    assert_eq!(merged[1].file_path, "b");
    assert!(merge_code_results::<f64>(Vec::new(), Vec::new(), 5).is_empty());
}

#[test]
fn dedup_keeps_first_hit_per_location() {
    let items = vec![chunk_hit("x", 1, 1.0), chunk_hit("x", 2, 2.0), chunk_hit("x", 1, 3.0)];
    let d = dedup_by_location(items);
    assert_eq!(d.len(), 2);
    assert_eq!(d[0].score, 1.0);
    assert_eq!(d[1].line_start, 2);
}

#[test]
fn search_limits() {
    assert_eq!(search_limit(None, 20, 100), 20);
    assert_eq!(search_limit(Some(5), 20, 100), 5);
    assert_eq!(search_limit(Some(500), 20, 100), 100);
    assert_eq!(candidate_limit(20), 40);
    let f = FindSymbolParams {
        query: "x".to_string(),
        kind: None,
        language: None,
        file_path_contains: None,
        limit: Some(1000),
    };
    assert_eq!(f.effective_limit(20, 100), 100);
    let s = SearchCodeParams { query: "x".to_string(), language: None, file_path_contains: None, limit: None };
    assert_eq!(s.effective_limit(20, 100), 20);
}

#[test]
fn dependency_query_defaults() {
    let q = QueryDepsParams { file: None, direction: None, limit: None };
    assert_eq!(q.directions(), (true, true));
    assert_eq!(q.effective_limit(), 50);
    assert_eq!(q.file_or_empty(), "");
    let q = QueryDepsParams { file: Some("src/main.rs".to_string()), direction: Some("outgoing".to_string()), limit: Some(3) };
    assert_eq!(q.directions(), (true, false));
    assert_eq!(q.effective_limit(), 3);
    assert_eq!(q.file_or_empty(), "src/main.rs");
    let q = QueryDepsParams { file: None, direction: Some("incoming".to_string()), limit: None };
    assert_eq!(q.directions(), (false, true));
    let q = QueryDepsParams { file: None, direction: None, limit: Some(1000) };
    assert_eq!(q.effective_limit(), 200);
    let q = QueryDepsParams { file: None, direction: Some("sideways".to_string()), limit: None };
    assert_eq!(q.directions(), (false, false));
}

#[test]
fn take_first_truncates() {
    assert_eq!(take_first(vec![1, 2, 3], 2), vec![1, 2]);
    assert_eq!(take_first(vec![1, 2, 3], 5), vec![1, 2, 3]);
    assert_eq!(take_first(Vec::<u8>::new(), 0), Vec::<u8>::new());
}

#[test]
fn reindex_and_status_defaults() {
    assert!(!ReindexParams { full: None }.is_full());
    assert!(ReindexParams { full: Some(true) }.is_full());
    assert_eq!(reported_provider(Some("ollama".to_string()), Some("jina-grep".to_string())).as_deref(), Some("ollama"));
    assert_eq!(reported_provider(None, Some("jina-grep".to_string())).as_deref(), Some("jina-grep"));
    assert_eq!(reported_provider(None, None), None);
}
