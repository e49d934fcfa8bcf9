use code_indexer::storage::{
    chunk_from_row, dep_edge_from_row, fts_prefix_query, like_pattern, parse_import_kind,
    parse_import_kind_to_str, parse_language, parse_symbol_kind, symbol_result_from_row, ChunkRow,
    DepRow, SymbolRow,
};
use code_indexer::types::{ImportKind, Language, SymbolKind};

#[test]
fn stored_names_read_back() {
    for l in [
        Language::Rust,
        Language::TypeScript,
        Language::Python,
        Language::Go,
        Language::Java,
        Language::C,
        Language::Cpp,
        Language::Ruby,
        Language::Swift,
    ] {
        assert_eq!(parse_language(l.as_str()), l);
        assert_eq!(l.to_string(), l.as_str());
    }
    for k in [
        SymbolKind::Function,
        SymbolKind::Method,
        SymbolKind::Struct,
        SymbolKind::Class,
        SymbolKind::Interface,
        SymbolKind::Trait,
        SymbolKind::Enum,
        SymbolKind::Constant,
        SymbolKind::Variable,
        SymbolKind::Module,
        SymbolKind::Type,
        SymbolKind::Impl,
    ] {
        assert_eq!(parse_symbol_kind(k.as_str()), k);
    }
    for k in [ImportKind::Use, ImportKind::Import, ImportKind::Include, ImportKind::Require] {
        assert_eq!(parse_import_kind(parse_import_kind_to_str(k)), k);
    }
}

#[test]
fn unknown_names_fall_back() {
    assert_eq!(parse_symbol_kind("gizmo"), SymbolKind::Function);
    assert_eq!(parse_language("cobol"), Language::Rust);
    assert_eq!(parse_import_kind("grab"), ImportKind::Import);
    assert_eq!(parse_import_kind_to_str(ImportKind::Include), "include");
}

#[test]
fn search_patterns() {
    assert_eq!(fts_prefix_query("proc"), "proc*");
    assert_eq!(like_pattern("proc"), "%proc%");
}

#[test]
fn rows_become_records() {
    let r = symbol_result_from_row(SymbolRow {
        name: "process_data".to_string(),
        kind: "function".to_string(),
        language: "rust".to_string(),
        file_path: "src/main.rs".to_string(),
        line_start: 10,
        line_end: 25,
        signature: Some("fn process_data()".to_string()),
        doc_comment: None,
        visibility: Some("pub".to_string()),
        score: -2.5f64,
    });
    assert_eq!(r.name, "process_data");
    assert_eq!(r.kind, SymbolKind::Function);
    assert_eq!(r.language, Language::Rust);
    assert_eq!(r.line_start, 10);
    assert_eq!(r.line_end, 25);
    assert_eq!(r.score, -2.5);

    let c = chunk_from_row(ChunkRow {
        file_path: "src/main.rs".to_string(),
        content: "fn hello() {}".to_string(),
        preamble: "mod main".to_string(),
        content_hash: "abc123".to_string(),
        line_start: 1,
        line_end: 3,
        language: "typescript".to_string(),
    });
    assert_eq!(c.language, Language::TypeScript);
    assert_eq!(c.line_end, 3);
    assert_eq!(c.preamble, "mod main");

    let e = dep_edge_from_row(DepRow {
        source_file: "a.c".to_string(),
        target_path: "stdio.h".to_string(),
        kind: "include".to_string(),
        line_number: 1,
    });
    assert_eq!(e.kind, ImportKind::Include);
    assert_eq!(e.target_path, "stdio.h");
}

#[test]
fn languages_by_extension() {
    assert_eq!(Language::from_extension("rs"), Some(Language::Rust));
    assert_eq!(Language::from_extension("tsx"), Some(Language::TypeScript));
    assert_eq!(Language::from_extension("cxx"), Some(Language::Cpp));
    assert_eq!(Language::from_extension("swift"), Some(Language::Swift));
    assert_eq!(Language::from_extension("RS"), None);
    for l in [Language::C, Language::Cpp, Language::TypeScript] {
        for e in l.extensions() {
            assert_eq!(Language::from_extension(e), Some(l));
        }
    }
}
