use code_indexer::config::IndexerConfig;
use code_indexer::indexer::{
    compute_bytes_hash, delta_path, dep_edges, index_file, is_excluded_dir, needs_reindex,
    should_index, simple_glob_match, use_git_diff, FileWatcher, IndexStats,
};
use code_indexer::paths::{components, extension, file_name};
use code_indexer::types::{ImportKind, Import, Language};

const EMPTY_SHA256: &str = "e3b0c44298fc1c149afbf4c8996fb92427ae41e4649b934ca495991b7852b855";

#[test]
fn bytes_hash_is_hex_sha256() {
    assert_eq!(compute_bytes_hash(b""), EMPTY_SHA256);
    assert_eq!(
        compute_bytes_hash(b"abc"),
        "ba7816bf8f01cfea414140de5dae2223b00361a396177a9cb410ff61f20015ad"
    );
}

#[test]
fn reindex_only_when_hash_differs() {
    assert!(needs_reindex(&None, "abc"));
    assert!(needs_reindex(&Some("abd".to_string()), "abc"));
    assert!(!needs_reindex(&Some("abc".to_string()), "abc"));
}

#[test]
fn glob_patterns() {
    assert!(simple_glob_match("*.min.js", "app.min.js"));
    assert!(!simple_glob_match("*.min.js", "app.js"));
    assert!(simple_glob_match("*.pb.go", "api.pb.go"));
    assert!(simple_glob_match("test_*", "test_main.rs"));
    assert!(!simple_glob_match("test_*", "main_test.rs"));
    assert!(simple_glob_match("generated", "my.generated.rs"));
    assert!(!simple_glob_match("generated", "gen.rs"));
    // Every star stands for any run of characters, and a starred pattern matches the whole name.
    assert!(simple_glob_match("*.generated.*", "schema.generated.ts"));
    assert!(simple_glob_match("*.generated.*", "api.generated.ts"));
    assert!(!simple_glob_match("*.generated.*", "generated.ts"));
    assert!(!simple_glob_match("*.min.js", "app.min.js.map"));
    assert!(simple_glob_match("a*b*c", "axxbyyc"));
    assert!(simple_glob_match("a*b*c", "abc"));
    assert!(!simple_glob_match("a*b*c", "acb"));
    assert!(simple_glob_match("**", ""));
    assert!(simple_glob_match("*", "anything"));
    assert!(simple_glob_match("", "anything"));
}

#[test]
fn path_components_follow_std() {
    assert_eq!(components("src/main.rs"), vec!["src", "main.rs"]);
    assert_eq!(components("/repo//src/./lib.rs"), vec!["/", "repo", "src", "lib.rs"]);
    assert_eq!(components("./a/b/"), vec![".", "a", "b"]);
    assert_eq!(components("a/../b"), vec!["a", "..", "b"]);
    assert!(components("").is_empty());
    for p in ["src/main.rs", "/x/y", "./a/./b/", "a//b", "..", ".", "/", "x/.hidden"] {
        let expected: Vec<String> = std::path::Path::new(p)
            .components()
            .map(|c| c.as_os_str().to_string_lossy().to_string())
            .collect();
        assert_eq!(components(p), expected, "components of {p}");
    }
}

#[test]
fn file_names_and_extensions_follow_std() {
    for p in [
        "src/main.rs",
        "a/b.tar.gz",
        ".bashrc",
        "dir/",
        "..",
        "/",
        "x/..",
        "name.",
        "a/b/.",
        "noext",
        ".x.y",
    ] {
        let path = std::path::Path::new(p);
        let name = path.file_name().map(|n| n.to_string_lossy().to_string());
        let ext = path.extension().map(|n| n.to_string_lossy().to_string());
        assert_eq!(file_name(p), name, "file name of {p}");
        assert_eq!(extension(p), ext, "extension of {p}");
    }
}

#[test]
fn excluded_directories() {
    let config = IndexerConfig::default();
    assert!(is_excluded_dir(&config, "repo/node_modules/dep.ts"));
    assert!(is_excluded_dir(&config, "target/debug/build.rs"));
    assert!(!is_excluded_dir(&config, "repo/app.ts"));
    assert!(!is_excluded_dir(&config, "repo/my_target/app.ts"));
}

#[test]
fn index_respects_excludes() {
    let config = IndexerConfig::default();
    assert!(should_index(&config, "repo/app.ts", Some(26)));
    assert!(!should_index(&config, "repo/node_modules/dep.ts", Some(24)));
}

#[test]
fn should_index_checks_language_size_and_patterns() {
    let config = IndexerConfig::default();
    assert!(should_index(&config, "src/lib.rs", None));
    assert!(!should_index(&config, "README.md", Some(10)));
    assert!(!should_index(&config, "Makefile", Some(10)));
    assert!(should_index(&config, "src/big.rs", Some(1_048_576)));
    assert!(!should_index(&config, "src/big.rs", Some(1_048_577)));
    assert!(!should_index(&config, "api/api.pb.go", Some(10)));
    assert!(should_index(&config, "api/api.go", Some(10)));
    assert!(!should_index(&config, "src/schema.generated.ts", Some(10)));
}

const CACHE_SOURCE: &str = r#"
use std::collections::HashMap;

/// A cache for storing key-value pairs.
pub struct Cache {
    data: HashMap<String, String>,
}

impl Cache {
    /// Create a new Cache with the given name.
    pub fn new() -> Self {
        Self { data: HashMap::new() }
    }

    pub fn get(&self, key: &str) -> Option<&String> {
        self.data.get(key)
    }

    pub fn set(&mut self, key: String, value: String) {
        self.data.insert(key, value);
    }
}

pub fn create_cache() -> Cache {
    Cache::new()
}
"#;

#[test]
fn indexing_a_rust_file() {
    let f = index_file("lib.rs", CACHE_SOURCE.as_bytes()).unwrap();
    assert_eq!(f.language, Language::Rust);
    assert_eq!(f.content_hash, compute_bytes_hash(CACHE_SOURCE.as_bytes()));
    let names: Vec<&str> = f.symbols.iter().map(|s| s.name.as_str()).collect();
    for n in ["Cache", "new", "get", "set", "create_cache"] {
        assert!(names.contains(&n), "should find {n}");
    }
    assert!(f.symbols.len() >= 4);
    assert_eq!(f.deps.len(), 1);
    assert_eq!(f.deps[0].target_path, "std::collections::HashMap");
    assert_eq!(f.deps[0].source_file, "lib.rs");
    assert!(!f.chunks.is_empty());
}

#[test]
fn indexing_skips_unknown_languages() {
    assert!(index_file("notes.txt", b"hello").is_none());
    assert!(index_file("Makefile", b"all:").is_none());
    let py = index_file("lib.py", b"def f():\n    pass\n").unwrap();
    assert_eq!(py.language, Language::Python);
    assert!(py.symbols.is_empty());
    assert_eq!(py.chunks.len(), 1);
}

#[test]
fn dep_edges_keep_every_import() {
    let imports = vec![
        Import {
            source_file: "a.ts".to_string(),
            target_path: "./b".to_string(),
            kind: ImportKind::Import,
            line_number: 1,
        },
        Import {
            source_file: "a.ts".to_string(),
            target_path: "fs".to_string(),
            kind: ImportKind::Require,
            line_number: 4,
        },
    ];
    let edges = dep_edges(imports);
    assert_eq!(edges.len(), 2);
    assert_eq!(edges[0].target_path, "./b");
    assert_eq!(edges[1].kind, ImportKind::Require);
    assert_eq!(edges[1].line_number, 4);
}

#[test]
fn stats_count_a_run() {
    let mut stats = IndexStats::default();
    stats.record_indexed(3, 2);
    stats.record_indexed(4, 1);
    stats.record_skipped();
    assert_eq!(stats.files_indexed, 2);
    assert_eq!(stats.symbols_found, 7);
    assert_eq!(stats.chunks_created, 3);
    assert_eq!(stats.files_skipped, 1);
}

#[test]
fn incremental_runs_choose_their_source() {
    assert!(use_git_diff(&Some("abc".to_string()), true));
    assert!(!use_git_diff(&Some("abc".to_string()), false));
    assert!(!use_git_diff(&None, true));
    assert_eq!(delta_path(Some("new.rs".to_string()), Some("old.rs".to_string())).as_deref(), Some("new.rs"));
    assert_eq!(delta_path(None, Some("old.rs".to_string())).as_deref(), Some("old.rs"));
    assert_eq!(delta_path(None, None), None);
}

#[test]
fn watcher_keeps_its_quiet_period() {
    assert_eq!(FileWatcher::new(500).debounce_ms(), 500);
}

#[test]
fn admitted_files_are_indexed() {
    let config = IndexerConfig::default();
    for path in ["src/lib.rs", "web/app.tsx", "include/x.hpp", "tool.py", "Main.java"] {
        assert!(should_index(&config, path, Some(10)), "{path} is admitted");
        assert!(index_file(path, b"x").is_some(), "{path} is indexed");
    }
}
