use code_indexer::parser::{create_parser, parser_for_extension, LanguageParser};
use code_indexer::types::{ImportKind, Language, SymbolKind};

const RUST_SAMPLE: &str = r#"//! Module documentation for the sample.

use std::collections::HashMap;
use std::path::Path;

/// A configuration holder.
pub struct Config {
    pub name: String,
    pub values: HashMap<String, String>,
}

/// Private helper enum.
enum Status {
    Active,
    Inactive,
}

pub const MAX_RETRIES: u32 = 3;

/// Process the given input string and return a result.
pub fn process_data(input: &str) -> Result<String, Box<dyn std::error::Error>> {
    let trimmed = input.trim();
    if trimmed.is_empty() {
        return Err("empty input".into());
    }
    Ok(trimmed.to_uppercase())
}

impl Config {
    /// Create a new Config with the given name.
    pub fn new(name: &str) -> Self {
        Self {
            name: name.to_string(),
            values: HashMap::new(),
        }
    }

    fn internal_helper(&self) -> bool {
        !self.values.is_empty()
    }
}

trait Processor {
    fn process(&self, data: &[u8]) -> Vec<u8>;
}
"#;

const SAMPLE_PATH: &str = "tests/fixtures/rust_sample.rs";

#[test]
fn test_rust_parser_symbols() {
    let parser = create_parser(Language::Rust);
    let source = RUST_SAMPLE.as_bytes().to_vec();
    let symbols = parser.parse_symbols(&source, SAMPLE_PATH);

    let names: Vec<&str> = symbols.iter().map(|s| s.name.as_str()).collect();
    assert!(names.contains(&"Config"), "should find struct Config");
    assert!(names.contains(&"Status"), "should find enum Status");
    assert!(names.contains(&"process_data"), "should find fn process_data");
    assert!(names.contains(&"MAX_RETRIES"), "should find const MAX_RETRIES");
    assert!(names.contains(&"new"), "should find method new");
    assert!(names.contains(&"Processor"), "should find trait Processor");

    let process_data = symbols.iter().find(|s| s.name == "process_data").unwrap();
    assert_eq!(process_data.kind, SymbolKind::Function);
    assert_eq!(process_data.language, Language::Rust);
    assert!(process_data.signature.as_deref().unwrap().contains("process_data"));
    assert!(process_data
        .doc_comment
        .as_deref()
        .unwrap()
        .contains("Process the given input"));
    assert_eq!(process_data.visibility.as_deref(), Some("pub"));
}

#[test]
fn test_rust_parser_imports() {
    let parser = create_parser(Language::Rust);
    let source = RUST_SAMPLE.as_bytes().to_vec();
    let imports = parser.parse_imports(&source, SAMPLE_PATH);

    assert!(imports.len() >= 2);
    let targets: Vec<&str> = imports.iter().map(|i| i.target_path.as_str()).collect();
    assert!(targets.contains(&"std::collections::HashMap"));
    assert!(targets.contains(&"std::path::Path"));
}

#[test]
fn test_rust_parser_chunks() {
    let parser = create_parser(Language::Rust);
    let source = RUST_SAMPLE.as_bytes().to_vec();
    let chunks = parser.chunk_file(&source, SAMPLE_PATH);

    assert!(!chunks.is_empty(), "should produce at least one chunk");
    for chunk in &chunks {
        assert!(!chunk.content.is_empty());
        assert!(!chunk.content_hash.is_empty());
        assert!(chunk.line_start <= chunk.line_end);
    }
}

#[test]
fn test_parser_dispatch() {
    for lang in [
        Language::Rust,
        Language::TypeScript,
        Language::Python,
        Language::Go,
        Language::Java,
        Language::C,
        Language::Cpp,
        Language::Ruby,
        Language::Swift,
    ] {
        let parser = create_parser(lang);
        assert_eq!(parser.language(), lang);
        assert!(!parser.extensions().is_empty());
    }
}

#[test]
fn rust_symbol_details_follow_the_source() {
    let parser = create_parser(Language::Rust);
    let symbols = parser.parse_symbols(RUST_SAMPLE.as_bytes(), SAMPLE_PATH);
    let config = symbols.iter().find(|s| s.name == "Config").unwrap();
    assert_eq!(config.kind, SymbolKind::Struct);
    assert_eq!(config.line_start, 7);
    assert_eq!(config.line_end, 10);
    assert_eq!(config.signature.as_deref(), Some("pub struct Config {"));
    assert_eq!(config.doc_comment.as_deref(), Some("A configuration holder."));
    assert_eq!(config.file_path, SAMPLE_PATH);

    let status = symbols.iter().find(|s| s.name == "Status").unwrap();
    assert_eq!(status.kind, SymbolKind::Enum);
    assert_eq!(status.visibility, None);

    let max = symbols.iter().find(|s| s.name == "MAX_RETRIES").unwrap();
    assert_eq!(max.kind, SymbolKind::Constant);

    // A function inside an impl block is found both as a function and as a method.
    let new_fn = symbols.iter().find(|s| s.name == "new").unwrap();
    assert_eq!(new_fn.kind, SymbolKind::Function);
    let new = symbols
        .iter()
        .find(|s| s.name == "new" && s.kind == SymbolKind::Method)
        .unwrap();
    assert_eq!(new.parent.as_deref(), Some("Config"));
    assert_eq!(new.doc_comment.as_deref(), Some("Create a new Config with the given name."));

    let helper = symbols
        .iter()
        .find(|s| s.name == "internal_helper" && s.kind == SymbolKind::Method)
        .unwrap();
    assert_eq!(helper.visibility, None);

    let processor = symbols.iter().find(|s| s.name == "Processor").unwrap();
    assert_eq!(processor.kind, SymbolKind::Trait);
}

#[test]
fn rust_imports_carry_kind_and_line() {
    let parser = create_parser(Language::Rust);
    let imports = parser.parse_imports(RUST_SAMPLE.as_bytes(), SAMPLE_PATH);
    let hashmap = imports
        .iter()
        .find(|i| i.target_path == "std::collections::HashMap")
        .unwrap();
    assert_eq!(hashmap.kind, ImportKind::Use);
    assert_eq!(hashmap.line_number, 3);
    assert_eq!(hashmap.source_file, SAMPLE_PATH);
}

#[test]
fn rust_chunks_tile_the_file() {
    let parser = create_parser(Language::Rust);
    let chunks = parser.chunk_file(RUST_SAMPLE.as_bytes(), SAMPLE_PATH);
    let lines = RUST_SAMPLE.lines().count();
    assert_eq!(chunks[0].line_start, 1);
    assert_eq!(chunks.last().unwrap().line_end, lines);
    for pair in chunks.windows(2) {
        assert_eq!(pair[1].line_start, pair[0].line_end + 1);
    }
    for chunk in &chunks {
        assert_eq!(chunk.language, Language::Rust);
        assert_eq!(chunk.content_hash.len(), 64);
        assert!(chunk.preamble.starts_with("tests/fixtures/rust_sample.rs:"));
        assert!(chunk.preamble.ends_with("[rust]"));
    }
}

const TS_SAMPLE: &str = r#"import { readFile } from "fs";
import * as path from 'path';

export interface Options {
  verbose: boolean;
}

export class Loader {
  load(name: string): string {
    return name;
  }
}

export function run(opts: Options): void {}

const helper = () => 1;
"#;

#[test]
fn typescript_symbols_and_imports() {
    let parser = create_parser(Language::TypeScript);
    let symbols = parser.parse_symbols(TS_SAMPLE.as_bytes(), "src/app.ts");
    let names: Vec<&str> = symbols.iter().map(|s| s.name.as_str()).collect();
    assert!(names.contains(&"Options"));
    assert!(names.contains(&"Loader"));
    assert!(names.contains(&"run"));
    for s in &symbols {
        assert_eq!(s.language, Language::TypeScript);
        assert_eq!(s.file_path, "src/app.ts");
    }
    let loader = symbols.iter().find(|s| s.name == "Loader").unwrap();
    assert_eq!(loader.kind, SymbolKind::Class);

    let imports = parser.parse_imports(TS_SAMPLE.as_bytes(), "src/app.ts");
    let targets: Vec<&str> = imports.iter().map(|i| i.target_path.as_str()).collect();
    assert!(targets.contains(&"fs"));
    assert!(targets.contains(&"path"));
    for i in &imports {
        assert_eq!(i.kind, ImportKind::Import);
    }
}

const C_SAMPLE: &str = r#"#include <stdio.h>
#include "util.h"

struct point {
    int x;
    int y;
};

int add(int a, int b) {
    return a + b;
}
"#;

#[test]
fn c_symbols_and_includes() {
    let parser = create_parser(Language::C);
    let symbols = parser.parse_symbols(C_SAMPLE.as_bytes(), "src/main.c");
    let add = symbols.iter().find(|s| s.name == "add").unwrap();
    assert_eq!(add.kind, SymbolKind::Function);
    assert_eq!(add.language, Language::C);
    assert_eq!(add.line_start, 9);

    let imports = parser.parse_imports(C_SAMPLE.as_bytes(), "src/main.c");
    let targets: Vec<&str> = imports.iter().map(|i| i.target_path.as_str()).collect();
    assert_eq!(targets, vec!["stdio.h", "util.h"]);
    for i in &imports {
        assert_eq!(i.kind, ImportKind::Include);
    }
}

#[test]
fn cpp_parser_reads_structs() {
    let source = "#include <vector>\nstruct Widget {\n  int size;\n};\nclass Gadget {};\n";
    let parser = create_parser(Language::Cpp);
    assert_eq!(parser.language(), Language::Cpp);
    let symbols = parser.parse_symbols(source.as_bytes(), "w.cpp");
    let widget = symbols.iter().find(|s| s.name == "Widget").unwrap();
    assert_eq!(widget.kind, SymbolKind::Struct);
    assert_eq!(widget.language, Language::Cpp);
    // Classes are not among the definitions the C family parser looks for.
    assert!(!symbols.iter().any(|s| s.name == "Gadget"));
    let imports = parser.parse_imports(source.as_bytes(), "w.cpp");
    assert_eq!(imports.len(), 1);
    assert_eq!(imports[0].target_path, "vector");
}

#[test]
fn plain_text_languages_chunk_without_symbols() {
    let source = "def process(data):\n    return data.strip()\n";
    let parser = create_parser(Language::Python);
    assert!(parser.parse_symbols(source.as_bytes(), "lib.py").is_empty());
    assert!(parser.parse_imports(source.as_bytes(), "lib.py").is_empty());
    let chunks = parser.chunk_file(source.as_bytes(), "lib.py");
    assert_eq!(chunks.len(), 1);
    assert_eq!(chunks[0].content, "def process(data):\n    return data.strip()");
    assert_eq!(chunks[0].line_start, 1);
    assert_eq!(chunks[0].line_end, 2);
    assert_eq!(chunks[0].preamble, "lib.py:1-2 [python]");
}

#[test]
fn parser_for_extension_follows_the_language_table() {
    assert_eq!(parser_for_extension("rs").unwrap().language(), Language::Rust);
    assert_eq!(parser_for_extension("tsx").unwrap().language(), Language::TypeScript);
    assert_eq!(parser_for_extension("h").unwrap().language(), Language::C);
    assert_eq!(parser_for_extension("hpp").unwrap().language(), Language::Cpp);
    assert!(parser_for_extension("txt").is_none());
    assert!(parser_for_extension("").is_none());
}

#[test]
fn empty_source_gives_nothing() {
    let parser = create_parser(Language::Rust);
    assert!(parser.parse_symbols(b"", "e.rs").is_empty());
    assert!(parser.parse_imports(b"", "e.rs").is_empty());
    assert!(parser.chunk_file(b"", "e.rs").is_empty());
}

#[test]
fn rust_doc_comment_lines_are_joined() {
    let symbols = create_parser(Language::Rust).parse_symbols(b"/// a\n/// b\npub fn f() {}\n", "a.rs");
    assert_eq!(symbols.len(), 1);
    let f = &symbols[0];
    assert_eq!(f.name, "f");
    assert_eq!(f.kind, SymbolKind::Function);
    assert_eq!(f.language, Language::Rust);
    assert_eq!(f.file_path, "a.rs");
    assert_eq!((f.line_start, f.line_end), (3, 3));
    assert_eq!(f.signature.as_deref(), Some("pub fn f() {}"));
    assert_eq!(f.doc_comment.as_deref(), Some("a b"));
    assert_eq!(f.visibility.as_deref(), Some("pub"));
    assert_eq!(f.parent, None);
}

#[test]
fn rust_impl_blocks_give_impl_and_methods() {
    let symbols = create_parser(Language::Rust).parse_symbols(b"impl S {\n    fn m(&self) {}\n}\n", "s.rs");
    let m = symbols.iter().find(|s| s.name == "m" && s.kind == SymbolKind::Method).unwrap();
    assert_eq!(m.parent.as_deref(), Some("S"));
    assert_eq!((m.line_start, m.line_end), (2, 2));
    assert_eq!(m.visibility, None);
    let s = symbols.iter().find(|s| s.name == "S").unwrap();
    assert_eq!(s.kind, SymbolKind::Impl);
    assert_eq!(s.parent, None);
    assert_eq!((s.line_start, s.line_end), (1, 3));
    for sym in &symbols {
        assert_eq!(sym.language, Language::Rust);
        assert_eq!(sym.file_path, "s.rs");
    }
}

#[test]
fn typescript_exported_function() {
    let symbols = create_parser(Language::TypeScript).parse_symbols(b"export function main() {}", "app.ts");
    assert_eq!(symbols.len(), 1);
    let f = &symbols[0];
    assert_eq!(f.name, "main");
    assert_eq!(f.kind, SymbolKind::Function);
    assert_eq!((f.line_start, f.line_end), (1, 1));
    assert_eq!(f.signature.as_deref(), Some("function main() {}"));
    assert_eq!(f.doc_comment, None);
    assert_eq!(f.visibility, None);
    assert_eq!(f.parent, None);
}

#[test]
fn c_single_function() {
    let symbols = create_parser(Language::C).parse_symbols(b"int add(int a, int b) { return a + b; }", "m.c");
    assert_eq!(symbols.len(), 1);
    let f = &symbols[0];
    assert_eq!(f.name, "add");
    assert_eq!(f.kind, SymbolKind::Function);
    assert_eq!(f.language, Language::C);
    assert_eq!((f.line_start, f.line_end), (1, 1));
    assert_eq!(f.signature.as_deref(), Some("int add(int a, int b) { return a + b; }"));
    assert_eq!(f.file_path, "m.c");
    assert_eq!(f.parent, None);
}

#[test]
fn c_declaration_of_several_functions() {
    let symbols = create_parser(Language::C).parse_symbols(b"int f(int), g(int);\n", "m.c");
    let names: Vec<&str> = symbols.iter().map(|s| s.name.as_str()).collect();
    assert_eq!(names, vec!["f", "g"]);
    assert!(symbols.iter().all(|s| s.kind == SymbolKind::Function && s.line_start == 1 && s.line_end == 1));
}
