use code_indexer::parser::{create_parser, LanguageParser};
use code_indexer::types::{Language, SymbolKind};
use tree_sitter::{Parser, Query, QueryCursor, StreamingIterator};

/// Runs a tree-sitter query and lists, per match, the text of the name capture and the 1-based
/// line range of the range capture (any other capture when none is named), in the order the
/// query cursor yields them.
fn query_symbols(
    grammar: tree_sitter::Language,
    query_src: &str,
    name_capture: &str,
    range_capture: Option<&str>,
    source: &str,
) -> Vec<(String, usize, usize)> {
    let mut parser = Parser::new();
    parser.set_language(&grammar).unwrap();
    let tree = parser.parse(source, None).unwrap();
    let query = Query::new(&grammar, query_src).unwrap();
    let names = query.capture_names();
    let mut cursor = QueryCursor::new();
    let mut matches = cursor.matches(&query, tree.root_node(), source.as_bytes());
    let mut out = Vec::new();
    while let Some(m) = matches.next() {
        let mut name = String::new();
        let mut range = None;
        for cap in m.captures() {
            let cap_name = names[cap.index as usize];
            if cap_name == name_capture {
                name = cap.node.utf8_text(source.as_bytes()).unwrap().to_string();
            } else if range_capture.map_or(true, |r| r == cap_name) {
                range = Some((cap.node.start_position().row + 1, cap.node.end_position().row + 1));
            }
        }
        if let Some((a, b)) = range {
            out.push((name, a, b));
        }
    }
    out
}

const RUST_ITEMS: &str = r#"
    (function_item name: (identifier) @name) @func
    (struct_item name: (type_identifier) @name) @struc
    (enum_item name: (type_identifier) @name) @enu
    (trait_item name: (type_identifier) @name) @trt
    (const_item name: (identifier) @name) @cnst
    (static_item name: (identifier) @name) @stat
    (type_item name: (type_identifier) @name) @typ
    (impl_item type: (type_identifier) @name) @imp
"#;

const RUST_METHODS: &str = r#"
    (impl_item
        type: (type_identifier) @impl_name
        body: (declaration_list
            (function_item name: (identifier) @method_name) @method))
"#;

const RUST_SOURCE: &str = r#"use std::fmt;

/// A point.
pub struct Point { x: i32, y: i32 }

pub enum Shape { Circle, Square }

const LIMIT: u32 = 4;
static NAME: &str = "p";
type Pair = (i32, i32);

trait Area { fn area(&self) -> f64; }

impl Point {
    pub fn new() -> Self { Point { x: 0, y: 0 } }
    fn norm(&self) -> i32 {
        fn helper() -> i32 { 1 }
        helper()
    }
}

fn main() {
    fn inner() {}
}

impl fmt::Display for Point {
    fn fmt(&self, f: &mut fmt::Formatter) -> fmt::Result { Ok(()) }
}
"#;

#[test]
fn rust_symbols_follow_the_query_cursor() {
    let grammar: tree_sitter::Language = tree_sitter_rust::LANGUAGE.into();
    let items = query_symbols(grammar.clone(), RUST_ITEMS, "name", None, RUST_SOURCE);
    let methods = query_symbols(grammar, RUST_METHODS, "method_name", Some("method"), RUST_SOURCE);
    let mut expected = items;
    expected.extend(methods);
    let symbols = create_parser(Language::Rust).parse_symbols(RUST_SOURCE.as_bytes(), "p.rs");
    let got: Vec<(String, usize, usize)> =
        symbols.iter().map(|s| (s.name.clone(), s.line_start, s.line_end)).collect();
    assert_eq!(got, expected);
    assert!(symbols.iter().any(|s| s.kind == SymbolKind::Method && s.name == "norm"));
}

const C_QUERY: &str = r#"
    (function_definition declarator: (function_declarator declarator: (identifier) @name)) @func
    (struct_specifier name: (type_identifier) @name) @struc
    (enum_specifier name: (type_identifier) @name) @enu
    (declaration declarator: (function_declarator declarator: (identifier) @name)) @decl
"#;

const C_SOURCE: &str = r#"#include <stdio.h>

struct point { int x; int y; };
enum color { RED, GREEN };
int area(struct point p);
int f(int), g(int);
int x, h(void), (*fp)(int), k(char);

int add(int a, int b) {
    return a + b;
}

static void log_it(const char *m) { puts(m); }
"#;

#[test]
fn c_symbols_follow_the_query_cursor() {
    let grammar: tree_sitter::Language = tree_sitter_c::LANGUAGE.into();
    let expected = query_symbols(grammar, C_QUERY, "name", None, C_SOURCE);
    let symbols = create_parser(Language::C).parse_symbols(C_SOURCE.as_bytes(), "m.c");
    let got: Vec<(String, usize, usize)> =
        symbols.iter().map(|s| (s.name.clone(), s.line_start, s.line_end)).collect();
    assert_eq!(got, expected);
}
