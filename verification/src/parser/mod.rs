//! Language parsers: symbol, import and chunk extraction per language.
use vstd::prelude::*;

pub mod extract;
pub mod rust;
pub mod typescript;
pub mod c_cpp;

use crate::chunker::{chunked_by_lines, chunks_are};
use crate::parser::extract::{imports_are, root_boundaries, symbols_are, ImportMatch, SymbolMatch};
use crate::syntax::{spec_source_text, SyntaxTree};
use crate::types::{Chunk, Import, ImportKind, Language, Symbol};

verus! {

/// The definitions the parser of `language` finds in the syntax tree `t` of `source`.
pub open spec fn symbol_matches_of(language: Language, t: SyntaxTree, source: Seq<u8>) -> Seq<
    SymbolMatch,
> {
    match language {
        Language::Rust => rust::rust_symbol_matches(t, source),
        Language::TypeScript => typescript::ts_symbol_matches(t),
        Language::C | Language::Cpp => c_cpp::c_symbols_upto(t, t.nodes@.len() as int),
        _ => Seq::empty(),
    }
}

/// The imports the parser of `language` finds in the syntax tree `t` of `source`.
pub open spec fn import_matches_of(language: Language, t: SyntaxTree, source: Seq<u8>) -> Seq<
    ImportMatch,
> {
    match language {
        Language::Rust => rust::rust_imports_upto(t, source, t.nodes@.len() as int),
        Language::TypeScript => typescript::ts_imports_upto(t, source, t.nodes@.len() as int),
        Language::C | Language::Cpp => c_cpp::c_imports_upto(t, source, t.nodes@.len() as int),
        _ => Seq::empty(),
    }
}

/// The kind of the imports of `language`: `use` in Rust, `#include` in C and C++, `import`
/// otherwise.
pub open spec fn import_kind_of(language: Language) -> ImportKind {
    match language {
        Language::Rust => ImportKind::Use,
        Language::C | Language::Cpp => ImportKind::Include,
        _ => ImportKind::Import,
    }
}

/// `res` is empty, or holds the symbols that the parser of `language` extracts from some
/// well-formed syntax tree, its node texts read from `source`. Which tree tree-sitter builds
/// from `source` is not stated here: its trees and nodes are opaque values to the library.
#[verifier::opaque]
pub open spec fn symbols_of_some_tree(
    res: Seq<Symbol>,
    source: Seq<u8>,
    path: Seq<char>,
    language: Language,
) -> bool {
    res.len() == 0 || exists|t: SyntaxTree|
        t.wf() && #[trigger] symbols_are(res, t, source, path, language, symbol_matches_of(language, t, source))
}

/// `res` is empty, or holds the imports that the parser of `language` extracts from some
/// well-formed syntax tree, its node texts read from `source`. Which tree tree-sitter builds
/// from `source` is not stated here: its trees and nodes are opaque values to the library.
#[verifier::opaque]
pub open spec fn imports_of_some_tree(
    res: Seq<Import>,
    source: Seq<u8>,
    path: Seq<char>,
    language: Language,
) -> bool {
    res.len() == 0 || exists|t: SyntaxTree|
        t.wf() && #[trigger] imports_are(res, t, path, import_kind_of(language), import_matches_of(language, t, source))
}

/// `res` holds the chunks of `source` cut at the first lines of the top-level nodes of some
/// well-formed syntax tree, or cut at no line. Which tree tree-sitter builds from `source` is
/// not stated here: its trees and nodes are opaque values to the library.
#[verifier::opaque]
pub open spec fn chunks_at_some_tree(
    res: Seq<Chunk>,
    source: Seq<u8>,
    path: Seq<char>,
    language: Language,
) -> bool {
    (exists|t: SyntaxTree|
        t.wf() && t.nodes@.len() >= 1 && #[trigger] chunks_are(
            res,
            spec_source_text(source),
            path,
            language,
            root_boundaries(t),
        )) || chunks_are(res, spec_source_text(source), path, language, Seq::empty())
}

/// What every language parser offers.
pub trait LanguageParser {
    /// The language the parser reads.
    spec fn spec_language(&self) -> Language;

    /// The language the parser reads.
    fn language(&self) -> (l: Language)
        ensures
            l == self.spec_language(),
    ;

    /// The file extensions of the language.
    fn extensions(&self) -> (res: Vec<&'static str>)
        ensures
            res@.len() == self.spec_language().spec_extensions().len(),
            forall|i: int|
                0 <= i < res@.len() ==> #[trigger] res@[i]@ == self.spec_language().spec_extensions()[i],
    ;

    /// The symbol definitions in `source`, a file at `file_path`.
    fn parse_symbols(&self, source: &[u8], file_path: &str) -> (res: Vec<Symbol>)
        ensures
            forall|k: int|
                0 <= k < res@.len() ==> (#[trigger] res@[k]).language == self.spec_language()
                    && res@[k].file_path@ == file_path@,
    ;

    /// The imports in `source`, a file at `file_path`.
    fn parse_imports(&self, source: &[u8], file_path: &str) -> (res: Vec<Import>)
        ensures
            forall|k: int| 0 <= k < res@.len() ==> (#[trigger] res@[k]).source_file@ == file_path@,
    ;

    /// The chunks of `source`, a file at `file_path`: its text cut by lines at some boundaries.
    fn chunk_file(&self, source: &[u8], file_path: &str) -> (res: Vec<Chunk>)
        ensures
            chunked_by_lines(res@, spec_source_text(source@), file_path@, self.spec_language()),
    ;
}

} // verus!
verus! {

/// The parser for a language whose grammar the library does not carry: it finds no symbols
/// and no imports, and cuts the text into chunks by lines alone.
pub struct PlainTextParser {
    language: Language,
}

impl PlainTextParser {
    /// A parser for `language` that reads text only.
    pub fn new(language: Language) -> (p: Self)
        ensures
            p.spec_language() == language,
    {
        PlainTextParser { language }
    }
}

impl LanguageParser for PlainTextParser {
    closed spec fn spec_language(&self) -> Language {
        self.language
    }

    fn language(&self) -> (l: Language) {
        self.language
    }

    fn extensions(&self) -> (res: Vec<&'static str>) {
        self.language.extensions()
    }

    /// No symbols: the library has no grammar for this language.
    fn parse_symbols(&self, source: &[u8], file_path: &str) -> (res: Vec<Symbol>)
        ensures
            res@.len() == 0,
    {
        Vec::new()
    }

    /// No imports: the library has no grammar for this language.
    fn parse_imports(&self, source: &[u8], file_path: &str) -> (res: Vec<Import>)
        ensures
            res@.len() == 0,
    {
        Vec::new()
    }

    /// The source text cut by lines at no boundary.
    fn chunk_file(&self, source: &[u8], file_path: &str) -> (res: Vec<Chunk>)
        ensures
            chunks_are(res@, spec_source_text(source@), file_path@, self.spec_language(), Seq::empty()),
    {
        let text = crate::syntax::source_text(source);
        let b: Vec<usize> = Vec::new();
        let res = crate::chunker::chunk_by_lines(text.as_str(), file_path, self.language, b.as_slice());
        assert(b@ =~= Seq::<usize>::empty());
        proof {
            reveal(chunked_by_lines);
        }
        res
    }
}

/// A parser of any language the library reads, chosen when the language is known only at
/// run time.
pub enum AnyParser {
    Rust(rust::RustParser),
    TypeScript(typescript::TypeScriptParser),
    C(c_cpp::CParser),
    Cpp(c_cpp::CppParser),
    PlainText(PlainTextParser),
}

impl LanguageParser for AnyParser {
    open spec fn spec_language(&self) -> Language {
        match self {
            AnyParser::Rust(p) => p.spec_language(),
            AnyParser::TypeScript(p) => p.spec_language(),
            AnyParser::C(p) => p.spec_language(),
            AnyParser::Cpp(p) => p.spec_language(),
            AnyParser::PlainText(p) => p.spec_language(),
        }
    }

    fn language(&self) -> (l: Language) {
        match self {
            AnyParser::Rust(p) => p.language(),
            AnyParser::TypeScript(p) => p.language(),
            AnyParser::C(p) => p.language(),
            AnyParser::Cpp(p) => p.language(),
            AnyParser::PlainText(p) => p.language(),
        }
    }

    fn extensions(&self) -> (res: Vec<&'static str>) {
        match self {
            AnyParser::Rust(p) => p.extensions(),
            AnyParser::TypeScript(p) => p.extensions(),
            AnyParser::C(p) => p.extensions(),
            AnyParser::Cpp(p) => p.extensions(),
            AnyParser::PlainText(p) => p.extensions(),
        }
    }

    fn parse_symbols(&self, source: &[u8], file_path: &str) -> (res: Vec<Symbol>)
        ensures
            self is PlainText ==> res@.len() == 0,
            !(self is PlainText) ==> symbols_of_some_tree(res@, source@, file_path@, self.spec_language()),
    {
        match self {
            AnyParser::Rust(p) => p.parse_symbols(source, file_path),
            AnyParser::TypeScript(p) => p.parse_symbols(source, file_path),
            AnyParser::C(p) => p.parse_symbols(source, file_path),
            AnyParser::Cpp(p) => p.parse_symbols(source, file_path),
            AnyParser::PlainText(p) => p.parse_symbols(source, file_path),
        }
    }

    fn parse_imports(&self, source: &[u8], file_path: &str) -> (res: Vec<Import>)
        ensures
            self is PlainText ==> res@.len() == 0,
            !(self is PlainText) ==> imports_of_some_tree(res@, source@, file_path@, self.spec_language()),
    {
        match self {
            AnyParser::Rust(p) => p.parse_imports(source, file_path),
            AnyParser::TypeScript(p) => p.parse_imports(source, file_path),
            AnyParser::C(p) => p.parse_imports(source, file_path),
            AnyParser::Cpp(p) => p.parse_imports(source, file_path),
            AnyParser::PlainText(p) => p.parse_imports(source, file_path),
        }
    }

    fn chunk_file(&self, source: &[u8], file_path: &str) -> (res: Vec<Chunk>)
        ensures
            self is PlainText ==> chunks_are(
                res@,
                spec_source_text(source@),
                file_path@,
                self.spec_language(),
                Seq::empty(),
            ),
            !(self is PlainText) ==> chunks_at_some_tree(res@, source@, file_path@, self.spec_language()),
    {
        match self {
            AnyParser::Rust(p) => p.chunk_file(source, file_path),
            AnyParser::TypeScript(p) => p.chunk_file(source, file_path),
            AnyParser::C(p) => p.chunk_file(source, file_path),
            AnyParser::Cpp(p) => p.chunk_file(source, file_path),
            AnyParser::PlainText(p) => p.chunk_file(source, file_path),
        }
    }
}

/// The languages whose grammar the library carries: Rust, TypeScript, C and C++.
pub open spec fn has_grammar(language: Language) -> bool {
    language == Language::Rust || language == Language::TypeScript || language == Language::C
        || language == Language::Cpp
}

/// The parser for a language. The languages with a grammar get their own parser; the others
/// are read as plain text.
pub fn create_parser(language: Language) -> (p: AnyParser)
    ensures
        p.spec_language() == language,
        p is PlainText <==> !has_grammar(language),
        language == Language::Rust <==> p is Rust,
        language == Language::TypeScript <==> p is TypeScript,
        language == Language::C <==> p is C,
        language == Language::Cpp <==> p is Cpp,
{
    match language {
        Language::Rust => AnyParser::Rust(rust::RustParser::new()),
        Language::TypeScript => AnyParser::TypeScript(typescript::TypeScriptParser::new()),
        Language::C => AnyParser::C(c_cpp::CParser::new()),
        Language::Cpp => AnyParser::Cpp(c_cpp::CppParser::new()),
        _ => AnyParser::PlainText(PlainTextParser::new(language)),
    }
}

/// The parser for the language of a file extension, if the extension denotes one.
pub fn parser_for_extension(ext: &str) -> (p: Option<AnyParser>)
    ensures
        match p {
            Some(q) => crate::types::spec_from_extension(ext@) == Some(q.spec_language()),
            None => crate::types::spec_from_extension(ext@) is None,
        },
{
    match Language::from_extension(ext) {
        Some(l) => Some(create_parser(l)),
        None => None,
    }
}

} // verus!
