use vstd::prelude::*;

use crate::text::str_eq;

verus! {

/// Programming languages the indexer recognises.
#[derive(Debug, Clone, Copy, PartialEq, Eq, Structural, Hash)]
pub enum Language {
    Rust,
    TypeScript,
    Python,
    Go,
    Java,
    C,
    Cpp,
    Ruby,
    Swift,
}

/// The language that a file extension (without the dot) denotes.
pub open spec fn spec_from_extension(ext: Seq<char>) -> Option<Language> {
    if ext == "rs"@ {
        Some(Language::Rust)
    } else if ext == "ts"@ || ext == "tsx"@ {
        Some(Language::TypeScript)
    } else if ext == "py"@ {
        Some(Language::Python)
    } else if ext == "go"@ {
        Some(Language::Go)
    } else if ext == "java"@ {
        Some(Language::Java)
    } else if ext == "c"@ || ext == "h"@ {
        Some(Language::C)
    } else if ext == "cpp"@ || ext == "cc"@ || ext == "cxx"@ || ext == "hpp"@ || ext == "hxx"@ {
        Some(Language::Cpp)
    } else if ext == "rb"@ {
        Some(Language::Ruby)
    } else if ext == "swift"@ {
        Some(Language::Swift)
    } else {
        None
    }
}

impl Language {
    /// The canonical lower-case name of the language.
    pub open spec fn spec_name(self) -> Seq<char> {
        match self {
            Language::Rust => "rust"@,
            Language::TypeScript => "typescript"@,
            Language::Python => "python"@,
            Language::Go => "go"@,
            Language::Java => "java"@,
            Language::C => "c"@,
            Language::Cpp => "cpp"@,
            Language::Ruby => "ruby"@,
            Language::Swift => "swift"@,
        }
    }

    /// The file extensions (without the dot) that denote the language.
    pub open spec fn spec_extensions(self) -> Seq<Seq<char>> {
        match self {
            Language::Rust => seq!["rs"@],
            Language::TypeScript => seq!["ts"@, "tsx"@],
            Language::Python => seq!["py"@],
            Language::Go => seq!["go"@],
            Language::Java => seq!["java"@],
            Language::C => seq!["c"@, "h"@],
            Language::Cpp => seq!["cpp"@, "cc"@, "cxx"@, "hpp"@, "hxx"@],
            Language::Ruby => seq!["rb"@],
            Language::Swift => seq!["swift"@],
        }
    }

    /// The language of a file extension, if it is one the indexer knows.
    pub fn from_extension(ext: &str) -> (res: Option<Language>)
        ensures
            res == spec_from_extension(ext@),
    {
        if str_eq(ext, "rs") {
            Some(Language::Rust)
        } else if str_eq(ext, "ts") || str_eq(ext, "tsx") {
            Some(Language::TypeScript)
        } else if str_eq(ext, "py") {
            Some(Language::Python)
        } else if str_eq(ext, "go") {
            Some(Language::Go)
        } else if str_eq(ext, "java") {
            Some(Language::Java)
        } else if str_eq(ext, "c") || str_eq(ext, "h") {
            Some(Language::C)
        } else if str_eq(ext, "cpp") || str_eq(ext, "cc") || str_eq(ext, "cxx") || str_eq(ext, "hpp")
            || str_eq(ext, "hxx") {
            Some(Language::Cpp)
        } else if str_eq(ext, "rb") {
            Some(Language::Ruby)
        } else if str_eq(ext, "swift") {
            Some(Language::Swift)
        } else {
            None
        }
    }

    /// The canonical lower-case name of the language.
    pub fn as_str(&self) -> (s: &'static str)
        ensures
            s@ == self.spec_name(),
    {
        match self {
            Language::Rust => "rust",
            Language::TypeScript => "typescript",
            Language::Python => "python",
            Language::Go => "go",
            Language::Java => "java",
            Language::C => "c",
            Language::Cpp => "cpp",
            Language::Ruby => "ruby",
            Language::Swift => "swift",
        }
    }

    /// The canonical name as an owned string (what `Display` writes).
    pub fn to_string(&self) -> (s: String)
        ensures
            s@ == self.spec_name(),
    {
        String::from_str(self.as_str())
    }

    /// The file extensions (without the dot) that denote the language.
    pub fn extensions(&self) -> (res: Vec<&'static str>)
        ensures
            res@.len() == self.spec_extensions().len(),
            forall|i: int| 0 <= i < res@.len() ==> #[trigger] res@[i]@ == self.spec_extensions()[i],
    {
        match self {
            Language::Rust => vec!["rs"],
            Language::TypeScript => vec!["ts", "tsx"],
            Language::Python => vec!["py"],
            Language::Go => vec!["go"],
            Language::Java => vec!["java"],
            Language::C => vec!["c", "h"],
            Language::Cpp => vec!["cpp", "cc", "cxx", "hpp", "hxx"],
            Language::Ruby => vec!["rb"],
            Language::Swift => vec!["swift"],
        }
    }
}

/// Kinds of symbol definitions.
#[derive(Debug, Clone, Copy, PartialEq, Eq, Structural)]
pub enum SymbolKind {
    Function,
    Method,
    Struct,
    Class,
    Interface,
    Trait,
    Enum,
    Constant,
    Variable,
    Module,
    Type,
    Impl,
}

impl SymbolKind {
    /// The canonical lower-case name of the kind.
    pub open spec fn spec_name(self) -> Seq<char> {
        match self {
            SymbolKind::Function => "function"@,
            SymbolKind::Method => "method"@,
            SymbolKind::Struct => "struct"@,
            SymbolKind::Class => "class"@,
            SymbolKind::Interface => "interface"@,
            SymbolKind::Trait => "trait"@,
            SymbolKind::Enum => "enum"@,
            SymbolKind::Constant => "constant"@,
            SymbolKind::Variable => "variable"@,
            SymbolKind::Module => "module"@,
            SymbolKind::Type => "type"@,
            SymbolKind::Impl => "impl"@,
        }
    }

    /// The canonical lower-case name of the kind.
    pub fn as_str(&self) -> (s: &'static str)
        ensures
            s@ == self.spec_name(),
    {
        match self {
            SymbolKind::Function => "function",
            SymbolKind::Method => "method",
            SymbolKind::Struct => "struct",
            SymbolKind::Class => "class",
            SymbolKind::Interface => "interface",
            SymbolKind::Trait => "trait",
            SymbolKind::Enum => "enum",
            SymbolKind::Constant => "constant",
            SymbolKind::Variable => "variable",
            SymbolKind::Module => "module",
            SymbolKind::Type => "type",
            SymbolKind::Impl => "impl",
        }
    }

    /// The canonical name as an owned string (what `Display` writes).
    pub fn to_string(&self) -> (s: String)
        ensures
            s@ == self.spec_name(),
    {
        String::from_str(self.as_str())
    }
}

/// Kinds of import edges.
#[derive(Debug, Clone, Copy, PartialEq, Eq, Structural)]
pub enum ImportKind {
    Use,
    Import,
    Include,
    Require,
}

/// A symbol definition found in a source file.
#[derive(Debug, Clone)]
pub struct Symbol {
    pub name: String,
    pub kind: SymbolKind,
    pub language: Language,
    pub file_path: String,
    pub line_start: usize,
    pub line_end: usize,
    pub signature: Option<String>,
    pub doc_comment: Option<String>,
    pub visibility: Option<String>,
    pub parent: Option<String>,
}

/// A run of whole source lines, the unit of embedding.
#[derive(Debug, Clone)]
pub struct Chunk {
    pub file_path: String,
    pub content: String,
    pub preamble: String,
    pub content_hash: String,
    pub line_start: usize,
    pub line_end: usize,
    pub language: Language,
}

/// An import statement of a source file.
#[derive(Debug, Clone)]
pub struct Import {
    pub source_file: String,
    pub target_path: String,
    pub kind: ImportKind,
    pub line_number: usize,
}

/// A dependency edge between a source file and what it imports.
#[derive(Debug, Clone)]
pub struct DepEdge {
    pub source_file: String,
    pub target_path: String,
    pub kind: ImportKind,
    pub line_number: usize,
}

/// One hit of a code search; `S` is the score's type, which the library carries through and
/// never computes with.
#[derive(Debug, Clone)]
pub struct SearchResult<S> {
    pub file_path: String,
    pub line_start: usize,
    pub line_end: usize,
    pub snippet: String,
    pub symbol_name: Option<String>,
    pub symbol_kind: Option<SymbolKind>,
    pub score: S,
    pub language: Language,
}

/// One hit of a symbol search; `S` is the score's type, which the library carries through
/// and never computes with.
#[derive(Debug, Clone)]
pub struct SymbolSearchResult<S> {
    pub name: String,
    pub kind: SymbolKind,
    pub file_path: String,
    pub line_start: usize,
    pub line_end: usize,
    pub signature: Option<String>,
    pub doc_comment: Option<String>,
    pub visibility: Option<String>,
    pub score: S,
    pub language: Language,
}

impl Import {
    /// The dependency edge that records this import.
    pub fn to_dep_edge(self) -> (e: DepEdge)
        ensures
            e.source_file == self.source_file,
            e.target_path == self.target_path,
            e.kind == self.kind,
            e.line_number == self.line_number,
    {
        DepEdge {
            source_file: self.source_file,
            target_path: self.target_path,
            kind: self.kind,
            line_number: self.line_number,
        }
    }
}

} // verus!
