use vstd::prelude::*;

use crate::text::str_eq;
use crate::types::{Chunk, DepEdge, ImportKind, Language, SymbolKind, SymbolSearchResult};

verus! {

/// The symbol kind stored under `s`; unknown names read as `Function`.
pub open spec fn spec_parse_symbol_kind(s: Seq<char>) -> SymbolKind {
    if s == "function"@ {
        SymbolKind::Function
    } else if s == "method"@ {
        SymbolKind::Method
    } else if s == "struct"@ {
        SymbolKind::Struct
    } else if s == "class"@ {
        SymbolKind::Class
    } else if s == "interface"@ {
        SymbolKind::Interface
    } else if s == "trait"@ {
        SymbolKind::Trait
    } else if s == "enum"@ {
        SymbolKind::Enum
    } else if s == "constant"@ {
        SymbolKind::Constant
    } else if s == "variable"@ {
        SymbolKind::Variable
    } else if s == "module"@ {
        SymbolKind::Module
    } else if s == "type"@ {
        SymbolKind::Type
    } else if s == "impl"@ {
        SymbolKind::Impl
    } else {
        SymbolKind::Function
    }
}

/// The language stored under `s`; unknown names read as `Rust`.
pub open spec fn spec_parse_language(s: Seq<char>) -> Language {
    if s == "rust"@ {
        Language::Rust
    } else if s == "typescript"@ {
        Language::TypeScript
    } else if s == "python"@ {
        Language::Python
    } else if s == "go"@ {
        Language::Go
    } else if s == "java"@ {
        Language::Java
    } else if s == "c"@ {
        Language::C
    } else if s == "cpp"@ {
        Language::Cpp
    } else if s == "ruby"@ {
        Language::Ruby
    } else if s == "swift"@ {
        Language::Swift
    } else {
        Language::Rust
    }
}

/// The name under which an import kind is stored.
pub open spec fn spec_import_kind_name(kind: ImportKind) -> Seq<char> {
    match kind {
        ImportKind::Use => "use"@,
        ImportKind::Import => "import"@,
        ImportKind::Include => "include"@,
        ImportKind::Require => "require"@,
    }
}

/// The import kind stored under `s`; unknown names read as `Import`.
pub open spec fn spec_parse_import_kind(s: Seq<char>) -> ImportKind {
    if s == "use"@ {
        ImportKind::Use
    } else if s == "import"@ {
        ImportKind::Import
    } else if s == "include"@ {
        ImportKind::Include
    } else if s == "require"@ {
        ImportKind::Require
    } else {
        ImportKind::Import
    }
}

/// Reads a stored symbol kind name.
pub fn parse_symbol_kind(s: &str) -> (k: SymbolKind)
    ensures
        k == spec_parse_symbol_kind(s@),
{
    if str_eq(s, "function") {
        SymbolKind::Function
    } else if str_eq(s, "method") {
        SymbolKind::Method
    } else if str_eq(s, "struct") {
        SymbolKind::Struct
    } else if str_eq(s, "class") {
        SymbolKind::Class
    } else if str_eq(s, "interface") {
        SymbolKind::Interface
    } else if str_eq(s, "trait") {
        SymbolKind::Trait
    } else if str_eq(s, "enum") {
        SymbolKind::Enum
    } else if str_eq(s, "constant") {
        SymbolKind::Constant
    } else if str_eq(s, "variable") {
        SymbolKind::Variable
    } else if str_eq(s, "module") {
        SymbolKind::Module
    } else if str_eq(s, "type") {
        SymbolKind::Type
    } else if str_eq(s, "impl") {
        SymbolKind::Impl
    } else {
        SymbolKind::Function
    }
}

/// Reads a stored language name.
pub fn parse_language(s: &str) -> (l: Language)
    ensures
        l == spec_parse_language(s@),
{
    if str_eq(s, "rust") {
        Language::Rust
    } else if str_eq(s, "typescript") {
        Language::TypeScript
    } else if str_eq(s, "python") {
        Language::Python
    } else if str_eq(s, "go") {
        Language::Go
    } else if str_eq(s, "java") {
        Language::Java
    } else if str_eq(s, "c") {
        Language::C
    } else if str_eq(s, "cpp") {
        Language::Cpp
    } else if str_eq(s, "ruby") {
        Language::Ruby
    } else if str_eq(s, "swift") {
        Language::Swift
    } else {
        Language::Rust
    }
}

/// Reads a stored import kind name.
pub fn parse_import_kind(s: &str) -> (k: ImportKind)
    ensures
        k == spec_parse_import_kind(s@),
{
    if str_eq(s, "use") {
        ImportKind::Use
    } else if str_eq(s, "import") {
        ImportKind::Import
    } else if str_eq(s, "include") {
        ImportKind::Include
    } else if str_eq(s, "require") {
        ImportKind::Require
    } else {
        ImportKind::Import
    }
}

/// The name under which an import kind is stored.
pub fn parse_import_kind_to_str(kind: ImportKind) -> (s: &'static str)
    ensures
        s@ == spec_import_kind_name(kind),
{
    match kind {
        ImportKind::Use => "use",
        ImportKind::Import => "import",
        ImportKind::Include => "include",
        ImportKind::Require => "require",
    }
}

/// Sequences of different lengths differ.
proof fn lemma_seq_neq_len(a: Seq<char>, b: Seq<char>)
    requires
        a.len() != b.len(),
    ensures
        a != b,
{
}

/// Sequences that differ at a position differ.
proof fn lemma_seq_neq_at(a: Seq<char>, b: Seq<char>, i: int)
    requires
        0 <= i < a.len(),
        i < b.len(),
        a[i] != b[i],
    ensures
        a != b,
{
}

/// Reading back the stored name of a language gives the language.
pub proof fn lemma_language_name_roundtrip(k: Language)
    ensures
        spec_parse_language(k.spec_name()) == k,
{
    reveal_strlit("c");
    reveal_strlit("go");
    reveal_strlit("cpp");
    reveal_strlit("rust");
    reveal_strlit("java");
    reveal_strlit("ruby");
    reveal_strlit("swift");
    reveal_strlit("python");
    reveal_strlit("typescript");
    match k {
        Language::Rust => {
        },
        Language::TypeScript => {
            lemma_seq_neq_len("typescript"@, "rust"@);
        },
        Language::Python => {
            lemma_seq_neq_len("python"@, "rust"@);
            lemma_seq_neq_len("python"@, "typescript"@);
        },
        Language::Go => {
            lemma_seq_neq_len("go"@, "rust"@);
            lemma_seq_neq_len("go"@, "typescript"@);
            lemma_seq_neq_len("go"@, "python"@);
        },
        Language::Java => {
            lemma_seq_neq_at("java"@, "rust"@, 0);
            lemma_seq_neq_len("java"@, "typescript"@);
            lemma_seq_neq_len("java"@, "python"@);
            lemma_seq_neq_len("java"@, "go"@);
        },
        Language::C => {
            lemma_seq_neq_len("c"@, "rust"@);
            lemma_seq_neq_len("c"@, "typescript"@);
            lemma_seq_neq_len("c"@, "python"@);
            lemma_seq_neq_len("c"@, "go"@);
            lemma_seq_neq_len("c"@, "java"@);
        },
        Language::Cpp => {
            lemma_seq_neq_len("cpp"@, "rust"@);
            lemma_seq_neq_len("cpp"@, "typescript"@);
            lemma_seq_neq_len("cpp"@, "python"@);
            lemma_seq_neq_len("cpp"@, "go"@);
            lemma_seq_neq_len("cpp"@, "java"@);
            lemma_seq_neq_len("cpp"@, "c"@);
        },
        Language::Ruby => {
            lemma_seq_neq_at("ruby"@, "rust"@, 2);
            lemma_seq_neq_len("ruby"@, "typescript"@);
            lemma_seq_neq_len("ruby"@, "python"@);
            lemma_seq_neq_len("ruby"@, "go"@);
            lemma_seq_neq_at("ruby"@, "java"@, 0);
            lemma_seq_neq_len("ruby"@, "c"@);
            lemma_seq_neq_len("ruby"@, "cpp"@);
        },
        Language::Swift => {
            lemma_seq_neq_len("swift"@, "rust"@);
            lemma_seq_neq_len("swift"@, "typescript"@);
            lemma_seq_neq_len("swift"@, "python"@);
            lemma_seq_neq_len("swift"@, "go"@);
            lemma_seq_neq_len("swift"@, "java"@);
            lemma_seq_neq_len("swift"@, "c"@);
            lemma_seq_neq_len("swift"@, "cpp"@);
            lemma_seq_neq_len("swift"@, "ruby"@);
        },
    }
}

/// Reading back the stored name of a symbol kind gives the kind.
pub proof fn lemma_symbol_kind_name_roundtrip(k: SymbolKind)
    ensures
        spec_parse_symbol_kind(k.spec_name()) == k,
{
    reveal_strlit("impl");
    reveal_strlit("enum");
    reveal_strlit("type");
    reveal_strlit("trait");
    reveal_strlit("class");
    reveal_strlit("method");
    reveal_strlit("module");
    reveal_strlit("struct");
    reveal_strlit("variable");
    reveal_strlit("constant");
    reveal_strlit("function");
    reveal_strlit("interface");
    match k {
        SymbolKind::Function => {
        },
        SymbolKind::Method => {
            lemma_seq_neq_len("method"@, "function"@);
        },
        SymbolKind::Struct => {
            lemma_seq_neq_len("struct"@, "function"@);
            lemma_seq_neq_at("struct"@, "method"@, 0);
        },
        SymbolKind::Class => {
            lemma_seq_neq_len("class"@, "function"@);
            lemma_seq_neq_len("class"@, "method"@);
            lemma_seq_neq_len("class"@, "struct"@);
        },
        SymbolKind::Interface => {
            lemma_seq_neq_len("interface"@, "function"@);
            lemma_seq_neq_len("interface"@, "method"@);
            lemma_seq_neq_len("interface"@, "struct"@);
            lemma_seq_neq_len("interface"@, "class"@);
        },
        SymbolKind::Trait => {
            lemma_seq_neq_len("trait"@, "function"@);
            lemma_seq_neq_len("trait"@, "method"@);
            lemma_seq_neq_len("trait"@, "struct"@);
            lemma_seq_neq_at("trait"@, "class"@, 0);
            lemma_seq_neq_len("trait"@, "interface"@);
        },
        SymbolKind::Enum => {
            lemma_seq_neq_len("enum"@, "function"@);
            lemma_seq_neq_len("enum"@, "method"@);
            lemma_seq_neq_len("enum"@, "struct"@);
            lemma_seq_neq_len("enum"@, "class"@);
            lemma_seq_neq_len("enum"@, "interface"@);
            lemma_seq_neq_len("enum"@, "trait"@);
        },
        SymbolKind::Constant => {
            lemma_seq_neq_at("constant"@, "function"@, 0);
            lemma_seq_neq_len("constant"@, "method"@);
            lemma_seq_neq_len("constant"@, "struct"@);
            lemma_seq_neq_len("constant"@, "class"@);
            lemma_seq_neq_len("constant"@, "interface"@);
            lemma_seq_neq_len("constant"@, "trait"@);
            lemma_seq_neq_len("constant"@, "enum"@);
        },
        SymbolKind::Variable => {
            lemma_seq_neq_at("variable"@, "function"@, 0);
            lemma_seq_neq_len("variable"@, "method"@);
            lemma_seq_neq_len("variable"@, "struct"@);
            lemma_seq_neq_len("variable"@, "class"@);
            lemma_seq_neq_len("variable"@, "interface"@);
            lemma_seq_neq_len("variable"@, "trait"@);
            lemma_seq_neq_len("variable"@, "enum"@);
            lemma_seq_neq_at("variable"@, "constant"@, 0);
        },
        SymbolKind::Module => {
            lemma_seq_neq_len("module"@, "function"@);
            lemma_seq_neq_at("module"@, "method"@, 1);
            lemma_seq_neq_at("module"@, "struct"@, 0);
            lemma_seq_neq_len("module"@, "class"@);
            lemma_seq_neq_len("module"@, "interface"@);
            lemma_seq_neq_len("module"@, "trait"@);
            lemma_seq_neq_len("module"@, "enum"@);
            lemma_seq_neq_len("module"@, "constant"@);
            lemma_seq_neq_len("module"@, "variable"@);
        },
        SymbolKind::Type => {
            lemma_seq_neq_len("type"@, "function"@);
            lemma_seq_neq_len("type"@, "method"@);
            lemma_seq_neq_len("type"@, "struct"@);
            lemma_seq_neq_len("type"@, "class"@);
            lemma_seq_neq_len("type"@, "interface"@);
            lemma_seq_neq_len("type"@, "trait"@);
            lemma_seq_neq_at("type"@, "enum"@, 0);
            lemma_seq_neq_len("type"@, "constant"@);
            lemma_seq_neq_len("type"@, "variable"@);
            lemma_seq_neq_len("type"@, "module"@);
        },
        SymbolKind::Impl => {
            lemma_seq_neq_len("impl"@, "function"@);
            lemma_seq_neq_len("impl"@, "method"@);
            lemma_seq_neq_len("impl"@, "struct"@);
            lemma_seq_neq_len("impl"@, "class"@);
            lemma_seq_neq_len("impl"@, "interface"@);
            lemma_seq_neq_len("impl"@, "trait"@);
            lemma_seq_neq_at("impl"@, "enum"@, 0);
            lemma_seq_neq_len("impl"@, "constant"@);
            lemma_seq_neq_len("impl"@, "variable"@);
            lemma_seq_neq_len("impl"@, "module"@);
            lemma_seq_neq_at("impl"@, "type"@, 0);
        },
    }
}

/// Reading back the stored name of an import kind gives the kind.
pub proof fn lemma_import_kind_name_roundtrip(k: ImportKind)
    ensures
        spec_parse_import_kind(spec_import_kind_name(k)) == k,
{
    reveal_strlit("use");
    reveal_strlit("import");
    reveal_strlit("require");
    reveal_strlit("include");
    match k {
        ImportKind::Use => {
        },
        ImportKind::Import => {
            lemma_seq_neq_len("import"@, "use"@);
        },
        ImportKind::Include => {
            lemma_seq_neq_len("include"@, "use"@);
            lemma_seq_neq_len("include"@, "import"@);
        },
        ImportKind::Require => {
            lemma_seq_neq_len("require"@, "use"@);
            lemma_seq_neq_len("require"@, "import"@);
            lemma_seq_neq_at("require"@, "include"@, 0);
        },
    }
}

/// Distinct languages are stored under distinct names.
pub proof fn lemma_language_names_distinct(a: Language, b: Language)
    ensures
        a.spec_name() == b.spec_name() ==> a == b,
{
    lemma_language_name_roundtrip(a);
    lemma_language_name_roundtrip(b);
}

/// Each extension of a language denotes that language.
pub proof fn lemma_extensions_denote_language(l: Language, i: int)
    requires
        0 <= i < l.spec_extensions().len(),
    ensures
        crate::types::spec_from_extension(l.spec_extensions()[i]) == Some(l),
{
    reveal_strlit("h");
    reveal_strlit("c");
    reveal_strlit("py");
    reveal_strlit("rs");
    reveal_strlit("rb");
    reveal_strlit("cc");
    reveal_strlit("go");
    reveal_strlit("ts");
    reveal_strlit("hxx");
    reveal_strlit("cpp");
    reveal_strlit("cxx");
    reveal_strlit("tsx");
    reveal_strlit("hpp");
    reveal_strlit("java");
    reveal_strlit("swift");
    match l {
        Language::Rust => {
            if i == 0 {
            }
        },
        Language::TypeScript => {
            if i == 0 {
                lemma_seq_neq_at("ts"@, "rs"@, 0);
            }
            if i == 1 {
                lemma_seq_neq_len("tsx"@, "rs"@);
                lemma_seq_neq_len("tsx"@, "ts"@);
            }
        },
        Language::Python => {
            if i == 0 {
                lemma_seq_neq_at("py"@, "rs"@, 0);
                lemma_seq_neq_at("py"@, "ts"@, 0);
                lemma_seq_neq_len("py"@, "tsx"@);
            }
        },
        Language::Go => {
            if i == 0 {
                lemma_seq_neq_at("go"@, "rs"@, 0);
                lemma_seq_neq_at("go"@, "ts"@, 0);
                lemma_seq_neq_len("go"@, "tsx"@);
                lemma_seq_neq_at("go"@, "py"@, 0);
            }
        },
        Language::Java => {
            if i == 0 {
                lemma_seq_neq_len("java"@, "rs"@);
                lemma_seq_neq_len("java"@, "ts"@);
                lemma_seq_neq_len("java"@, "tsx"@);
                lemma_seq_neq_len("java"@, "py"@);
                lemma_seq_neq_len("java"@, "go"@);
            }
        },
        Language::C => {
            if i == 0 {
                lemma_seq_neq_len("c"@, "rs"@);
                lemma_seq_neq_len("c"@, "ts"@);
                lemma_seq_neq_len("c"@, "tsx"@);
                lemma_seq_neq_len("c"@, "py"@);
                lemma_seq_neq_len("c"@, "go"@);
                lemma_seq_neq_len("c"@, "java"@);
            }
            if i == 1 {
                lemma_seq_neq_len("h"@, "rs"@);
                lemma_seq_neq_len("h"@, "ts"@);
                lemma_seq_neq_len("h"@, "tsx"@);
                lemma_seq_neq_len("h"@, "py"@);
                lemma_seq_neq_len("h"@, "go"@);
                lemma_seq_neq_len("h"@, "java"@);
                lemma_seq_neq_at("h"@, "c"@, 0);
            }
        },
        Language::Cpp => {
            if i == 0 {
                lemma_seq_neq_len("cpp"@, "rs"@);
                lemma_seq_neq_len("cpp"@, "ts"@);
                lemma_seq_neq_at("cpp"@, "tsx"@, 0);
                lemma_seq_neq_len("cpp"@, "py"@);
                lemma_seq_neq_len("cpp"@, "go"@);
                lemma_seq_neq_len("cpp"@, "java"@);
                lemma_seq_neq_len("cpp"@, "c"@);
                lemma_seq_neq_len("cpp"@, "h"@);
            }
            if i == 1 {
                lemma_seq_neq_at("cc"@, "rs"@, 0);
                lemma_seq_neq_at("cc"@, "ts"@, 0);
                lemma_seq_neq_len("cc"@, "tsx"@);
                lemma_seq_neq_at("cc"@, "py"@, 0);
                lemma_seq_neq_at("cc"@, "go"@, 0);
                lemma_seq_neq_len("cc"@, "java"@);
                lemma_seq_neq_len("cc"@, "c"@);
                lemma_seq_neq_len("cc"@, "h"@);
                lemma_seq_neq_len("cc"@, "cpp"@);
            }
            if i == 2 {
                lemma_seq_neq_len("cxx"@, "rs"@);
                lemma_seq_neq_len("cxx"@, "ts"@);
                lemma_seq_neq_at("cxx"@, "tsx"@, 0);
                lemma_seq_neq_len("cxx"@, "py"@);
                lemma_seq_neq_len("cxx"@, "go"@);
                lemma_seq_neq_len("cxx"@, "java"@);
                lemma_seq_neq_len("cxx"@, "c"@);
                lemma_seq_neq_len("cxx"@, "h"@);
                lemma_seq_neq_at("cxx"@, "cpp"@, 1);
                lemma_seq_neq_len("cxx"@, "cc"@);
            }
            if i == 3 {
                lemma_seq_neq_len("hpp"@, "rs"@);
                lemma_seq_neq_len("hpp"@, "ts"@);
                lemma_seq_neq_at("hpp"@, "tsx"@, 0);
                lemma_seq_neq_len("hpp"@, "py"@);
                lemma_seq_neq_len("hpp"@, "go"@);
                lemma_seq_neq_len("hpp"@, "java"@);
                lemma_seq_neq_len("hpp"@, "c"@);
                lemma_seq_neq_len("hpp"@, "h"@);
                lemma_seq_neq_at("hpp"@, "cpp"@, 0);
                lemma_seq_neq_len("hpp"@, "cc"@);
                lemma_seq_neq_at("hpp"@, "cxx"@, 0);
            }
            if i == 4 {
                lemma_seq_neq_len("hxx"@, "rs"@);
                lemma_seq_neq_len("hxx"@, "ts"@);
                lemma_seq_neq_at("hxx"@, "tsx"@, 0);
                lemma_seq_neq_len("hxx"@, "py"@);
                lemma_seq_neq_len("hxx"@, "go"@);
                lemma_seq_neq_len("hxx"@, "java"@);
                lemma_seq_neq_len("hxx"@, "c"@);
                lemma_seq_neq_len("hxx"@, "h"@);
                lemma_seq_neq_at("hxx"@, "cpp"@, 0);
                lemma_seq_neq_len("hxx"@, "cc"@);
                lemma_seq_neq_at("hxx"@, "cxx"@, 0);
                lemma_seq_neq_at("hxx"@, "hpp"@, 1);
            }
        },
        Language::Ruby => {
            if i == 0 {
                lemma_seq_neq_at("rb"@, "rs"@, 1);
                lemma_seq_neq_at("rb"@, "ts"@, 0);
                lemma_seq_neq_len("rb"@, "tsx"@);
                lemma_seq_neq_at("rb"@, "py"@, 0);
                lemma_seq_neq_at("rb"@, "go"@, 0);
                lemma_seq_neq_len("rb"@, "java"@);
                lemma_seq_neq_len("rb"@, "c"@);
                lemma_seq_neq_len("rb"@, "h"@);
                lemma_seq_neq_len("rb"@, "cpp"@);
                lemma_seq_neq_at("rb"@, "cc"@, 0);
                lemma_seq_neq_len("rb"@, "cxx"@);
                lemma_seq_neq_len("rb"@, "hpp"@);
                lemma_seq_neq_len("rb"@, "hxx"@);
            }
        },
        Language::Swift => {
            if i == 0 {
                lemma_seq_neq_len("swift"@, "rs"@);
                lemma_seq_neq_len("swift"@, "ts"@);
                lemma_seq_neq_len("swift"@, "tsx"@);
                lemma_seq_neq_len("swift"@, "py"@);
                lemma_seq_neq_len("swift"@, "go"@);
                lemma_seq_neq_len("swift"@, "java"@);
                lemma_seq_neq_len("swift"@, "c"@);
                lemma_seq_neq_len("swift"@, "h"@);
                lemma_seq_neq_len("swift"@, "cpp"@);
                lemma_seq_neq_len("swift"@, "cc"@);
                lemma_seq_neq_len("swift"@, "cxx"@);
                lemma_seq_neq_len("swift"@, "hpp"@);
                lemma_seq_neq_len("swift"@, "hxx"@);
                lemma_seq_neq_len("swift"@, "rb"@);
            }
        },
    }
}

/// The full-text query for a prefix search on `query`: the query followed by `*`.
pub fn fts_prefix_query(query: &str) -> (res: String)
    ensures
        res@ == query@ + seq!['*'],
{
    let mut s = String::from_str(query);
    s.append("*");
    proof {
        reveal_strlit("*");
    }
    s
}

/// The `LIKE` pattern that matches names containing `query`: `%query%`.
pub fn like_pattern(query: &str) -> (res: String)
    ensures
        res@ == seq!['%'] + query@ + seq!['%'],
{
    let mut s = String::from_str("%");
    s.append(query);
    s.append("%");
    proof {
        reveal_strlit("%");
    }
    s
}

/// A row of the symbol search query, as the database returns it.
pub struct SymbolRow<S> {
    pub name: String,
    pub kind: String,
    pub language: String,
    pub file_path: String,
    pub line_start: i64,
    pub line_end: i64,
    pub signature: Option<String>,
    pub doc_comment: Option<String>,
    pub visibility: Option<String>,
    pub score: S,
}

/// A row of the `chunks` table, as the database returns it.
pub struct ChunkRow {
    pub file_path: String,
    pub content: String,
    pub preamble: String,
    pub content_hash: String,
    pub line_start: i64,
    pub line_end: i64,
    pub language: String,
}

/// A row of the `file_deps` table, as the database returns it.
pub struct DepRow {
    pub source_file: String,
    pub target_path: String,
    pub kind: String,
    pub line_number: i64,
}

/// The symbol search hit that a row of the symbol search query stands for.
pub fn symbol_result_from_row<S>(row: SymbolRow<S>) -> (r: SymbolSearchResult<S>)
    ensures
        r.name == row.name,
        r.kind == spec_parse_symbol_kind(row.kind@),
        r.language == spec_parse_language(row.language@),
        r.file_path == row.file_path,
        r.line_start == row.line_start as usize,
        r.line_end == row.line_end as usize,
        r.signature == row.signature,
        r.doc_comment == row.doc_comment,
        r.visibility == row.visibility,
        r.score == row.score,
{
    let kind = parse_symbol_kind(row.kind.as_str());
    let language = parse_language(row.language.as_str());
    SymbolSearchResult {
        name: row.name,
        kind,
        file_path: row.file_path,
        line_start: row.line_start as usize,
        line_end: row.line_end as usize,
        signature: row.signature,
        doc_comment: row.doc_comment,
        visibility: row.visibility,
        score: row.score,
        language,
    }
}

/// The chunk that a row of the `chunks` table stands for.
pub fn chunk_from_row(row: ChunkRow) -> (c: Chunk)
    ensures
        c.file_path == row.file_path,
        c.content == row.content,
        c.preamble == row.preamble,
        c.content_hash == row.content_hash,
        c.line_start == row.line_start as usize,
        c.line_end == row.line_end as usize,
        c.language == spec_parse_language(row.language@),
{
    let language = parse_language(row.language.as_str());
    Chunk {
        file_path: row.file_path,
        content: row.content,
        preamble: row.preamble,
        content_hash: row.content_hash,
        line_start: row.line_start as usize,
        line_end: row.line_end as usize,
        language,
    }
}

/// The dependency edge that a row of the `file_deps` table stands for.
pub fn dep_edge_from_row(row: DepRow) -> (e: DepEdge)
    ensures
        e.source_file == row.source_file,
        e.target_path == row.target_path,
        e.kind == spec_parse_import_kind(row.kind@),
        e.line_number == row.line_number as usize,
{
    let kind = parse_import_kind(row.kind.as_str());
    DepEdge {
        source_file: row.source_file,
        target_path: row.target_path,
        kind,
        line_number: row.line_number as usize,
    }
}

} // verus!
