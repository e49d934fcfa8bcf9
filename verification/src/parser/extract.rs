//! What the language parsers share: how a pattern match on the syntax tree becomes a symbol
//! or an import, and how chunk boundaries are read off the tree.
use vstd::prelude::*;

use crate::syntax::{
    first_line, first_line_of, node_text_or_empty, spec_node_text_or_empty, SyntaxTree,
};
use crate::types::{Import, ImportKind, Language, Symbol, SymbolKind};

verus! {

/// The view of an optional string.
pub open spec fn opt_string_view(o: Option<String>) -> Option<Seq<char>> {
    match o {
        Some(s) => Some(s@),
        None => None,
    }
}

/// A pattern match that yields a symbol: the matched node, the node holding the name, the
/// symbol kind, and the doc comment, visibility and enclosing type found for it.
pub struct SymbolMatch {
    pub node: int,
    pub name_node: int,
    pub kind: SymbolKind,
    pub doc: Option<Seq<char>>,
    pub visibility: Option<Seq<char>>,
    pub parent: Option<Seq<char>>,
}

/// `s` is the symbol that match `m` yields in the tree `t` of `source`, a file at `path`.
pub open spec fn symbol_is(
    s: Symbol,
    t: SyntaxTree,
    source: Seq<u8>,
    path: Seq<char>,
    language: Language,
    m: SymbolMatch,
) -> bool {
    &&& s.name@ == spec_node_text_or_empty(source, t.nodes@[m.name_node])
    &&& s.kind == m.kind
    &&& s.language == language
    &&& s.file_path@ == path
    &&& s.line_start == t.nodes@[m.node].start_row + 1
    &&& s.line_end == t.nodes@[m.node].end_row + 1
    &&& opt_string_view(s.signature) == Some(
        first_line(spec_node_text_or_empty(source, t.nodes@[m.node])),
    )
    &&& opt_string_view(s.doc_comment) == m.doc
    &&& opt_string_view(s.visibility) == m.visibility
    &&& opt_string_view(s.parent) == m.parent
}

/// `res` holds, in order, the symbols that the matches `ms` yield.
pub open spec fn symbols_are(
    res: Seq<Symbol>,
    t: SyntaxTree,
    source: Seq<u8>,
    path: Seq<char>,
    language: Language,
    ms: Seq<SymbolMatch>,
) -> bool {
    &&& res.len() == ms.len()
    &&& forall|k: int|
        0 <= k < res.len() ==> symbol_is(#[trigger] res[k], t, source, path, language, ms[k])
}

/// Appending the symbol of one more match keeps `symbols_are`.
pub proof fn lemma_symbols_push(
    res: Seq<Symbol>,
    s: Symbol,
    t: SyntaxTree,
    source: Seq<u8>,
    path: Seq<char>,
    language: Language,
    ms: Seq<SymbolMatch>,
    m: SymbolMatch,
)
    requires
        symbols_are(res, t, source, path, language, ms),
        symbol_is(s, t, source, path, language, m),
    ensures
        symbols_are(res.push(s), t, source, path, language, ms.push(m)),
        symbols_are(res.push(s), t, source, path, language, ms + seq![m]),
{
    assert(ms.push(m) =~= ms + seq![m]);
    assert forall|k: int| 0 <= k < res.len() + 1 implies symbol_is(
        #[trigger] res.push(s)[k],
        t,
        source,
        path,
        language,
        ms.push(m)[k],
    ) by {
        if k < res.len() {
            assert(res.push(s)[k] == res[k]);
        }
    }
}

/// The symbol that a match yields.
pub fn make_symbol(
    t: &SyntaxTree,
    source: &[u8],
    path: &str,
    language: Language,
    node: usize,
    name_node: usize,
    kind: SymbolKind,
    doc: Option<String>,
    visibility: Option<String>,
    parent: Option<String>,
) -> (s: Symbol)
    requires
        t.wf(),
        node < t.nodes@.len(),
        name_node < t.nodes@.len(),
    ensures
        symbol_is(
            s,
            *t,
            source@,
            path@,
            language,
            SymbolMatch {
                node: node as int,
                name_node: name_node as int,
                kind,
                doc: opt_string_view(doc),
                visibility: opt_string_view(visibility),
                parent: opt_string_view(parent),
            },
        ),
{
    let n = &t.nodes[node];
    assert(t.nodes@[node as int].start_row < usize::MAX);
    let text = node_text_or_empty(source, n);
    Symbol {
        name: node_text_or_empty(source, &t.nodes[name_node]),
        kind,
        language,
        file_path: String::from_str(path),
        line_start: n.start_row + 1,
        line_end: n.end_row + 1,
        signature: Some(first_line_of(text.as_str())),
        doc_comment: doc,
        visibility,
        parent,
    }
}

/// `imp` is the import of `target` of kind `kind` that node `node` of `t` states, in the file
/// at `path`.
pub open spec fn import_is(
    imp: Import,
    t: SyntaxTree,
    path: Seq<char>,
    node: int,
    target: Seq<char>,
    kind: ImportKind,
) -> bool {
    &&& imp.source_file@ == path
    &&& imp.target_path@ == target
    &&& imp.kind == kind
    &&& imp.line_number == t.nodes@[node].start_row + 1
}

/// An import found by a pattern match: the statement node and the imported path.
pub struct ImportMatch {
    pub node: int,
    pub target: Seq<char>,
}

/// `res` holds, in order, the imports of kind `kind` that the matches `ms` yield.
pub open spec fn imports_are(
    res: Seq<Import>,
    t: SyntaxTree,
    path: Seq<char>,
    kind: ImportKind,
    ms: Seq<ImportMatch>,
) -> bool {
    &&& res.len() == ms.len()
    &&& forall|k: int|
        0 <= k < res.len() ==> import_is(#[trigger] res[k], t, path, ms[k].node, ms[k].target, kind)
}

/// Appending the import of one more match keeps `imports_are`.
pub proof fn lemma_imports_push(
    res: Seq<Import>,
    imp: Import,
    t: SyntaxTree,
    path: Seq<char>,
    kind: ImportKind,
    ms: Seq<ImportMatch>,
    m: ImportMatch,
)
    requires
        imports_are(res, t, path, kind, ms),
        import_is(imp, t, path, m.node, m.target, kind),
    ensures
        imports_are(res.push(imp), t, path, kind, ms + seq![m]),
{
    assert forall|k: int| 0 <= k < res.len() + 1 implies import_is(
        #[trigger] res.push(imp)[k],
        t,
        path,
        (ms + seq![m])[k].node,
        (ms + seq![m])[k].target,
        kind,
    ) by {
        if k < res.len() {
            assert(res.push(imp)[k] == res[k]);
        }
    }
}

/// The import that node `node` of `t` states.
pub fn make_import(t: &SyntaxTree, path: &str, node: usize, target: String, kind: ImportKind) -> (imp:
    Import)
    requires
        t.wf(),
        node < t.nodes@.len(),
    ensures
        import_is(imp, *t, path@, node as int, target@, kind),
{
    assert(t.nodes@[node as int].start_row < usize::MAX);
    Import {
        source_file: String::from_str(path),
        target_path: target,
        kind,
        line_number: t.nodes[node].start_row + 1,
    }
}

/// The chunk boundaries of a tree: the start rows of the root's named children, in order.
pub open spec fn root_boundaries_from(t: SyntaxTree, j: int) -> Seq<usize>
    decreases j,
{
    if j <= 0 || j > t.nodes@[0].children@.len() {
        Seq::empty()
    } else {
        let c = t.nodes@[0].children@[j - 1] as int;
        if t.nodes@[c].named {
            root_boundaries_from(t, j - 1).push(t.nodes@[c].start_row)
        } else {
            root_boundaries_from(t, j - 1)
        }
    }
}

/// The chunk boundaries of a tree: the start rows of the root's named children, in order.
pub open spec fn root_boundaries(t: SyntaxTree) -> Seq<usize> {
    root_boundaries_from(t, t.nodes@[0].children@.len() as int)
}

/// The chunk boundaries of a tree: the start rows of the root's named children, in order.
pub fn root_boundary_rows(t: &SyntaxTree) -> (res: Vec<usize>)
    requires
        t.wf(),
        t.nodes@.len() >= 1,
    ensures
        res@ == root_boundaries(*t),
{
    let mut res: Vec<usize> = Vec::new();
    let n = t.nodes[0].children.len();
    let mut j: usize = 0;
    while j < n
        invariant
            t.wf(),
            t.nodes@.len() >= 1,
            n == t.nodes@[0].children@.len(),
            j <= n,
            res@ == root_boundaries_from(*t, j as int),
        decreases n - j,
    {
        let c = t.nodes[0].children[j];
        assert(c < t.nodes@.len()) by {
            assert(t.nodes@[0].children@[j as int] == c);
        }
        if t.nodes[c].named {
            res.push(t.nodes[c].start_row);
        }
        j = j + 1;
    }
    res
}

/// Some match of `ms` is at node `i`, named by node `c`, of kind `k`.
pub open spec fn has_symbol_match(ms: Seq<SymbolMatch>, i: int, c: int, k: SymbolKind) -> bool {
    exists|j: int|
        0 <= j < ms.len() && (#[trigger] ms[j]).node == i && ms[j].name_node == c && ms[j].kind == k
}

/// Some match of `ms` is at node `i` and imports `target`.
pub open spec fn has_import_match(ms: Seq<ImportMatch>, i: int, target: Seq<char>) -> bool {
    exists|j: int| 0 <= j < ms.len() && (#[trigger] ms[j]).node == i && ms[j].target == target
}

} // verus!
