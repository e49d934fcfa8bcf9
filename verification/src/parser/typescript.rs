//! Symbols, imports and chunks of TypeScript source.
use vstd::prelude::*;

use crate::chunker::{chunk_by_lines, chunked_by_lines, chunks_are};
use crate::parser::extract::{
    has_import_match, has_symbol_match, imports_are, lemma_imports_push, lemma_symbols_push, make_import, make_symbol,
    root_boundary_rows, symbols_are, ImportMatch, SymbolMatch,
};
use crate::syntax::{node_text_or_empty, source_text, spec_node_text_or_empty, spec_source_text, SyntaxTree};
use crate::ts::{syntax_tree, typescript_grammar};
use crate::parser::{
    chunks_at_some_tree, import_kind_of, import_matches_of, imports_of_some_tree, symbol_matches_of,
    symbols_of_some_tree,
};
use crate::types::{Chunk, Import, ImportKind, Language, Symbol, SymbolKind};
use tree_sitter::Language as TsLanguage;

verus! {

/// The declaration patterns: node kind, then the field and kind of the child that names the
/// declaration, and the symbol kind it yields.
pub open spec fn ts_decl_rule(k: Seq<char>) -> Option<(Seq<char>, Seq<char>, SymbolKind)> {
    if k == "function_declaration"@ {
        Some(("name"@, "identifier"@, SymbolKind::Function))
    } else if k == "class_declaration"@ {
        Some(("name"@, "type_identifier"@, SymbolKind::Class))
    } else if k == "interface_declaration"@ {
        Some(("name"@, "type_identifier"@, SymbolKind::Interface))
    } else if k == "enum_declaration"@ {
        Some(("name"@, "identifier"@, SymbolKind::Enum))
    } else if k == "type_alias_declaration"@ {
        Some(("name"@, "type_identifier"@, SymbolKind::Type))
    } else {
        None
    }
}

fn decl_rule_of(t: &SyntaxTree, i: usize) -> (r: Option<(&'static str, &'static str, SymbolKind)>)
    requires
        i < t.nodes@.len(),
    ensures
        match r {
            Some((f, c, k)) => ts_decl_rule(t.kind_of(i as int)) == Some((f@, c@, k)),
            None => ts_decl_rule(t.kind_of(i as int)) is None,
        },
{
    if t.is_kind(i, "function_declaration") {
        Some(("name", "identifier", SymbolKind::Function))
    } else if t.is_kind(i, "class_declaration") {
        Some(("name", "type_identifier", SymbolKind::Class))
    } else if t.is_kind(i, "interface_declaration") {
        Some(("name", "type_identifier", SymbolKind::Interface))
    } else if t.is_kind(i, "enum_declaration") {
        Some(("name", "identifier", SymbolKind::Enum))
    } else if t.is_kind(i, "type_alias_declaration") {
        Some(("name", "type_identifier", SymbolKind::Type))
    } else {
        None
    }
}

/// A variable symbol at lexical declaration `i`, named by declarator `d` through `c`.
pub open spec fn variable_match(i: int, c: int) -> SymbolMatch {
    SymbolMatch { node: i, name_node: c, kind: SymbolKind::Variable, doc: None, visibility: None, parent: None }
}

/// The variable matches of the lexical declaration `i` among its first `j` children: one per
/// `variable_declarator` child whose `name` is an identifier.
pub open spec fn lexical_matches_upto(t: SyntaxTree, i: int, j: int) -> Seq<SymbolMatch>
    decreases j,
{
    if j <= 0 || j > t.nodes@[i].children@.len() {
        Seq::empty()
    } else {
        let d = t.nodes@[i].children@[j - 1] as int;
        let rest = lexical_matches_upto(t, i, j - 1);
        if t.child_fits(d, None, Some("variable_declarator"@)) {
            match t.find_child(d, Some("name"@), Some("identifier"@)) {
                Some(c) => rest.push(variable_match(i, c)),
                None => rest,
            }
        } else {
            rest
        }
    }
}

/// The symbol matches at node `i`.
pub open spec fn ts_node_matches(t: SyntaxTree, i: int) -> Seq<SymbolMatch> {
    if t.kind_of(i) == "lexical_declaration"@ {
        lexical_matches_upto(t, i, t.nodes@[i].children@.len() as int)
    } else {
        match ts_decl_rule(t.kind_of(i)) {
            Some((f, ck, sk)) => match t.find_child(i, Some(f), Some(ck)) {
                Some(c) => seq![
                    SymbolMatch { node: i, name_node: c, kind: sk, doc: None, visibility: None, parent: None },
                ],
                None => Seq::empty(),
            },
            None => Seq::empty(),
        }
    }
}

/// The symbol matches among the first `n` nodes, in preorder.
pub open spec fn ts_symbols_upto(t: SyntaxTree, n: int) -> Seq<SymbolMatch>
    decreases n,
{
    if n <= 0 {
        Seq::empty()
    } else {
        ts_symbols_upto(t, n - 1) + ts_node_matches(t, n - 1)
    }
}

/// All symbol matches of a TypeScript tree, in preorder.
pub open spec fn ts_symbol_matches(t: SyntaxTree) -> Seq<SymbolMatch> {
    ts_symbols_upto(t, t.nodes@.len() as int)
}

// ---------------------------------------------------------------------------
// What TypeScript nodes yield
// ---------------------------------------------------------------------------

/// The declaration kinds' names differ in their first characters.
proof fn lemma_decl_kinds_distinct()
    ensures
        "function_declaration"@[0] == 'f',
        "class_declaration"@[0] == 'c',
        "interface_declaration"@[0] == 'i',
        "enum_declaration"@[0] == 'e',
        "type_alias_declaration"@[0] == 't',
        "lexical_declaration"@[0] == 'l',
{
    reveal_strlit("function_declaration");
    reveal_strlit("class_declaration");
    reveal_strlit("interface_declaration");
    reveal_strlit("enum_declaration");
    reveal_strlit("type_alias_declaration");
    reveal_strlit("lexical_declaration");
}

proof fn lemma_lexical_matches_variables(t: SyntaxTree, i: int, j: int)
    ensures
        forall|q: int|
            0 <= q < lexical_matches_upto(t, i, j).len() ==> (#[trigger] lexical_matches_upto(t, i, j)[q]).node == i
                && lexical_matches_upto(t, i, j)[q].kind == SymbolKind::Variable,
    decreases j,
{
    if j > 0 && j <= t.nodes@[i].children@.len() {
        lemma_lexical_matches_variables(t, i, j - 1);
        let rest = lexical_matches_upto(t, i, j - 1);
        let all = lexical_matches_upto(t, i, j);
        assert forall|q: int| 0 <= q < all.len() implies (#[trigger] all[q]).node == i && all[q].kind
            == SymbolKind::Variable by {
            if q < rest.len() {
                assert(all[q] == rest[q]);
            }
        }
    }
}

/// Whether match `m` has the symbol kind its node declares.
spec fn decl_kind_fits(t: SyntaxTree, m: SymbolMatch) -> bool {
    if t.kind_of(m.node) == "lexical_declaration"@ {
        m.kind == SymbolKind::Variable
    } else {
        match ts_decl_rule(t.kind_of(m.node)) {
            Some((_, _, sk)) => sk == m.kind,
            None => false,
        }
    }
}

proof fn lemma_ts_symbols_upto_fit(t: SyntaxTree, n: int)
    requires
        n <= t.nodes@.len(),
    ensures
        forall|j: int|
            0 <= j < ts_symbols_upto(t, n).len() ==> decl_kind_fits(t, #[trigger] ts_symbols_upto(t, n)[j]),
    decreases n,
{
    if n > 0 {
        lemma_ts_symbols_upto_fit(t, n - 1);
        let prev = ts_symbols_upto(t, n - 1);
        let here = ts_node_matches(t, n - 1);
        let all = ts_symbols_upto(t, n);
        assert(all == prev + here);
        lemma_lexical_matches_variables(t, n - 1, t.nodes@[n - 1].children@.len() as int);
        assert forall|j: int| 0 <= j < all.len() implies decl_kind_fits(t, #[trigger] all[j]) by {
            if j < prev.len() {
                assert(all[j] == prev[j]);
            } else {
                assert(all[j] == here[j - prev.len()]);
            }
        }
    }
}

proof fn lemma_ts_symbols_upto_contains_at(t: SyntaxTree, n: int, i: int, q: int)
    requires
        0 <= i < n,
        0 <= q < ts_node_matches(t, i).len(),
    ensures
        exists|j: int| 0 <= j < ts_symbols_upto(t, n).len() && #[trigger] ts_symbols_upto(t, n)[j] == ts_node_matches(t, i)[q],
    decreases n,
{
    let prev = ts_symbols_upto(t, n - 1);
    let all = ts_symbols_upto(t, n);
    assert(all == prev + ts_node_matches(t, n - 1));
    if i == n - 1 {
        assert(all[prev.len() + q] == ts_node_matches(t, i)[q]);
    } else {
        lemma_ts_symbols_upto_contains_at(t, n - 1, i, q);
        let j = choose|j: int| 0 <= j < prev.len() && #[trigger] prev[j] == ts_node_matches(t, i)[q];
        assert(all[j] == prev[j]);
    }
}

proof fn lemma_lexical_matches_contain(t: SyntaxTree, i: int, j: int, q: int, c: int)
    requires
        0 <= q < j <= t.nodes@[i].children@.len(),
        t.child_fits(t.nodes@[i].children@[q] as int, None, Some("variable_declarator"@)),
        t.find_child(t.nodes@[i].children@[q] as int, Some("name"@), Some("identifier"@)) == Some(c),
    ensures
        lexical_matches_upto(t, i, j).contains(variable_match(i, c)),
    decreases j,
{
    let rest = lexical_matches_upto(t, i, j - 1);
    let all = lexical_matches_upto(t, i, j);
    if q == j - 1 {
        assert(all == rest.push(variable_match(i, c)));
        assert(all[rest.len() as int] == variable_match(i, c));
    } else {
        lemma_lexical_matches_contain(t, i, j - 1, q, c);
        let x = choose|x: int| 0 <= x < rest.len() && rest[x] == variable_match(i, c);
        assert(all[x] == rest[x]);
    }
}

/// Each variable declarator of a lexical declaration (`const`, `let`), at any depth, named
/// by an identifier yields a `Variable` symbol at the declaration, named by that identifier.
pub proof fn lemma_ts_declarators_yield_variables(t: SyntaxTree, i: int, q: int, c: int)
    requires
        t.wf(),
        0 <= i < t.nodes@.len(),
        t.kind_of(i) == "lexical_declaration"@,
        0 <= q < t.nodes@[i].children@.len(),
        t.child_fits(t.nodes@[i].children@[q] as int, None, Some("variable_declarator"@)),
        t.find_child(t.nodes@[i].children@[q] as int, Some("name"@), Some("identifier"@)) == Some(c),
    ensures
        has_symbol_match(ts_symbol_matches(t), i, c, SymbolKind::Variable),
{
    let n = t.nodes@.len() as int;
    let all = ts_symbols_upto(t, n);
    let m = ts_node_matches(t, i);
    lemma_lexical_matches_contain(t, i, t.nodes@[i].children@.len() as int, q, c);
    let x = choose|x: int| 0 <= x < m.len() && m[x] == variable_match(i, c);
    lemma_ts_symbols_upto_contains_at(t, n, i, x);
    let j = choose|j: int| 0 <= j < all.len() && #[trigger] all[j] == m[x];
    assert(all[j] == m[x]);
}

/// TypeScript declarations yield symbols of the kind they declare, at any depth: a function
/// declaration named by an identifier yields a `Function`; a class, interface or type alias
/// named by a type identifier yields a `Class`, `Interface` or `Type`; an enum named by an
/// identifier yields an `Enum`.
pub proof fn lemma_ts_declarations_yield_symbols(t: SyntaxTree, i: int)
    requires
        t.wf(),
        0 <= i < t.nodes@.len(),
    ensures
        t.kind_of(i) == "function_declaration"@ ==> (t.find_child(i, Some("name"@), Some("identifier"@)) matches Some(c)
            ==> has_symbol_match(ts_symbol_matches(t), i, c, SymbolKind::Function)),
        t.kind_of(i) == "class_declaration"@ ==> (t.find_child(i, Some("name"@), Some("type_identifier"@)) matches Some(c)
            ==> has_symbol_match(ts_symbol_matches(t), i, c, SymbolKind::Class)),
        t.kind_of(i) == "interface_declaration"@ ==> (t.find_child(i, Some("name"@), Some("type_identifier"@)) matches Some(c)
            ==> has_symbol_match(ts_symbol_matches(t), i, c, SymbolKind::Interface)),
        t.kind_of(i) == "enum_declaration"@ ==> (t.find_child(i, Some("name"@), Some("identifier"@)) matches Some(c)
            ==> has_symbol_match(ts_symbol_matches(t), i, c, SymbolKind::Enum)),
        t.kind_of(i) == "type_alias_declaration"@ ==> (t.find_child(i, Some("name"@), Some("type_identifier"@)) matches Some(c)
            ==> has_symbol_match(ts_symbol_matches(t), i, c, SymbolKind::Type)),
{
    let n = t.nodes@.len() as int;
    let all = ts_symbols_upto(t, n);
    let m = ts_node_matches(t, i);
    lemma_decl_kinds_distinct();
    if m.len() > 0 {
        lemma_ts_symbols_upto_contains_at(t, n, i, 0);
        let j = choose|j: int| 0 <= j < all.len() && #[trigger] all[j] == m[0];
        assert(all[j] == m[0]);
    }
}

/// Every TypeScript symbol has the kind its node declares: `Function` exactly at function
/// declarations, `Class` at classes, `Interface` at interfaces, `Enum` at enums, `Type` at
/// type aliases and `Variable` at lexical declarations; no other kind occurs.
pub proof fn lemma_ts_symbol_kinds_follow_nodes(t: SyntaxTree, j: int)
    requires
        t.wf(),
        0 <= j < ts_symbol_matches(t).len(),
    ensures
        ({
            let m = ts_symbol_matches(t)[j];
            let k = t.kind_of(m.node);
            &&& (m.kind == SymbolKind::Function <==> k == "function_declaration"@)
            &&& (m.kind == SymbolKind::Class <==> k == "class_declaration"@)
            &&& (m.kind == SymbolKind::Interface <==> k == "interface_declaration"@)
            &&& (m.kind == SymbolKind::Enum <==> k == "enum_declaration"@)
            &&& (m.kind == SymbolKind::Type <==> k == "type_alias_declaration"@)
            &&& (m.kind == SymbolKind::Variable <==> k == "lexical_declaration"@)
        }),
{
    lemma_ts_symbols_upto_fit(t, t.nodes@.len() as int);
    lemma_decl_kinds_distinct();
    assert(decl_kind_fits(t, ts_symbol_matches(t)[j]));
}

fn push_lexical(t: &SyntaxTree, source: &[u8], path: &str, i: usize, res: &mut Vec<Symbol>, Ghost(prev): Ghost<Seq<SymbolMatch>>)
    requires
        t.wf(),
        i < t.nodes@.len(),
        t.kind_of(i as int) == "lexical_declaration"@,
        symbols_are(old(res)@, *t, source@, path@, Language::TypeScript, prev),
    ensures
        symbols_are(final(res)@, *t, source@, path@, Language::TypeScript, prev + ts_node_matches(*t, i as int)),
{
    let n = t.nodes[i].children.len();
    let mut j: usize = 0;
    assert(prev + lexical_matches_upto(*t, i as int, 0) =~= prev);
    while j < n
        invariant
            t.wf(),
            i < t.nodes@.len(),
            n == t.nodes@[i as int].children@.len(),
            j <= n,
            symbols_are(res@, *t, source@, path@, Language::TypeScript, prev + lexical_matches_upto(*t, i as int, j as int)),
        decreases n - j,
    {
        let d = t.nodes[i].children[j];
        assert(i < d < t.nodes@.len()) by {
            assert(t.nodes@[i as int].children@[j as int] == d);
        }
        let ghost before = prev + lexical_matches_upto(*t, i as int, j as int);
        if t.fits(d, None, Some("variable_declarator")) {
            match t.first_child(d, Some("name"), Some("identifier")) {
                Some(c) => {
                    let s = make_symbol(t, source, path, Language::TypeScript, i, c, SymbolKind::Variable, None, None, None);
                    proof {
                        lemma_symbols_push(res@, s, *t, source@, path@, Language::TypeScript, before, variable_match(i as int, c as int));
                        assert(prev + lexical_matches_upto(*t, i as int, j + 1) =~= before.push(variable_match(i as int, c as int)));
                    }
                    res.push(s);
                },
                None => {
                    assert(prev + lexical_matches_upto(*t, i as int, j + 1) =~= before);
                },
            }
        } else {
            assert(prev + lexical_matches_upto(*t, i as int, j + 1) =~= before);
        }
        j = j + 1;
    }
}

/// The symbols of a TypeScript syntax tree, in preorder: functions, classes, interfaces,
/// enums and type aliases by name, and one variable per declarator of a lexical declaration.
pub fn ts_symbols(t: &SyntaxTree, source: &[u8], path: &str) -> (res: Vec<Symbol>)
    requires
        t.wf(),
    ensures
        symbols_are(res@, *t, source@, path@, Language::TypeScript, ts_symbol_matches(*t)),
{
    let mut res: Vec<Symbol> = Vec::new();
    let n = t.nodes.len();
    let mut i: usize = 0;
    while i < n
        invariant
            t.wf(),
            n == t.nodes@.len(),
            i <= n,
            symbols_are(res@, *t, source@, path@, Language::TypeScript, ts_symbols_upto(*t, i as int)),
        decreases n - i,
    {
        let ghost prev = ts_symbols_upto(*t, i as int);
        assert(ts_symbols_upto(*t, i + 1) == prev + ts_node_matches(*t, i as int));
        if t.is_kind(i, "lexical_declaration") {
            push_lexical(t, source, path, i, &mut res, Ghost(prev));
        } else {
            match decl_rule_of(t, i) {
                Some((f, c, k)) => match t.first_child(i, Some(f), Some(c)) {
                    Some(name) => {
                        let s = make_symbol(t, source, path, Language::TypeScript, i, name, k, None, None, None);
                        proof {
                            let m = ts_node_matches(*t, i as int);
                            assert(m =~= seq![m[0]]);
                            lemma_symbols_push(res@, s, *t, source@, path@, Language::TypeScript, prev, m[0]);
                        }
                        res.push(s);
                    },
                    None => {
                        assert(prev + ts_node_matches(*t, i as int) =~= prev);
                    },
                },
                None => {
                    assert(prev + ts_node_matches(*t, i as int) =~= prev);
                },
            }
        }
        i = i + 1;
    }
    res
}

/// The import match at node `i`: an import statement whose `source` string holds a string
/// fragment, the fragment's text being the target.
pub open spec fn ts_import_match(t: SyntaxTree, source: Seq<u8>, i: int) -> Seq<ImportMatch> {
    if t.kind_of(i) == "import_statement"@ {
        match t.find_child(i, Some("source"@), Some("string"@)) {
            Some(s) => match t.find_child(s, None, Some("string_fragment"@)) {
                Some(f) => seq![ImportMatch { node: i, target: spec_node_text_or_empty(source, t.nodes@[f]) }],
                None => Seq::empty(),
            },
            None => Seq::empty(),
        }
    } else {
        Seq::empty()
    }
}

/// The import matches among the first `n` nodes, in preorder.
pub open spec fn ts_imports_upto(t: SyntaxTree, source: Seq<u8>, n: int) -> Seq<ImportMatch>
    decreases n,
{
    if n <= 0 {
        Seq::empty()
    } else {
        ts_imports_upto(t, source, n - 1) + ts_import_match(t, source, n - 1)
    }
}

proof fn lemma_ts_imports_upto_contains(t: SyntaxTree, source: Seq<u8>, n: int, i: int)
    requires
        0 <= i < n,
        ts_import_match(t, source, i).len() > 0,
    ensures
        exists|j: int|
            0 <= j < ts_imports_upto(t, source, n).len() && #[trigger] ts_imports_upto(t, source, n)[j]
                == ts_import_match(t, source, i)[0],
    decreases n,
{
    let prev = ts_imports_upto(t, source, n - 1);
    let all = ts_imports_upto(t, source, n);
    assert(all == prev + ts_import_match(t, source, n - 1));
    if i == n - 1 {
        assert(all[prev.len() as int] == ts_import_match(t, source, i)[0]);
    } else {
        lemma_ts_imports_upto_contains(t, source, n - 1, i);
        let j = choose|j: int| 0 <= j < prev.len() && #[trigger] prev[j] == ts_import_match(t, source, i)[0];
        assert(all[j] == prev[j]);
    }
}

proof fn lemma_ts_imports_upto_ordered(t: SyntaxTree, source: Seq<u8>, n: int)
    ensures
        forall|j: int|
            0 <= j < ts_imports_upto(t, source, n).len() ==> {
                let m = #[trigger] ts_imports_upto(t, source, n)[j];
                &&& 0 <= m.node < n
                &&& t.kind_of(m.node) == "import_statement"@
            },
        forall|j1: int, j2: int|
            0 <= j1 < j2 < ts_imports_upto(t, source, n).len() ==> (#[trigger] ts_imports_upto(
                t,
                source,
                n,
            )[j1]).node < (#[trigger] ts_imports_upto(t, source, n)[j2]).node,
    decreases n,
{
    if n > 0 {
        lemma_ts_imports_upto_ordered(t, source, n - 1);
        let prev = ts_imports_upto(t, source, n - 1);
        let all = ts_imports_upto(t, source, n);
        let here = ts_import_match(t, source, n - 1);
        assert(all == prev + here);
        assert forall|j: int| 0 <= j < all.len() implies {
            let m = #[trigger] all[j];
            &&& 0 <= m.node < n
            &&& t.kind_of(m.node) == "import_statement"@
        } by {
            if j < prev.len() {
                assert(all[j] == prev[j]);
            } else {
                assert(all[j] == here[j - prev.len()]);
            }
        }
        assert forall|j1: int, j2: int| 0 <= j1 < j2 < all.len() implies (#[trigger] all[j1]).node
            < (#[trigger] all[j2]).node by {
            if j2 < prev.len() {
                assert(all[j1] == prev[j1]);
                assert(all[j2] == prev[j2]);
            } else {
                assert(all[j2] == here[j2 - prev.len()]);
                assert(j1 < prev.len());
                assert(all[j1] == prev[j1]);
            }
        }
    }
}

/// Every import statement of a TypeScript tree, at any depth, whose `source` is a string with
/// a fragment yields an import of that fragment's text at that statement; each import comes
/// from a distinct import statement, in preorder, so no statement yields two.
pub proof fn lemma_ts_import_statements_yield_imports(t: SyntaxTree, source: Seq<u8>, i: int)
    requires
        t.wf(),
        0 <= i < t.nodes@.len(),
    ensures
        t.kind_of(i) == "import_statement"@ ==> (t.find_child(i, Some("source"@), Some("string"@)) matches Some(s)
            ==> (t.find_child(s, None, Some("string_fragment"@)) matches Some(f) ==> has_import_match(
            ts_imports_upto(t, source, t.nodes@.len() as int),
            i,
            spec_node_text_or_empty(source, t.nodes@[f]),
        ))),
        forall|j: int|
            0 <= j < ts_imports_upto(t, source, t.nodes@.len() as int).len() ==> t.kind_of(
                (#[trigger] ts_imports_upto(t, source, t.nodes@.len() as int)[j]).node,
            ) == "import_statement"@,
        forall|j1: int, j2: int|
            0 <= j1 < j2 < ts_imports_upto(t, source, t.nodes@.len() as int).len() ==> (#[trigger] ts_imports_upto(
                t,
                source,
                t.nodes@.len() as int,
            )[j1]).node < (#[trigger] ts_imports_upto(t, source, t.nodes@.len() as int)[j2]).node,
{
    let n = t.nodes@.len() as int;
    let all = ts_imports_upto(t, source, n);
    lemma_ts_imports_upto_ordered(t, source, n);
    let m = ts_import_match(t, source, i);
    if m.len() > 0 {
        lemma_ts_imports_upto_contains(t, source, n, i);
        let j = choose|j: int| 0 <= j < all.len() && #[trigger] all[j] == m[0];
        assert(all[j].node == i);
    }
}

/// The imports of a TypeScript syntax tree: each import statement in preorder, with the text
/// of its source string as the target.
pub fn ts_imports(t: &SyntaxTree, source: &[u8], path: &str) -> (res: Vec<Import>)
    requires
        t.wf(),
    ensures
        imports_are(res@, *t, path@, ImportKind::Import, ts_imports_upto(*t, source@, t.nodes@.len() as int)),
{
    let mut res: Vec<Import> = Vec::new();
    let n = t.nodes.len();
    let mut i: usize = 0;
    while i < n
        invariant
            t.wf(),
            n == t.nodes@.len(),
            i <= n,
            imports_are(res@, *t, path@, ImportKind::Import, ts_imports_upto(*t, source@, i as int)),
        decreases n - i,
    {
        let ghost prev = ts_imports_upto(*t, source@, i as int);
        let mut found: Option<usize> = None;
        if t.is_kind(i, "import_statement") {
            match t.first_child(i, Some("source"), Some("string")) {
                Some(s) => {
                    found = t.first_child(s, None, Some("string_fragment"));
                },
                None => {},
            }
        }
        match found {
            Some(f) => {
                let target = node_text_or_empty(source, &t.nodes[f]);
                let imp = make_import(t, path, i, target, ImportKind::Import);
                proof {
                    let m = ImportMatch { node: i as int, target: target@ };
                    assert(ts_import_match(*t, source@, i as int) =~= seq![m]);
                    lemma_imports_push(res@, imp, *t, path@, ImportKind::Import, prev, m);
                }
                res.push(imp);
            },
            None => {
                assert(prev + ts_import_match(*t, source@, i as int) =~= prev);
            },
        }
        i = i + 1;
    }
    res
}

/// The TypeScript parser.
pub struct TypeScriptParser {
    grammar: TsLanguage,
}

impl TypeScriptParser {
    /// A parser with the TypeScript grammar.
    pub fn new() -> Self {
        TypeScriptParser { grammar: typescript_grammar() }
    }
}

impl crate::parser::LanguageParser for TypeScriptParser {
    open spec fn spec_language(&self) -> Language {
        Language::TypeScript
    }

    fn language(&self) -> (l: Language) {
        Language::TypeScript
    }

    fn extensions(&self) -> (res: Vec<&'static str>) {
        Language::TypeScript.extensions()
    }

    /// The symbols of the syntax tree the parser gives, as `ts_symbols` extracts them; none
    /// when the parser gives no tree.
    fn parse_symbols(&self, source: &[u8], file_path: &str) -> (res: Vec<Symbol>)
        ensures
            symbols_of_some_tree(res@, source@, file_path@, Language::TypeScript),
    {
        proof {
            reveal(symbols_of_some_tree);
        }
        match syntax_tree(&self.grammar, source) {
            Some(t) => {
                let res = ts_symbols(&t, source, file_path);
                assert(symbols_are(
                    res@,
                    t,
                    source@,
                    file_path@,
                    Language::TypeScript,
                    symbol_matches_of(Language::TypeScript, t, source@),
                ));
                assert forall|k: int| 0 <= k < res@.len() implies (#[trigger] res@[k]).language
                    == Language::TypeScript && res@[k].file_path@ == file_path@ by {
                    assert(crate::parser::extract::symbol_is(res@[k], t, source@, file_path@, Language::TypeScript, ts_symbol_matches(t)[k]));
                }
                res
            },
            None => Vec::new(),
        }
    }

    /// The imports of the syntax tree the parser gives, as `ts_imports` extracts them; none
    /// when the parser gives no tree.
    fn parse_imports(&self, source: &[u8], file_path: &str) -> (res: Vec<Import>)
        ensures
            imports_of_some_tree(res@, source@, file_path@, Language::TypeScript),
    {
        proof {
            reveal(imports_of_some_tree);
        }
        match syntax_tree(&self.grammar, source) {
            Some(t) => {
                let res = ts_imports(&t, source, file_path);
                assert(imports_are(
                    res@,
                    t,
                    file_path@,
                    import_kind_of(Language::TypeScript),
                    import_matches_of(Language::TypeScript, t, source@),
                ));
                assert forall|k: int| 0 <= k < res@.len() implies (#[trigger] res@[k]).source_file@ == file_path@ by {
                    let ms = ts_imports_upto(t, source@, t.nodes@.len() as int);
                    assert(crate::parser::extract::import_is(res@[k], t, file_path@, ms[k].node, ms[k].target, ImportKind::Import));
                }
                res
            },
            None => Vec::new(),
        }
    }

    /// The source text cut at the start rows of the top-level statements of the syntax tree,
    /// or at no boundary when the parser gives no tree.
    fn chunk_file(&self, source: &[u8], file_path: &str) -> (res: Vec<Chunk>)
        ensures
            chunks_at_some_tree(res@, source@, file_path@, Language::TypeScript),
    {
        let text = source_text(source);
        let b = match syntax_tree(&self.grammar, source) {
            Some(t) => root_boundary_rows(&t),
            None => Vec::new(),
        };
        let res = chunk_by_lines(text.as_str(), file_path, Language::TypeScript, b.as_slice());
        assert(chunks_are(res@, spec_source_text(source@), file_path@, Language::TypeScript, b@));
        proof {
            if b@.len() == 0 {
                assert(b@ =~= Seq::<usize>::empty());
            }
            reveal(chunked_by_lines);
            reveal(chunks_at_some_tree);
        }
        res
    }
}

} // verus!
