//! Symbols, imports and chunks of Rust source.
use vstd::prelude::*;

use crate::chunker::{chunk_by_lines, chunked_by_lines, chunks_are};
use crate::parser::extract::{
    has_import_match, has_symbol_match, lemma_imports_push, lemma_symbols_push, make_import, make_symbol, opt_string_view,
    root_boundary_rows, imports_are, symbols_are, ImportMatch, SymbolMatch,
};
use crate::syntax::{
    join_with, node_text, node_text_or_empty, source_text, spec_node_text,
    spec_node_text_or_empty, spec_source_text, starts_with, strip_prefixes, strip_prefixes_chars,
    trim, trim_chars, SyntaxTree,
};
use crate::text::chars_of;
use crate::ts::{rust_grammar, syntax_tree};
use crate::parser::{
    chunks_at_some_tree, import_kind_of, import_matches_of, imports_of_some_tree, symbol_matches_of,
    symbols_of_some_tree,
};
use crate::types::{Chunk, Import, ImportKind, Language, Symbol, SymbolKind};
use tree_sitter::Language as TsLanguage;

verus! {

/// The item patterns: node kind, then the field and kind of the child that names the item,
/// and the symbol kind it yields.
pub open spec fn rust_item_rule(k: Seq<char>) -> Option<(Seq<char>, Seq<char>, SymbolKind)> {
    if k == "function_item"@ {
        Some(("name"@, "identifier"@, SymbolKind::Function))
    } else if k == "struct_item"@ {
        Some(("name"@, "type_identifier"@, SymbolKind::Struct))
    } else if k == "enum_item"@ {
        Some(("name"@, "type_identifier"@, SymbolKind::Enum))
    } else if k == "trait_item"@ {
        Some(("name"@, "type_identifier"@, SymbolKind::Trait))
    } else if k == "const_item"@ {
        Some(("name"@, "identifier"@, SymbolKind::Constant))
    } else if k == "static_item"@ {
        Some(("name"@, "identifier"@, SymbolKind::Constant))
    } else if k == "type_item"@ {
        Some(("name"@, "type_identifier"@, SymbolKind::Type))
    } else if k == "impl_item"@ {
        Some(("type"@, "type_identifier"@, SymbolKind::Impl))
    } else {
        None
    }
}

fn item_rule_of(t: &SyntaxTree, i: usize) -> (r: Option<(&'static str, &'static str, SymbolKind)>)
    requires
        i < t.nodes@.len(),
    ensures
        match r {
            Some((f, c, k)) => rust_item_rule(t.kind_of(i as int)) == Some((f@, c@, k)),
            None => rust_item_rule(t.kind_of(i as int)) is None,
        },
{
    if t.is_kind(i, "function_item") {
        Some(("name", "identifier", SymbolKind::Function))
    } else if t.is_kind(i, "struct_item") {
        Some(("name", "type_identifier", SymbolKind::Struct))
    } else if t.is_kind(i, "enum_item") {
        Some(("name", "type_identifier", SymbolKind::Enum))
    } else if t.is_kind(i, "trait_item") {
        Some(("name", "type_identifier", SymbolKind::Trait))
    } else if t.is_kind(i, "const_item") {
        Some(("name", "identifier", SymbolKind::Constant))
    } else if t.is_kind(i, "static_item") {
        Some(("name", "identifier", SymbolKind::Constant))
    } else if t.is_kind(i, "type_item") {
        Some(("name", "type_identifier", SymbolKind::Type))
    } else if t.is_kind(i, "impl_item") {
        Some(("type", "type_identifier", SymbolKind::Impl))
    } else {
        None
    }
}

/// The doc comment lines just before child `j` of node `p`, nearest first: `///` and `//!`
/// line comments, markers and surrounding white space removed, up to and including the
/// nearest block comment (kept whole); anything else ends the run.
pub open spec fn doc_lines_before(t: SyntaxTree, source: Seq<u8>, p: int, j: int) -> Seq<Seq<char>>
    decreases j,
{
    if j <= 0 || j > t.nodes@[p].children@.len() {
        Seq::empty()
    } else {
        let s = t.nodes@[p].children@[j - 1] as int;
        let text = spec_node_text_or_empty(source, t.nodes@[s]);
        if t.kind_of(s) == "line_comment"@ {
            if starts_with(text, "///"@) || starts_with(text, "//!"@) {
                seq![trim(strip_prefixes(strip_prefixes(text, "///"@), "//!"@))] + doc_lines_before(
                    t,
                    source,
                    p,
                    j - 1,
                )
            } else {
                Seq::empty()
            }
        } else if t.kind_of(s) == "block_comment"@ {
            seq![text]
        } else {
            Seq::empty()
        }
    }
}

/// The doc comment of node `i`: its doc comment lines in source order, joined with spaces.
pub open spec fn rust_doc_comment(t: SyntaxTree, source: Seq<u8>, i: int) -> Option<Seq<char>> {
    match t.nodes@[i].parent {
        Some(p) => {
            let ls = doc_lines_before(t, source, p as int, t.nodes@[i].index_in_parent as int);
            if ls.len() == 0 {
                None
            } else {
                Some(join_with(ls.reverse(), " "@))
            }
        },
        None => None,
    }
}

/// The first child of node `i`, from position `j` on, of kind `k`.
pub open spec fn find_kind_from(t: SyntaxTree, i: int, j: int, k: Seq<char>) -> Option<int>
    decreases t.nodes@[i].children@.len() - j,
{
    if j < 0 || j >= t.nodes@[i].children@.len() {
        None
    } else if t.kind_of(t.nodes@[i].children@[j] as int) == k {
        Some(t.nodes@[i].children@[j] as int)
    } else {
        find_kind_from(t, i, j + 1, k)
    }
}

/// The visibility of node `i`: the text of its first `visibility_modifier` child (`pub` when
/// that text cannot be read).
pub open spec fn rust_visibility(t: SyntaxTree, source: Seq<u8>, i: int) -> Option<Seq<char>> {
    match find_kind_from(t, i, 0, "visibility_modifier"@) {
        Some(c) => match spec_node_text(source, t.nodes@[c]) {
            Some(x) => Some(x),
            None => Some("pub"@),
        },
        None => None,
    }
}

/// The item match at node `i`, if any.
pub open spec fn rust_item_match(t: SyntaxTree, source: Seq<u8>, i: int) -> Seq<SymbolMatch> {
    match rust_item_rule(t.kind_of(i)) {
        Some((f, ck, sk)) => match t.find_child(i, Some(f), Some(ck)) {
            Some(c) => seq![
                SymbolMatch {
                    node: i,
                    name_node: c,
                    kind: sk,
                    doc: rust_doc_comment(t, source, i),
                    visibility: rust_visibility(t, source, i),
                    parent: None,
                },
            ],
            None => Seq::empty(),
        },
        None => Seq::empty(),
    }
}

/// The node of the impl type for a method at node `i`: `i` is a function item directly in the
/// `body` declaration list of an impl item whose `type` is a type identifier.
pub open spec fn method_impl_type(t: SyntaxTree, i: int) -> Option<int> {
    match t.nodes@[i].parent {
        Some(p) => {
            let p = p as int;
            if t.kind_of(p) == "declaration_list"@ && t.child_fits(
                p,
                Some("body"@),
                Some("declaration_list"@),
            ) {
                match t.nodes@[p].parent {
                    Some(q) => if t.kind_of(q as int) == "impl_item"@ {
                        t.find_child(q as int, Some("type"@), Some("type_identifier"@))
                    } else {
                        None
                    },
                    None => None,
                }
            } else {
                None
            }
        },
        None => None,
    }
}

/// The method match at node `i`, if any.
pub open spec fn rust_method_match(t: SyntaxTree, source: Seq<u8>, i: int) -> Seq<SymbolMatch> {
    if t.kind_of(i) == "function_item"@ && t.nodes@[i].named {
        match (method_impl_type(t, i), t.find_child(i, Some("name"@), Some("identifier"@))) {
            (Some(ty), Some(c)) => seq![
                SymbolMatch {
                    node: i,
                    name_node: c,
                    kind: SymbolKind::Method,
                    doc: rust_doc_comment(t, source, i),
                    visibility: rust_visibility(t, source, i),
                    parent: Some(spec_node_text_or_empty(source, t.nodes@[ty])),
                },
            ],
            _ => Seq::empty(),
        }
    } else {
        Seq::empty()
    }
}

/// The item matches among the first `n` nodes, in preorder.
pub open spec fn rust_items_upto(t: SyntaxTree, source: Seq<u8>, n: int) -> Seq<SymbolMatch>
    decreases n,
{
    if n <= 0 {
        Seq::empty()
    } else {
        rust_items_upto(t, source, n - 1) + rust_item_match(t, source, n - 1)
    }
}

/// The method matches among the first `n` nodes, in preorder.
pub open spec fn rust_methods_upto(t: SyntaxTree, source: Seq<u8>, n: int) -> Seq<SymbolMatch>
    decreases n,
{
    if n <= 0 {
        Seq::empty()
    } else {
        rust_methods_upto(t, source, n - 1) + rust_method_match(t, source, n - 1)
    }
}

/// All symbol matches of a Rust tree: the items in preorder, then the methods in preorder.
pub open spec fn rust_symbol_matches(t: SyntaxTree, source: Seq<u8>) -> Seq<SymbolMatch> {
    rust_items_upto(t, source, t.nodes@.len() as int) + rust_methods_upto(
        t,
        source,
        t.nodes@.len() as int,
    )
}

fn doc_comment_of(t: &SyntaxTree, source: &[u8], i: usize) -> (res: Option<String>)
    requires
        t.wf(),
        i < t.nodes@.len(),
    ensures
        opt_string_view(res) == rust_doc_comment(*t, source@, i as int),
{
    let p = match t.nodes[i].parent {
        Some(p) => p,
        None => return None,
    };
    assert(p < i && t.nodes@[i as int].index_in_parent < t.nodes@[p as int].children@.len()) by {
        assert(t.nodes@[i as int].parent == Some(p));
    }
    let ghost all = doc_lines_before(*t, source@, p as int, t.nodes@[i as int].index_in_parent as int);
    let mut lines: Vec<Vec<char>> = Vec::new();
    let mut j = t.nodes[i].index_in_parent;
    let mut done = false;
    while j > 0 && !done
        invariant
            t.wf(),
            p < t.nodes@.len(),
            j <= t.nodes@[p as int].children@.len(),
            all == doc_lines_before(*t, source@, p as int, t.nodes@[i as int].index_in_parent as int),
            !done ==> all =~= lines@.map_values(|v: Vec<char>| v@) + doc_lines_before(
                *t,
                source@,
                p as int,
                j as int,
            ),
            done ==> all =~= lines@.map_values(|v: Vec<char>| v@),
        decreases j,
    {
        let s = t.nodes[p].children[j - 1];
        assert(s < t.nodes@.len()) by {
            assert(t.nodes@[p as int].children@[j - 1] == s);
        }
        let text = node_text_or_empty(source, &t.nodes[s]);
        let tc = chars_of(text.as_str());
        let ghost before = lines@.map_values(|v: Vec<char>| v@);
        if t.is_kind(s, "line_comment") {
            let slash = chars_of("///");
            let bang = chars_of("//!");
            proof {
                reveal_strlit("///");
                reveal_strlit("//!");
            }
            if crate::syntax::starts_with_vec(&tc, &slash) || crate::syntax::starts_with_vec(&tc, &bang) {
                let a = strip_prefixes_chars(&tc, "///");
                let b = strip_prefixes_chars(&a, "//!");
                let c = trim_chars(&b);
                lines.push(c);
                assert(lines@.map_values(|v: Vec<char>| v@) =~= before.push(c@));
                j = j - 1;
            } else {
                done = true;
                j = 0;
            }
        } else if t.is_kind(s, "block_comment") {
            lines.push(tc);
            assert(lines@.map_values(|v: Vec<char>| v@) =~= before.push(tc@));
            done = true;
            j = 0;
        } else {
            done = true;
            j = 0;
        }
    }
    assert(all =~= lines@.map_values(|v: Vec<char>| v@)) by {
        if !done {
            assert(doc_lines_before(*t, source@, p as int, j as int) =~= Seq::empty());
        }
    }
    if lines.len() == 0 {
        return None;
    }
    Some(join_reversed_with_space(&lines))
}

/// The texts of `ls` in reverse order, joined with single spaces.
fn join_reversed_with_space(ls: &Vec<Vec<char>>) -> (res: String)
    requires
        ls@.len() > 0,
    ensures
        res@ == join_with(ls@.map_values(|v: Vec<char>| v@).reverse(), " "@),
{
    let ghost all = ls@.map_values(|v: Vec<char>| v@).reverse();
    let mut s = String::new();
    let mut k: usize = 0;
    proof {
        reveal_strlit(" ");
    }
    while k < ls.len()
        invariant
            k <= ls@.len(),
            all == ls@.map_values(|v: Vec<char>| v@).reverse(),
            all.len() == ls@.len(),
            s@ == join_with(all.take(k as int), " "@),
        decreases ls@.len() - k,
    {
        let ghost before = s@;
        if k > 0 {
            crate::text::push_char(&mut s, ' ');
        }
        let item = &ls[ls.len() - 1 - k];
        crate::text::append_range(&mut s, item, 0, item.len());
        proof {
            assert(all[k as int] == ls@[ls@.len() - 1 - k]@);
            assert(item@.subrange(0, item@.len() as int) =~= item@);
            assert(all.take(k + 1).drop_last() =~= all.take(k as int));
            if k == 0 {
                assert(all.take(1) =~= seq![all[0]]);
                assert(s@ =~= all[0]);
            } else {
                reveal_strlit(" ");
                assert(all.take(k + 1).last() == all[k as int]);
                assert(s@ =~= before + " "@ + all[k as int]);
            }
        }
        k = k + 1;
    }
    assert(all.take(ls@.len() as int) =~= all);
    s
}

} // verus!
verus! {

fn visibility_of(t: &SyntaxTree, source: &[u8], i: usize) -> (res: Option<String>)
    requires
        t.wf(),
        i < t.nodes@.len(),
    ensures
        opt_string_view(res) == rust_visibility(*t, source@, i as int),
{
    let n = t.nodes[i].children.len();
    let mut j: usize = n;
    let mut found: Option<usize> = None;
    while j > 0
        invariant
            t.wf(),
            i < t.nodes@.len(),
            n == t.nodes@[i as int].children@.len(),
            j <= n,
            found is None ==> find_kind_from(*t, i as int, j as int, "visibility_modifier"@) is None,
            found matches Some(c) ==> Some(c as int) == find_kind_from(
                *t,
                i as int,
                j as int,
                "visibility_modifier"@,
            ) && c < t.nodes@.len(),
        decreases j,
    {
        j = j - 1;
        let c = t.nodes[i].children[j];
        assert(c < t.nodes@.len()) by {
            assert(t.nodes@[i as int].children@[j as int] == c);
        }
        if t.is_kind(c, "visibility_modifier") {
            found = Some(c);
        }
    }
    match found {
        Some(c) => match node_text(source, &t.nodes[c]) {
            Some(x) => Some(x),
            None => {
                let p = String::from_str("pub");
                Some(p)
            },
        },
        None => None,
    }
}

fn item_match_symbol(t: &SyntaxTree, source: &[u8], path: &str, i: usize) -> (res: Option<Symbol>)
    requires
        t.wf(),
        i < t.nodes@.len(),
    ensures
        match res {
            Some(s) => rust_item_match(*t, source@, i as int).len() == 1 && crate::parser::extract::symbol_is(
                s,
                *t,
                source@,
                path@,
                Language::Rust,
                rust_item_match(*t, source@, i as int)[0],
            ),
            None => rust_item_match(*t, source@, i as int).len() == 0,
        },
{
    match item_rule_of(t, i) {
        Some((f, c, k)) => match t.first_child(i, Some(f), Some(c)) {
            Some(name) => {
                let doc = doc_comment_of(t, source, i);
                let vis = visibility_of(t, source, i);
                Some(make_symbol(t, source, path, Language::Rust, i, name, k, doc, vis, None))
            },
            None => None,
        },
        None => None,
    }
}

fn method_match_symbol(t: &SyntaxTree, source: &[u8], path: &str, i: usize) -> (res: Option<Symbol>)
    requires
        t.wf(),
        i < t.nodes@.len(),
    ensures
        match res {
            Some(s) => rust_method_match(*t, source@, i as int).len() == 1 && crate::parser::extract::symbol_is(
                s,
                *t,
                source@,
                path@,
                Language::Rust,
                rust_method_match(*t, source@, i as int)[0],
            ),
            None => rust_method_match(*t, source@, i as int).len() == 0,
        },
{
    if !(t.is_kind(i, "function_item") && t.nodes[i].named) {
        return None;
    }
    let p = match t.nodes[i].parent {
        Some(p) => p,
        None => return None,
    };
    assert(p < i) by {
        assert(t.nodes@[i as int].parent == Some(p));
    }
    if !(t.is_kind(p, "declaration_list") && t.fits(p, Some("body"), Some("declaration_list"))) {
        return None;
    }
    let q = match t.nodes[p].parent {
        Some(q) => q,
        None => return None,
    };
    assert(q < p) by {
        assert(t.nodes@[p as int].parent == Some(q));
    }
    if !t.is_kind(q, "impl_item") {
        return None;
    }
    let ty = match t.first_child(q, Some("type"), Some("type_identifier")) {
        Some(ty) => ty,
        None => return None,
    };
    let name = match t.first_child(i, Some("name"), Some("identifier")) {
        Some(c) => c,
        None => return None,
    };
    let doc = doc_comment_of(t, source, i);
    let vis = visibility_of(t, source, i);
    let owner = node_text_or_empty(source, &t.nodes[ty]);
    Some(make_symbol(t, source, path, Language::Rust, i, name, SymbolKind::Method, doc, vis, Some(owner)))
}

/// The symbols of a Rust syntax tree: each item (function, struct, enum, trait, constant,
/// static, type alias, impl) in preorder, then each method of an impl block in preorder.
pub fn rust_symbols(t: &SyntaxTree, source: &[u8], path: &str) -> (res: Vec<Symbol>)
    requires
        t.wf(),
    ensures
        symbols_are(res@, *t, source@, path@, Language::Rust, rust_symbol_matches(*t, source@)),
{
    let mut res: Vec<Symbol> = Vec::new();
    let n = t.nodes.len();
    let mut i: usize = 0;
    while i < n
        invariant
            t.wf(),
            n == t.nodes@.len(),
            i <= n,
            symbols_are(res@, *t, source@, path@, Language::Rust, rust_items_upto(*t, source@, i as int)),
        decreases n - i,
    {
        let ghost prev = rust_items_upto(*t, source@, i as int);
        assert(rust_items_upto(*t, source@, i + 1) == prev + rust_item_match(*t, source@, i as int));
        match item_match_symbol(t, source, path, i) {
            Some(s) => {
                proof {
                    let m = rust_item_match(*t, source@, i as int);
                    assert(m =~= seq![m[0]]);
                    lemma_symbols_push(res@, s, *t, source@, path@, Language::Rust, prev, m[0]);
                }
                res.push(s);
            },
            None => {
                assert(prev + rust_item_match(*t, source@, i as int) =~= prev);
            },
        }
        i = i + 1;
    }
    let ghost items = rust_items_upto(*t, source@, n as int);
    assert(items + rust_methods_upto(*t, source@, 0) =~= items);
    let mut i: usize = 0;
    while i < n
        invariant
            t.wf(),
            n == t.nodes@.len(),
            i <= n,
            items == rust_items_upto(*t, source@, n as int),
            symbols_are(
                res@,
                *t,
                source@,
                path@,
                Language::Rust,
                items + rust_methods_upto(*t, source@, i as int),
            ),
        decreases n - i,
    {
        let ghost prev = items + rust_methods_upto(*t, source@, i as int);
        assert(items + rust_methods_upto(*t, source@, i + 1) =~= prev + rust_method_match(
            *t,
            source@,
            i as int,
        ));
        match method_match_symbol(t, source, path, i) {
            Some(s) => {
                proof {
                    let m = rust_method_match(*t, source@, i as int);
                    assert(m =~= seq![m[0]]);
                    lemma_symbols_push(res@, s, *t, source@, path@, Language::Rust, prev, m[0]);
                }
                res.push(s);
            },
            None => {
                assert(prev + rust_method_match(*t, source@, i as int) =~= prev);
            },
        }
        i = i + 1;
    }
    res
}

// ---------------------------------------------------------------------------
// What Rust nodes yield
// ---------------------------------------------------------------------------

/// The item kinds' names differ: they differ in their first characters, or in the second or
/// third where those agree.
proof fn lemma_item_kinds_distinct()
    ensures
        "function_item"@[0] == 'f',
        "struct_item"@[0] == 's' && "struct_item"@[2] == 'r',
        "enum_item"@[0] == 'e',
        "trait_item"@[0] == 't' && "trait_item"@[1] == 'r',
        "const_item"@[0] == 'c',
        "static_item"@[0] == 's' && "static_item"@[2] == 'a',
        "type_item"@[0] == 't' && "type_item"@[1] == 'y',
        "impl_item"@[0] == 'i',
{
    reveal_strlit("function_item");
    reveal_strlit("struct_item");
    reveal_strlit("enum_item");
    reveal_strlit("trait_item");
    reveal_strlit("const_item");
    reveal_strlit("static_item");
    reveal_strlit("type_item");
    reveal_strlit("impl_item");
}

/// Whether match `m` has the symbol kind its node's item rule gives.
spec fn item_kind_fits(t: SyntaxTree, m: SymbolMatch) -> bool {
    match rust_item_rule(t.kind_of(m.node)) {
        Some((_, _, sk)) => sk == m.kind,
        None => false,
    }
}

proof fn lemma_items_upto_contains(t: SyntaxTree, source: Seq<u8>, n: int, i: int)
    requires
        0 <= i < n,
        rust_item_match(t, source, i).len() > 0,
    ensures
        exists|j: int|
            0 <= j < rust_items_upto(t, source, n).len() && #[trigger] rust_items_upto(t, source, n)[j]
                == rust_item_match(t, source, i)[0],
    decreases n,
{
    let prev = rust_items_upto(t, source, n - 1);
    let all = rust_items_upto(t, source, n);
    assert(all == prev + rust_item_match(t, source, n - 1));
    if i == n - 1 {
        assert(all[prev.len() as int] == rust_item_match(t, source, i)[0]);
    } else {
        lemma_items_upto_contains(t, source, n - 1, i);
        let j = choose|j: int| 0 <= j < prev.len() && #[trigger] prev[j] == rust_item_match(t, source, i)[0];
        assert(all[j] == prev[j]);
    }
}

proof fn lemma_items_upto_fit(t: SyntaxTree, source: Seq<u8>, n: int)
    ensures
        forall|j: int|
            0 <= j < rust_items_upto(t, source, n).len() ==> item_kind_fits(t, #[trigger] rust_items_upto(t, source, n)[j]),
    decreases n,
{
    if n > 0 {
        lemma_items_upto_fit(t, source, n - 1);
        let prev = rust_items_upto(t, source, n - 1);
        let all = rust_items_upto(t, source, n);
        assert(all == prev + rust_item_match(t, source, n - 1));
        assert forall|j: int| 0 <= j < all.len() implies item_kind_fits(t, #[trigger] all[j]) by {
            if j < prev.len() {
                assert(all[j] == prev[j]);
            }
        }
    }
}

proof fn lemma_methods_upto_fit(t: SyntaxTree, source: Seq<u8>, n: int)
    ensures
        forall|j: int|
            0 <= j < rust_methods_upto(t, source, n).len() ==> {
                let m = #[trigger] rust_methods_upto(t, source, n)[j];
                m.kind == SymbolKind::Method && t.kind_of(m.node) == "function_item"@
            },
    decreases n,
{
    if n > 0 {
        lemma_methods_upto_fit(t, source, n - 1);
        let prev = rust_methods_upto(t, source, n - 1);
        let all = rust_methods_upto(t, source, n);
        assert(all == prev + rust_method_match(t, source, n - 1));
        assert forall|j: int| 0 <= j < all.len() implies {
            let m = #[trigger] all[j];
            m.kind == SymbolKind::Method && t.kind_of(m.node) == "function_item"@
        } by {
            if j < prev.len() {
                assert(all[j] == prev[j]);
            }
        }
    }
}

/// Rust items yield symbols of the kind they declare, at any depth: a function item named by
/// an identifier yields a `Function`; a struct, enum, trait or type alias named by a type
/// identifier yields a `Struct`, `Enum`, `Trait` or `Type`; a const or static item named by an
/// identifier yields a `Constant`; an impl whose type is a type identifier yields an `Impl`
/// named by that type.
pub proof fn lemma_rust_items_yield_symbols(t: SyntaxTree, source: Seq<u8>, i: int)
    requires
        t.wf(),
        0 <= i < t.nodes@.len(),
    ensures
        t.kind_of(i) == "function_item"@ ==> (t.find_child(i, Some("name"@), Some("identifier"@)) matches Some(c)
            ==> has_symbol_match(rust_symbol_matches(t, source), i, c, SymbolKind::Function)),
        t.kind_of(i) == "struct_item"@ ==> (t.find_child(i, Some("name"@), Some("type_identifier"@)) matches Some(c)
            ==> has_symbol_match(rust_symbol_matches(t, source), i, c, SymbolKind::Struct)),
        t.kind_of(i) == "enum_item"@ ==> (t.find_child(i, Some("name"@), Some("type_identifier"@)) matches Some(c)
            ==> has_symbol_match(rust_symbol_matches(t, source), i, c, SymbolKind::Enum)),
        t.kind_of(i) == "trait_item"@ ==> (t.find_child(i, Some("name"@), Some("type_identifier"@)) matches Some(c)
            ==> has_symbol_match(rust_symbol_matches(t, source), i, c, SymbolKind::Trait)),
        t.kind_of(i) == "const_item"@ ==> (t.find_child(i, Some("name"@), Some("identifier"@)) matches Some(c)
            ==> has_symbol_match(rust_symbol_matches(t, source), i, c, SymbolKind::Constant)),
        t.kind_of(i) == "static_item"@ ==> (t.find_child(i, Some("name"@), Some("identifier"@)) matches Some(c)
            ==> has_symbol_match(rust_symbol_matches(t, source), i, c, SymbolKind::Constant)),
        t.kind_of(i) == "type_item"@ ==> (t.find_child(i, Some("name"@), Some("type_identifier"@)) matches Some(c)
            ==> has_symbol_match(rust_symbol_matches(t, source), i, c, SymbolKind::Type)),
        t.kind_of(i) == "impl_item"@ ==> (t.find_child(i, Some("type"@), Some("type_identifier"@)) matches Some(c)
            ==> has_symbol_match(rust_symbol_matches(t, source), i, c, SymbolKind::Impl)),
{
    let n = t.nodes@.len() as int;
    let items = rust_items_upto(t, source, n);
    let ms = rust_symbol_matches(t, source);
    let m = rust_item_match(t, source, i);
    lemma_item_kinds_distinct();
    if m.len() > 0 {
        lemma_items_upto_contains(t, source, n, i);
        let j = choose|j: int| 0 <= j < items.len() && #[trigger] items[j] == m[0];
        assert(ms[j] == items[j]);
    }
}

proof fn lemma_methods_upto_contains(t: SyntaxTree, source: Seq<u8>, n: int, i: int)
    requires
        0 <= i < n,
        rust_method_match(t, source, i).len() > 0,
    ensures
        exists|j: int|
            0 <= j < rust_methods_upto(t, source, n).len() && #[trigger] rust_methods_upto(t, source, n)[j]
                == rust_method_match(t, source, i)[0],
    decreases n,
{
    let prev = rust_methods_upto(t, source, n - 1);
    let all = rust_methods_upto(t, source, n);
    assert(all == prev + rust_method_match(t, source, n - 1));
    if i == n - 1 {
        assert(all[prev.len() as int] == rust_method_match(t, source, i)[0]);
    } else {
        lemma_methods_upto_contains(t, source, n - 1, i);
        let j = choose|j: int| 0 <= j < prev.len() && #[trigger] prev[j] == rust_method_match(t, source, i)[0];
        assert(all[j] == prev[j]);
    }
}

/// A function defined directly in the body of an impl whose type is a type identifier yields
/// a `Method` symbol at that function, named by its identifier, whose parent is the impl's
/// type name.
pub proof fn lemma_rust_impl_functions_yield_methods(
    t: SyntaxTree,
    source: Seq<u8>,
    i: int,
    c: int,
    p: usize,
    q: usize,
    ty: int,
)
    requires
        t.wf(),
        0 <= i < t.nodes@.len(),
        t.kind_of(i) == "function_item"@,
        t.nodes@[i].named,
        t.find_child(i, Some("name"@), Some("identifier"@)) == Some(c),
        t.nodes@[i].parent == Some(p),
        t.child_fits(p as int, Some("body"@), Some("declaration_list"@)),
        t.nodes@[p as int].parent == Some(q),
        t.kind_of(q as int) == "impl_item"@,
        t.find_child(q as int, Some("type"@), Some("type_identifier"@)) == Some(ty),
    ensures
        exists|j: int|
            0 <= j < rust_symbol_matches(t, source).len() && (#[trigger] rust_symbol_matches(t, source)[j]).node == i
                && rust_symbol_matches(t, source)[j].name_node == c && rust_symbol_matches(t, source)[j].kind
                == SymbolKind::Method && rust_symbol_matches(t, source)[j].parent == Some(
                spec_node_text_or_empty(source, t.nodes@[ty]),
            ),
{
    let n = t.nodes@.len() as int;
    let items = rust_items_upto(t, source, n);
    let methods = rust_methods_upto(t, source, n);
    let ms = rust_symbol_matches(t, source);
    assert(method_impl_type(t, i) == Some(ty));
    let m = rust_method_match(t, source, i);
    assert(m.len() == 1);
    lemma_methods_upto_contains(t, source, n, i);
    let j = choose|j: int| 0 <= j < methods.len() && #[trigger] methods[j] == m[0];
    assert(ms[items.len() + j] == methods[j]);
}

/// Every Rust symbol has the kind its node declares: `Type` exactly at type aliases,
/// `Struct` at structs, `Enum` at enums, `Trait` at traits, `Impl` at impls, `Constant` at
/// const and static items, and `Function` or `Method` exactly at function items; no other
/// kind occurs.
pub proof fn lemma_rust_symbol_kinds_follow_nodes(t: SyntaxTree, source: Seq<u8>, j: int)
    requires
        t.wf(),
        0 <= j < rust_symbol_matches(t, source).len(),
    ensures
        ({
            let m = rust_symbol_matches(t, source)[j];
            let k = t.kind_of(m.node);
            &&& (m.kind == SymbolKind::Type <==> k == "type_item"@)
            &&& (m.kind == SymbolKind::Struct <==> k == "struct_item"@)
            &&& (m.kind == SymbolKind::Enum <==> k == "enum_item"@)
            &&& (m.kind == SymbolKind::Trait <==> k == "trait_item"@)
            &&& (m.kind == SymbolKind::Impl <==> k == "impl_item"@)
            &&& (m.kind == SymbolKind::Constant <==> (k == "const_item"@ || k == "static_item"@))
            &&& ((m.kind == SymbolKind::Function || m.kind == SymbolKind::Method) <==> k == "function_item"@)
            &&& m.kind != SymbolKind::Class && m.kind != SymbolKind::Interface
            &&& m.kind != SymbolKind::Variable && m.kind != SymbolKind::Module
        }),
{
    let n = t.nodes@.len() as int;
    let items = rust_items_upto(t, source, n);
    let methods = rust_methods_upto(t, source, n);
    let ms = rust_symbol_matches(t, source);
    lemma_items_upto_fit(t, source, n);
    lemma_methods_upto_fit(t, source, n);
    lemma_item_kinds_distinct();
    if j < items.len() {
        assert(ms[j] == items[j]);
        assert(item_kind_fits(t, items[j]));
    } else {
        assert(ms[j] == methods[j - items.len()]);
    }
}

/// The import match at node `i`: a `use` declaration and the text of its argument.
pub open spec fn rust_import_match(t: SyntaxTree, source: Seq<u8>, i: int) -> Seq<ImportMatch> {
    if t.kind_of(i) == "use_declaration"@ {
        match t.find_child(i, Some("argument"@), None) {
            Some(c) => seq![ImportMatch { node: i, target: spec_node_text_or_empty(source, t.nodes@[c]) }],
            None => Seq::empty(),
        }
    } else {
        Seq::empty()
    }
}

/// The import matches among the first `n` nodes, in preorder.
pub open spec fn rust_imports_upto(t: SyntaxTree, source: Seq<u8>, n: int) -> Seq<ImportMatch>
    decreases n,
{
    if n <= 0 {
        Seq::empty()
    } else {
        rust_imports_upto(t, source, n - 1) + rust_import_match(t, source, n - 1)
    }
}

proof fn lemma_imports_upto_contains(t: SyntaxTree, source: Seq<u8>, n: int, i: int)
    requires
        0 <= i < n,
        rust_import_match(t, source, i).len() > 0,
    ensures
        exists|j: int|
            0 <= j < rust_imports_upto(t, source, n).len() && #[trigger] rust_imports_upto(t, source, n)[j]
                == rust_import_match(t, source, i)[0],
    decreases n,
{
    let prev = rust_imports_upto(t, source, n - 1);
    let all = rust_imports_upto(t, source, n);
    assert(all == prev + rust_import_match(t, source, n - 1));
    if i == n - 1 {
        assert(all[prev.len() as int] == rust_import_match(t, source, i)[0]);
    } else {
        lemma_imports_upto_contains(t, source, n - 1, i);
        let j = choose|j: int| 0 <= j < prev.len() && #[trigger] prev[j] == rust_import_match(t, source, i)[0];
        assert(all[j] == prev[j]);
    }
}

proof fn lemma_imports_upto_ordered(t: SyntaxTree, source: Seq<u8>, n: int)
    ensures
        forall|j: int|
            0 <= j < rust_imports_upto(t, source, n).len() ==> {
                let m = #[trigger] rust_imports_upto(t, source, n)[j];
                &&& 0 <= m.node < n
                &&& t.kind_of(m.node) == "use_declaration"@
            },
        forall|j1: int, j2: int|
            0 <= j1 < j2 < rust_imports_upto(t, source, n).len() ==> (#[trigger] rust_imports_upto(
                t,
                source,
                n,
            )[j1]).node < (#[trigger] rust_imports_upto(t, source, n)[j2]).node,
    decreases n,
{
    if n > 0 {
        lemma_imports_upto_ordered(t, source, n - 1);
        let prev = rust_imports_upto(t, source, n - 1);
        let all = rust_imports_upto(t, source, n);
        let here = rust_import_match(t, source, n - 1);
        assert(all == prev + here);
        assert forall|j: int| 0 <= j < all.len() implies {
            let m = #[trigger] all[j];
            &&& 0 <= m.node < n
            &&& t.kind_of(m.node) == "use_declaration"@
        } by {
            if j < prev.len() {
                assert(all[j] == prev[j]);
            } else {
                assert(all[j] == here[j - prev.len()]);
            }
        }
        assert forall|j1: int, j2: int| 0 <= j1 < j2 < all.len() implies (#[trigger] all[j1]).node
            < (#[trigger] all[j2]).node by {
            if j2 < prev.len() {
                assert(all[j1] == prev[j1]);
                assert(all[j2] == prev[j2]);
            } else {
                assert(all[j2] == here[j2 - prev.len()]);
                assert(j1 < prev.len());
                assert(all[j1] == prev[j1]);
            }
        }
    }
}

/// Every `use` declaration of a Rust tree, at any depth (top level, in a module or in a
/// function body), whose `argument` is a named child yields an import of that argument's text
/// at that declaration; each import comes from a distinct `use` declaration, in preorder, so
/// no declaration yields two.
pub proof fn lemma_rust_use_declarations_yield_imports(t: SyntaxTree, source: Seq<u8>, i: int)
    requires
        t.wf(),
        0 <= i < t.nodes@.len(),
    ensures
        t.kind_of(i) == "use_declaration"@ ==> (t.find_child(i, Some("argument"@), None) matches Some(c)
            ==> has_import_match(
            rust_imports_upto(t, source, t.nodes@.len() as int),
            i,
            spec_node_text_or_empty(source, t.nodes@[c]),
        )),
        forall|j: int|
            0 <= j < rust_imports_upto(t, source, t.nodes@.len() as int).len() ==> t.kind_of(
                (#[trigger] rust_imports_upto(t, source, t.nodes@.len() as int)[j]).node,
            ) == "use_declaration"@,
        forall|j1: int, j2: int|
            0 <= j1 < j2 < rust_imports_upto(t, source, t.nodes@.len() as int).len() ==> (#[trigger] rust_imports_upto(
                t,
                source,
                t.nodes@.len() as int,
            )[j1]).node < (#[trigger] rust_imports_upto(t, source, t.nodes@.len() as int)[j2]).node,
{
    let n = t.nodes@.len() as int;
    let all = rust_imports_upto(t, source, n);
    lemma_imports_upto_ordered(t, source, n);
    let m = rust_import_match(t, source, i);
    if m.len() > 0 {
        lemma_imports_upto_contains(t, source, n, i);
        let j = choose|j: int| 0 <= j < all.len() && #[trigger] all[j] == m[0];
        assert(all[j].node == i);
    }
}

/// The imports of a Rust syntax tree: each `use` declaration in preorder, with the text of
/// its argument as the target.
pub fn rust_imports(t: &SyntaxTree, source: &[u8], path: &str) -> (res: Vec<Import>)
    requires
        t.wf(),
    ensures
        imports_are(res@, *t, path@, ImportKind::Use, rust_imports_upto(*t, source@, t.nodes@.len() as int)),
{
    let mut res: Vec<Import> = Vec::new();
    let n = t.nodes.len();
    let mut i: usize = 0;
    while i < n
        invariant
            t.wf(),
            n == t.nodes@.len(),
            i <= n,
            imports_are(res@, *t, path@, ImportKind::Use, rust_imports_upto(*t, source@, i as int)),
        decreases n - i,
    {
        let ghost prev = rust_imports_upto(*t, source@, i as int);
        if t.is_kind(i, "use_declaration") {
            match t.first_child(i, Some("argument"), None) {
                Some(c) => {
                    let target = node_text_or_empty(source, &t.nodes[c]);
                    let imp = make_import(t, path, i, target, ImportKind::Use);
                    proof {
                        let m = ImportMatch { node: i as int, target: target@ };
                        assert(rust_import_match(*t, source@, i as int) =~= seq![m]);
                        lemma_imports_push(res@, imp, *t, path@, ImportKind::Use, prev, m);
                    }
                    res.push(imp);
                },
                None => {
                    assert(prev + rust_import_match(*t, source@, i as int) =~= prev);
                },
            }
        } else {
            assert(prev + rust_import_match(*t, source@, i as int) =~= prev);
        }
        i = i + 1;
    }
    res
}

} // verus!
verus! {

/// The Rust parser.
pub struct RustParser {
    grammar: TsLanguage,
}

impl RustParser {
    /// A parser with the Rust grammar.
    pub fn new() -> Self {
        RustParser { grammar: rust_grammar() }
    }
}

impl crate::parser::LanguageParser for RustParser {
    open spec fn spec_language(&self) -> Language {
        Language::Rust
    }

    fn language(&self) -> (l: Language) {
        Language::Rust
    }

    fn extensions(&self) -> (res: Vec<&'static str>) {
        Language::Rust.extensions()
    }

    /// The symbols of the syntax tree the parser gives, as `rust_symbols` extracts them; none
    /// when the parser gives no tree.
    fn parse_symbols(&self, source: &[u8], file_path: &str) -> (res: Vec<Symbol>)
        ensures
            symbols_of_some_tree(res@, source@, file_path@, Language::Rust),
    {
        proof {
            reveal(symbols_of_some_tree);
        }
        match syntax_tree(&self.grammar, source) {
            Some(t) => {
                let res = rust_symbols(&t, source, file_path);
                proof {
                    assert(symbols_are(
                        res@,
                        t,
                        source@,
                        file_path@,
                        Language::Rust,
                        symbol_matches_of(Language::Rust, t, source@),
                    ));
                    assert forall|k: int| 0 <= k < res@.len() implies (#[trigger] res@[k]).language
                        == Language::Rust && res@[k].file_path@ == file_path@ by {
                        assert(crate::parser::extract::symbol_is(
                            res@[k],
                            t,
                            source@,
                            file_path@,
                            Language::Rust,
                            rust_symbol_matches(t, source@)[k],
                        ));
                    }
                }
                res
            },
            None => Vec::new(),
        }
    }

    /// The imports of the syntax tree the parser gives, as `rust_imports` extracts them; none
    /// when the parser gives no tree.
    fn parse_imports(&self, source: &[u8], file_path: &str) -> (res: Vec<Import>)
        ensures
            imports_of_some_tree(res@, source@, file_path@, Language::Rust),
    {
        proof {
            reveal(imports_of_some_tree);
        }
        match syntax_tree(&self.grammar, source) {
            Some(t) => {
                let res = rust_imports(&t, source, file_path);
                proof {
                    assert(imports_are(
                        res@,
                        t,
                        file_path@,
                        import_kind_of(Language::Rust),
                        import_matches_of(Language::Rust, t, source@),
                    ));
                    assert forall|k: int| 0 <= k < res@.len() implies (#[trigger] res@[k]).source_file@
                        == file_path@ by {
                        let ms = rust_imports_upto(t, source@, t.nodes@.len() as int);
                        assert(crate::parser::extract::import_is(
                            res@[k],
                            t,
                            file_path@,
                            ms[k].node,
                            ms[k].target,
                            ImportKind::Use,
                        ));
                    }
                }
                res
            },
            None => Vec::new(),
        }
    }

    /// The source text cut at the start rows of the top-level items of the syntax tree, or at
    /// no boundary when the parser gives no tree.
    fn chunk_file(&self, source: &[u8], file_path: &str) -> (res: Vec<Chunk>)
        ensures
            chunks_at_some_tree(res@, source@, file_path@, Language::Rust),
    {
        let text = source_text(source);
        let b = match syntax_tree(&self.grammar, source) {
            Some(t) => root_boundary_rows(&t),
            None => Vec::new(),
        };
        let res = chunk_by_lines(text.as_str(), file_path, Language::Rust, b.as_slice());
        assert(chunks_are(res@, spec_source_text(source@), file_path@, Language::Rust, b@));
        proof {
            if b@.len() == 0 {
                assert(b@ =~= Seq::<usize>::empty());
            }
            reveal(chunked_by_lines);
            reveal(chunks_at_some_tree);
        }
        res
    }
}

} // verus!
