//! The bridge to tree-sitter: the calls into the parser crate, and the walk that turns a
//! parsed tree into a [`SyntaxTree`].
//!
//! Parsers, trees and nodes of tree-sitter are opaque values here, so the wrappers below state
//! nothing of the kinds, positions and children they return: the library's contracts speak of
//! the [`SyntaxTree`] the walk builds from them, whatever tree-sitter reports.
use vstd::prelude::*;

use crate::syntax::{nodes_wf, SyntaxNode, SyntaxTree};
use tree_sitter::Language as TsLanguage;

verus! {

#[verifier::external_type_specification]
#[verifier::external_body]
pub struct ExGrammar(TsLanguage);

#[verifier::external_type_specification]
#[verifier::external_body]
pub struct ExParser(tree_sitter::Parser);

#[verifier::external_type_specification]
#[verifier::external_body]
pub struct ExTree(tree_sitter::Tree);

#[verifier::external_type_specification]
#[verifier::external_body]
pub struct ExNode<'a>(tree_sitter::Node<'a>);

/// `tree_sitter::Language::new` on `tree_sitter_rust::LANGUAGE`: the Rust grammar.
#[verifier::external_body]
pub(crate) fn rust_grammar() -> TsLanguage {
    TsLanguage::new(tree_sitter_rust::LANGUAGE)
}

/// `tree_sitter::Language::new` on `tree_sitter_typescript::LANGUAGE_TYPESCRIPT`: the
/// TypeScript grammar.
#[verifier::external_body]
pub(crate) fn typescript_grammar() -> TsLanguage {
    TsLanguage::new(tree_sitter_typescript::LANGUAGE_TYPESCRIPT)
}

/// `tree_sitter::Language::new` on `tree_sitter_c::LANGUAGE`: the C grammar.
#[verifier::external_body]
pub(crate) fn c_grammar() -> TsLanguage {
    TsLanguage::new(tree_sitter_c::LANGUAGE)
}

/// `tree_sitter::Language::new` on `tree_sitter_cpp::LANGUAGE`: the C++ grammar.
#[verifier::external_body]
pub(crate) fn cpp_grammar() -> TsLanguage {
    TsLanguage::new(tree_sitter_cpp::LANGUAGE)
}

/// `tree_sitter::Parser::new`: a parser with no grammar set.
#[verifier::external_body]
fn new_parser() -> tree_sitter::Parser {
    tree_sitter::Parser::new()
}

/// `tree_sitter::Parser::set_language`: whether the grammar could be set.
#[verifier::external_body]
fn set_grammar(parser: &mut tree_sitter::Parser, grammar: &TsLanguage) -> bool {
    parser.set_language(grammar).is_ok()
}

/// `tree_sitter::Parser::parse` with no earlier tree: the syntax tree of `source`, if the
/// parser produced one.
#[verifier::external_body]
fn parse_source(parser: &mut tree_sitter::Parser, source: &[u8]) -> Option<tree_sitter::Tree> {
    parser.parse(source, None)
}

/// `tree_sitter::Tree::root_node`.
#[verifier::external_body]
fn root_node<'a>(tree: &'a tree_sitter::Tree) -> tree_sitter::Node<'a> {
    tree.root_node()
}

/// `tree_sitter::Node::descendant_count`: the number of nodes in the subtree, itself included,
/// so at least one.
#[verifier::external_body]
fn descendant_count(node: &tree_sitter::Node) -> (n: usize)
    ensures
        n >= 1,
{
    node.descendant_count()
}

/// `tree_sitter::Node::kind`.
#[verifier::external_body]
fn node_kind<'a>(node: &tree_sitter::Node<'a>) -> &'a str {
    node.kind()
}

/// `tree_sitter::Node::is_named`.
#[verifier::external_body]
fn node_is_named(node: &tree_sitter::Node) -> bool {
    node.is_named()
}

/// `tree_sitter::Node::start_position`, its row.
#[verifier::external_body]
fn node_start_row(node: &tree_sitter::Node) -> usize {
    node.start_position().row
}

/// `tree_sitter::Node::end_position`, its row.
#[verifier::external_body]
fn node_end_row(node: &tree_sitter::Node) -> usize {
    node.end_position().row
}

/// `tree_sitter::Node::start_byte`.
#[verifier::external_body]
fn node_start_byte(node: &tree_sitter::Node) -> usize {
    node.start_byte()
}

/// `tree_sitter::Node::end_byte`.
#[verifier::external_body]
fn node_end_byte(node: &tree_sitter::Node) -> usize {
    node.end_byte()
}

/// `tree_sitter::Node::child_count`.
#[verifier::external_body]
fn node_child_count(node: &tree_sitter::Node) -> u32 {
    node.child_count()
}

/// `tree_sitter::Node::child`: the child at position `i`, if there is one.
#[verifier::external_body]
fn node_child<'a>(node: &tree_sitter::Node<'a>, i: u32) -> Option<tree_sitter::Node<'a>> {
    node.child(i)
}

/// `tree_sitter::Node::field_name_for_child`: the field name of the child at position `i`.
#[verifier::external_body]
fn node_field_name_for_child<'a>(node: &tree_sitter::Node<'a>, i: u32) -> Option<&'a str> {
    node.field_name_for_child(i)
}

/// Appending a fresh childless node whose parent is an existing node (or, for the first node,
/// none), and recording it as that parent's last child, keeps the links well formed.
proof fn lemma_append_node_wf(before: Seq<SyntaxNode>, fresh: SyntaxNode, after: Seq<SyntaxNode>)
    requires
        nodes_wf(before),
        before.len() < usize::MAX,
        fresh.children@.len() == 0,
        fresh.start_row < usize::MAX,
        fresh.end_row < usize::MAX,
        match fresh.parent {
            Some(p) => {
                &&& p < before.len()
                &&& fresh.index_in_parent == before[p as int].children@.len()
                &&& after.len() == before.len() + 1
                &&& after[before.len() as int] == fresh
                &&& after[p as int].children@ == before[p as int].children@.push(before.len() as usize)
                &&& after[p as int].parent == before[p as int].parent
                &&& after[p as int].index_in_parent == before[p as int].index_in_parent
                &&& after[p as int].start_row == before[p as int].start_row
                &&& after[p as int].end_row == before[p as int].end_row
                &&& forall|i: int| 0 <= i < before.len() && i != p ==> after[i] == before[i]
            },
            None => before.len() == 0 && after.len() == 1 && after[0] == fresh,
        },
    ensures
        nodes_wf(after),
{
    let me = before.len() as int;
    match fresh.parent {
        Some(p) => {
            let p = p as int;
            assert forall|i: int, j: int|
                0 <= i < after.len() && 0 <= j < after[i].children@.len() implies {
                let c = #[trigger] after[i].children@[j] as int;
                &&& i < c < after.len()
                &&& after[c].parent == Some(i as usize)
                &&& after[c].index_in_parent == j
            } by {
                if i == p && j == before[p].children@.len() {
                    assert(after[i].children@[j] == me);
                } else {
                    assert(i != me);
                    assert(i < before.len());
                    if i != p {
                        assert(after[i] == before[i]);
                    }
                    assert(j < before[i].children@.len());
                    assert(after[i].children@[j] == before[i].children@[j]);
                    let c = before[i].children@[j] as int;
                    assert(i < c < before.len());
                    if c == p {
                    } else {
                        assert(after[c] == before[c]);
                    }
                }
            }
            assert forall|i: int| 0 <= i < after.len() implies match #[trigger] after[i].parent {
                Some(q) => {
                    &&& 0 <= q < i
                    &&& after[i].index_in_parent < after[q as int].children@.len()
                    &&& after[q as int].children@[after[i].index_in_parent as int] == i
                },
                None => true,
            } by {
                if i == me {
                } else {
                    assert(after[i].parent == before[i].parent);
                    assert(after[i].index_in_parent == before[i].index_in_parent);
                    match before[i].parent {
                        Some(q) => {
                            let q = q as int;
                            if q == p {
                            } else {
                                assert(after[q] == before[q]);
                            }
                        },
                        None => {},
                    }
                }
            }
        },
        None => {
            assert(after[0].children@.len() == 0);
        },
    }
    assert forall|i: int| 0 <= i < after.len() implies (#[trigger] after[i]).start_row < usize::MAX
        && after[i].end_row < usize::MAX by {
        if i < before.len() {
            assert(before[i].start_row < usize::MAX);
            if fresh.parent is Some && i != fresh.parent->0 {
                assert(after[i] == before[i]);
            }
        }
    }
}

/// Parses `source` with `grammar` and returns its syntax tree in preorder, or `None` when the
/// grammar cannot be set, the parser gives no tree or a row number reaches `usize::MAX`. The
/// walk visits at most as many nodes as the root reports descendants. The contract states that
/// a returned tree is well formed and rooted at node 0; that it is the tree tree-sitter built,
/// and when one is returned, it leaves unsaid: tree-sitter's parsers, trees and nodes are
/// opaque values here, and the wrappers above state nothing of what they report.
pub fn syntax_tree(grammar: &TsLanguage, source: &[u8]) -> (res: Option<SyntaxTree>)
    ensures
        res matches Some(t) ==> t.wf() && t.nodes@.len() >= 1 && t.nodes@[0].parent is None,
{
    let mut parser = new_parser();
    if !set_grammar(&mut parser, grammar) {
        return None;
    }
    let tree = match parse_source(&mut parser, source) {
        Some(t) => t,
        None => return None,
    };
    let root = root_node(&tree);
    let budget = descendant_count(&root);
    let mut nodes: Vec<SyntaxNode> = Vec::new();
    let mut stack: Vec<(tree_sitter::Node, Option<usize>, Option<&str>)> = Vec::new();
    stack.push((root, None, None));
    while stack.len() > 0 && nodes.len() < budget
        invariant
            nodes_wf(nodes@),
            nodes@.len() <= budget,
            forall|k: int| 0 <= k < stack@.len() ==> match (#[trigger] stack@[k]).1 {
                Some(p) => p < nodes@.len(),
                None => nodes@.len() == 0 && stack@.len() == 1,
            },
        decreases budget - nodes@.len(),
    {
        let ghost old_stack = stack@;
        let (node, parent, field) = stack.pop().unwrap();
        assert(old_stack[old_stack.len() - 1].1 == parent);
        let me = nodes.len();
        let idx = match parent {
            Some(p) => nodes[p].children.len(),
            None => 0,
        };
        let start_row = node_start_row(&node);
        let end_row = node_end_row(&node);
        if start_row == usize::MAX || end_row == usize::MAX {
            return None;
        }
        let fresh = SyntaxNode {
            kind: String::from_str(node_kind(&node)),
            field: match field {
                Some(f) => Some(String::from_str(f)),
                None => None,
            },
            named: node_is_named(&node),
            start_row,
            end_row,
            start_byte: node_start_byte(&node),
            end_byte: node_end_byte(&node),
            parent,
            index_in_parent: idx,
            children: Vec::new(),
        };
        let ghost before = nodes@;
        let ghost rest = stack@;
        assert(match parent {
            Some(p) => p < before.len(),
            None => before.len() == 0 && rest.len() == 0,
        });
        assert forall|q: int| 0 <= q < rest.len() implies (#[trigger] rest[q]).1 is Some by {
            if rest[q].1 is None {
                assert(rest[q] == old_stack[q]);
            }
        }
        nodes.push(fresh);
        match parent {
            Some(p) => {
                nodes[p].children.push(me);
            },
            None => {},
        }
        proof {
            lemma_append_node_wf(before, fresh, nodes@);
        }
        let count = node_child_count(&node);
        let mut k = count;
        while k > 0
            invariant
                forall|q: int| 0 <= q < stack@.len() ==> match (#[trigger] stack@[q]).1 {
                    Some(p) => p < nodes@.len(),
                    None => nodes@.len() == 0 && stack@.len() == 1,
                },
                me < nodes@.len(),
            decreases k,
        {
            k = k - 1;
            match node_child(&node, k) {
                Some(child) => {
                    let f = node_field_name_for_child(&node, k);
                    stack.push((child, Some(me), f));
                },
                None => {},
            }
        }
    }
    if nodes.len() == 0 {
        return None;
    }
    Some(SyntaxTree { nodes })
}

} // verus!
