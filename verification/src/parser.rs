//! Parsing: the tree-sitter Pony grammar behind trusted wrappers.
//!
//! The grammar and the parser live in outside crates; everything past
//! the raw tree they hand back — classification, formatting — is
//! verified.  Parsing a fixed text with a fixed grammar is
//! deterministic, so the raw tree is named as a function of the text.

use crate::tree::{classify_tree, typed_v, NodeV, RawNode, SyntaxNode};
use vstd::prelude::*;

verus! {

/// tree_sitter's syntax node, declared so the wrappers may traverse it.
#[verifier::external_type_specification]
#[verifier::external_body]
pub struct ExTsNode<'a>(tree_sitter::Node<'a>);

/// What parsing a given source text yields.  The Pony grammar is fixed
/// and tree-sitter parses deterministically, so the raw tree — or the
/// refusal to produce one — is a function of the text alone.
pub uninterp spec fn parse_result(s: Seq<char>) -> Option<RawNode>;

/// Relies on tree_sitter::Node: kind, utf8_text and child give the
/// node's grammar name, its source span and its children; the tree is
/// converted node for node into the library's raw tree.
#[verifier::external_body]
fn raw_of_ts_node(node: tree_sitter::Node<'_>, source: &str) -> RawNode {
    let mut children = Vec::new();
    for i in 0..node.child_count() {
        if let Some(c) = node.child(i) {
            children.push(raw_of_ts_node(c, source));
        }
    }
    RawNode {
        kind: node.kind().chars().collect(),
        text: node.utf8_text(source.as_bytes()).unwrap_or("").chars().collect(),
        children,
    }
}

/// Relies on tree_sitter::Parser::parse with tree_sitter_pony::language:
/// with the language set the parse is deterministic in the source text,
/// and a missing tree comes back as `None`.
#[verifier::external_body]
fn parse_raw(source: &str) -> (r: Option<RawNode>)
    ensures
        r == parse_result(source@),
{
    let mut parser = tree_sitter::Parser::new();
    if parser.set_language(tree_sitter_pony::language()).is_err() {
        return None;
    }
    match parser.parse(source, None) {
        Some(t) => Some(raw_of_ts_node(t.root_node(), source)),
        None => None,
    }
}

/// Why a source text could not be turned into a tree.
#[derive(Clone, Copy, Debug, PartialEq, Eq, Structural)]
pub enum ParseError {
    /// The parser produced no tree at all.
    Unparseable,
}

/// The classified tree that parsing a given source text yields.
pub open spec fn spec_parse(s: Seq<char>) -> Option<NodeV> {
    match parse_result(s) {
        Some(raw) => Some(typed_v(raw)),
        None => None,
    }
}

/// Parse Pony source into a classified syntax tree.  `None` only where
/// the parser yields no tree at all; malformed regions come back as
/// error-tagged nodes inside the tree, never as a failure.
pub fn parse(source: &str) -> (r: Option<SyntaxNode>)
    ensures
        match r {
            Some(t) => spec_parse(source@) matches Some(nv) && t@ == nv,
            None => spec_parse(source@) is None,
        },
{
    match parse_raw(source) {
        Some(raw) => Some(classify_tree(&raw)),
        None => None,
    }
}

} // verus!
