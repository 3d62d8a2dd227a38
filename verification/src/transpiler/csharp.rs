use vstd::prelude::*;

use crate::json::opt_view;
use super::program::{transpile_tree, tree_out};
use super::syntax::SyntaxNode;

verus! {

#[verifier::external_type_specification]
#[verifier::external_body]
pub struct ExParser(tree_sitter::Parser);

#[verifier::external_type_specification]
#[verifier::external_body]
pub struct ExLanguageError(tree_sitter::LanguageError);

#[verifier::external_type_specification]
#[verifier::external_body]
pub struct ExTree(tree_sitter::Tree);

#[verifier::external_type_specification]
#[verifier::external_body]
pub struct ExNode<'tree>(tree_sitter::Node<'tree>);

// A node of the tree-sitter C# syntax tree of a source text is named by its path: the
// positions that `Node::child` takes, one per level, from the root down to it. What
// tree-sitter says of that node is a function of the source and the path alone.

/// `Node::kind` of the node at `path` in the C# syntax tree of `source`.
pub uninterp spec fn cs_node_kind(source: Seq<char>, path: Seq<u32>) -> Seq<char>;

/// `Node::utf8_text` of the node at `path` in the C# syntax tree of `source`: the text
/// it spans (empty where those bytes are not valid UTF-8).
pub uninterp spec fn cs_node_text(source: Seq<char>, path: Seq<u32>) -> Seq<char>;

/// `Node::child_count` of the node at `path` in the C# syntax tree of `source`.
pub uninterp spec fn cs_child_count(source: Seq<char>, path: Seq<u32>) -> u32;

/// Whether `Node::child(i)` gives a node for the node at `path` in the C# syntax tree
/// of `source`.
pub uninterp spec fn cs_has_child(source: Seq<char>, path: Seq<u32>, i: u32) -> bool;

/// `Node::field_name_for_child(i)` of the node at `path` in the C# syntax tree of
/// `source`: the field of its `i`-th structural child, extras (comments) not counted.
pub uninterp spec fn cs_field_name(source: Seq<char>, path: Seq<u32>, i: u32) -> Option<Seq<char>>;

/// `Node::is_extra` of the node at `path` in the C# syntax tree of `source`: whether it
/// is an extra, such as a comment, that may stand anywhere in the tree.
pub uninterp spec fn cs_node_is_extra(source: Seq<char>, path: Seq<u32>) -> bool;

/// A tree-sitter parser set to the C# grammar.
struct CsParser {
    parser: tree_sitter::Parser,
}

/// The C# syntax tree of `source`.
struct CsTree {
    tree: tree_sitter::Tree,
    source: String,
}

/// The node at `path` in the C# syntax tree of `source`.
struct CsNode<'t> {
    node: tree_sitter::Node<'t>,
    source: &'t str,
    path: Vec<u32>,
}

/// The positions, below `count`, at which `Node::child` gives a child of the node at
/// `path`, in increasing order.
pub open spec fn present_children(source: Seq<char>, path: Seq<u32>, count: nat) -> Seq<u32>
    decreases count,
{
    if count == 0 {
        Seq::empty()
    } else {
        let rest = present_children(source, path, (count - 1) as nat);
        if cs_has_child(source, path, (count - 1) as u32) {
            rest.push((count - 1) as u32)
        } else {
            rest
        }
    }
}

/// How many of the children before position `i` of the node at `path` are present and
/// no extras: the structural position of the child at `i`.
pub open spec fn structural_count(source: Seq<char>, path: Seq<u32>, i: nat) -> nat
    decreases i,
{
    if i == 0 {
        0
    } else {
        let k = (i - 1) as u32;
        let before = structural_count(source, path, (i - 1) as nat);
        if cs_has_child(source, path, k) && !cs_node_is_extra(source, path.push(k)) {
            before + 1
        } else {
            before
        }
    }
}

/// The field under which the child at position `k` of the node at `path` hangs: none
/// for an extra, else the field of its structural position.
pub open spec fn child_field(source: Seq<char>, path: Seq<u32>, k: u32) -> Option<Seq<char>> {
    if cs_node_is_extra(source, path.push(k)) {
        None
    } else {
        cs_field_name(source, path, structural_count(source, path, k as nat) as u32)
    }
}

/// `t` is the copy, down to `depth` further levels, of the node at `path` in the C#
/// syntax tree of `source`, hanging under `field`: its kind and text, and the copies of
/// the children that `Node::child` gives, in order, each under its field name.
pub open spec fn copies_node(
    t: SyntaxNode,
    source: Seq<char>,
    path: Seq<u32>,
    field: Option<Seq<char>>,
    depth: nat,
) -> bool
    decreases depth,
{
    &&& t.kind@ == cs_node_kind(source, path)
    &&& t.text@ == cs_node_text(source, path)
    &&& opt_view(t.field) == field
    &&& if depth == 0 {
        t.children@.len() == 0
    } else {
        let idx = present_children(source, path, cs_child_count(source, path) as nat);
        &&& t.children@.len() == idx.len()
        &&& forall|j: int|
            0 <= j < idx.len() ==> copies_node(
                #[trigger] t.children@[j],
                source,
                path.push(idx[j]),
                child_field(source, path, idx[j]),
                (depth - 1) as nat,
            )
    }
}

/// `t` is the C# syntax tree of `source`, copied whole. A tree deeper than `usize::MAX`
/// levels cannot be held in memory, so that depth reaches every node.
pub open spec fn is_csharp_syntax(t: SyntaxNode, source: Seq<char>) -> bool {
    copies_node(t, source, Seq::empty(), None, usize::MAX as nat)
}

/// Why C# source could not be turned into a syntax tree.
#[derive(Debug, PartialEq, Eq, Structural)]
pub enum TranspileError {
    /// The C# grammar was generated for a tree-sitter version this parser does not support.
    IncompatibleLanguage,
    /// The parser gave back no tree.
    ParseFailed,
}

impl TranspileError {
    /// A one-line description of the error.
    pub fn message(&self) -> (r: String)
        ensures
            self is IncompatibleLanguage ==> r@ == "Incompatible language version"@,
            self is ParseFailed ==> r@ == "Failed to parse"@,
    {
        match self {
            TranspileError::IncompatibleLanguage => String::from_str("Incompatible language version"),
            TranspileError::ParseFailed => String::from_str("Failed to parse"),
        }
    }
}

/// `tree_sitter::Parser::new`, then `Parser::set_language` with
/// `tree_sitter_c_sharp::language()`. `set_language` fails only when the grammar's ABI
/// version lies outside `MIN_COMPATIBLE_LANGUAGE_VERSION..=LANGUAGE_VERSION`, which is
/// `13..=14` in tree-sitter 0.20.10; the C# grammar of tree-sitter-c-sharp 0.20.0 is
/// generated with version 13, so the parser is always made.
#[verifier::external_body]
fn csharp_parser() -> (r: Result<CsParser, tree_sitter::LanguageError>)
    ensures
        r is Ok,
{
    let mut parser = tree_sitter::Parser::new();
    match parser.set_language(tree_sitter_c_sharp::language()) {
        Ok(()) => Ok(CsParser { parser }),
        Err(e) => Err(e),
    }
}

/// `Parser::parse` of UTF-8 text with no previous tree. Its documentation gives `None`
/// only when no language is set, a timeout expired or parsing was cancelled. A
/// `CsParser` has the C# grammar set and neither a timeout nor a cancellation flag, so
/// a tree always comes back, and it is the C# syntax tree of `source`.
#[verifier::external_body]
fn parse_source(parser: &mut CsParser, source: &str) -> (r: Option<CsTree>)
    ensures
        r is Some,
        r matches Some(t) ==> t.source@ == source@,
{
    match parser.parser.parse(source, None) {
        Some(tree) => Some(CsTree { tree, source: source.to_string() }),
        None => None,
    }
}

/// `Tree::root_node`: the node at the empty path.
#[verifier::external_body]
fn tree_root<'t>(tree: &'t CsTree) -> (r: CsNode<'t>)
    ensures
        r.source@ == tree.source@,
        r.path@ == Seq::<u32>::empty(),
{
    CsNode { node: tree.tree.root_node(), source: tree.source.as_str(), path: Vec::new() }
}

/// `Node::kind`: the grammar's name for the node's type.
#[verifier::external_body]
fn node_kind(node: &CsNode) -> (r: String)
    ensures
        r@ == cs_node_kind(node.source@, node.path@),
{
    node.node.kind().to_string()
}

/// `Node::utf8_text` over the parsed source: the text the node spans, empty when those
/// bytes are not valid UTF-8.
#[verifier::external_body]
fn node_text(node: &CsNode) -> (r: String)
    ensures
        r@ == cs_node_text(node.source@, node.path@),
{
    match node.node.utf8_text(node.source.as_bytes()) {
        Ok(t) => t.to_string(),
        Err(_) => String::new(),
    }
}

/// `Node::child_count`, which the C library counts in 32 bits.
#[verifier::external_body]
fn node_child_count(node: &CsNode) -> (r: u32)
    ensures
        r == cs_child_count(node.source@, node.path@),
{
    node.node.child_count() as u32
}

/// `Node::child`: the child at position `i`, which is the node at `path`, the node's
/// path followed by `i`.
#[verifier::external_body]
fn node_child<'t>(node: &CsNode<'t>, i: u32, path: Vec<u32>) -> (r: Option<CsNode<'t>>)
    requires
        path@ == node.path@.push(i),
    ensures
        r is Some == cs_has_child(node.source@, node.path@, i),
        r matches Some(c) ==> c.source@ == node.source@ && c.path@ == path@,
{
    match node.node.child(i as usize) {
        Some(c) => Some(CsNode { node: c, source: node.source, path }),
        None => None,
    }
}

/// `Node::field_name_for_child`: the field under which the child at a position hangs.
#[verifier::external_body]
fn node_field_name(node: &CsNode, i: u32) -> (r: Option<String>)
    ensures
        opt_view(r) == cs_field_name(node.source@, node.path@, i),
{
    match node.node.field_name_for_child(i) {
        Some(f) => Some(f.to_string()),
        None => None,
    }
}

/// `Node::is_extra`: whether the node is an extra, such as a comment.
#[verifier::external_body]
fn node_is_extra(node: &CsNode) -> (r: bool)
    ensures
        r == cs_node_is_extra(node.source@, node.path@),
{
    node.node.is_extra()
}

/// The path of the child at position `i`.
fn child_path(path: &Vec<u32>, i: u32) -> (r: Vec<u32>)
    ensures
        r@ == path@.push(i),
{
    let mut r: Vec<u32> = Vec::new();
    for k in 0..path.len()
        invariant
            r@ == path@.take(k as int),
    {
        r.push(path[k]);
        assert(path@.take(k + 1) =~= path@.take(k as int).push(path@[k as int]));
    }
    assert(path@.take(path@.len() as int) =~= path@);
    r.push(i);
    r
}

/// Copies a tree-sitter node and, down to `depth` further levels, its descendants.
fn read_node(node: &CsNode, field: Option<String>, depth: usize) -> (r: SyntaxNode)
    ensures
        copies_node(r, node.source@, node.path@, opt_view(field), depth as nat),
    decreases depth,
{
    let kind = node_kind(node);
    let text = node_text(node);
    let mut children: Vec<SyntaxNode> = Vec::new();
    let ghost src = node.source@;
    let ghost path = node.path@;
    if depth > 0 {
        let count = node_child_count(node);
        let mut structural: u32 = 0;
        for i in 0..count
            invariant
                depth > 0,
                src == node.source@,
                path == node.path@,
                count == cs_child_count(src, path),
                structural == structural_count(src, path, i as nat),
                structural <= i,
                children@.len() == present_children(src, path, i as nat).len(),
                forall|j: int|
                    0 <= j < children@.len() ==> copies_node(
                        #[trigger] children@[j],
                        src,
                        path.push(present_children(src, path, i as nat)[j]),
                        child_field(src, path, present_children(src, path, i as nat)[j]),
                        (depth - 1) as nat,
                    ),
        {
            let ghost before = present_children(src, path, i as nat);
            let p = child_path(&node.path, i);
            match node_child(node, i, p) {
                Some(child) => {
                    let extra = node_is_extra(&child);
                    let f = if extra {
                        None
                    } else {
                        node_field_name(node, structural)
                    };
                    let c = read_node(&child, f, depth - 1);
                    children.push(c);
                    if !extra {
                        structural = structural + 1;
                    }
                    assert(present_children(src, path, (i + 1) as nat) == before.push(i));
                },
                None => {
                    assert(present_children(src, path, (i + 1) as nat) == before);
                },
            }
        }
    }
    SyntaxNode { kind, text, field, children }
}

/// Parses C# source with the tree-sitter C# grammar into a syntax tree.
pub fn parse_csharp(source: &str) -> (r: Result<SyntaxNode, TranspileError>)
    ensures
        r is Ok,
        r matches Ok(t) ==> is_csharp_syntax(t, source@),
{
    let mut parser = match csharp_parser() {
        Ok(p) => p,
        Err(_) => return Err(TranspileError::IncompatibleLanguage),
    };
    match parse_source(&mut parser, source) {
        Some(tree) => {
            let root = tree_root(&tree);
            Ok(read_node(&root, None, usize::MAX))
        },
        None => Err(TranspileError::ParseFailed),
    }
}

/// Transpiles an Ivy view written in C# into Rust: parses it, then writes the Rust
/// text of the tree (see `transpile_tree`).
pub fn transpile_string(source: &str) -> (r: Result<String, TranspileError>)
    ensures
        r is Ok,
        r matches Ok(s) ==> exists|t: SyntaxNode| is_csharp_syntax(t, source@) && s@ == tree_out(t),
{
    match parse_csharp(source) {
        Ok(tree) => {
            let s = transpile_tree(&tree);
            assert(is_csharp_syntax(tree, source@) && s@ == tree_out(tree));
            Ok(s)
        },
        Err(e) => Err(e),
    }
}

} // verus!
