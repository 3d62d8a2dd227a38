use vstd::prelude::*;

use crate::text::str_eq;

verus! {

/// A node of a concrete syntax tree, as the C# grammar produced it: its kind, the
/// source text it spans, the field name under which it hangs from its parent, and
/// its children in source order.
pub struct SyntaxNode {
    pub kind: String,
    pub text: String,
    pub field: Option<String>,
    pub children: Vec<SyntaxNode>,
}

/// A predicate on syntax nodes: the node's kind is `k1` or `k2`.
pub open spec fn kind_is(k1: Seq<char>, k2: Seq<char>) -> spec_fn(SyntaxNode) -> bool {
    |c: SyntaxNode| c.kind@ == k1 || c.kind@ == k2
}

/// A predicate on syntax nodes: the node's kind is neither `k1` nor `k2`.
pub open spec fn kind_is_not(k1: Seq<char>, k2: Seq<char>) -> spec_fn(SyntaxNode) -> bool {
    |c: SyntaxNode| c.kind@ != k1 && c.kind@ != k2
}

/// A predicate on syntax nodes: the node hangs from its parent under field `f`.
pub open spec fn in_field(f: Seq<char>) -> spec_fn(SyntaxNode) -> bool {
    |c: SyntaxNode|
        match c.field {
            Some(g) => g@ == f,
            None => false,
        }
}

/// The position of the first element of `cs` at or after `from` that satisfies `p`,
/// or `cs.len()` when there is none.
pub open spec fn first_from(cs: Seq<SyntaxNode>, p: spec_fn(SyntaxNode) -> bool, from: int) -> int
    decreases cs.len() - from,
{
    if from < 0 || from >= cs.len() {
        cs.len() as int
    } else if p(cs[from]) {
        from
    } else {
        first_from(cs, p, from + 1)
    }
}

/// The position of the first element of `cs` that satisfies `p`, or `cs.len()`.
pub open spec fn first_index(cs: Seq<SyntaxNode>, p: spec_fn(SyntaxNode) -> bool) -> int {
    first_from(cs, p, 0)
}

/// The position of the first child whose recorded field is `f`, or the number of
/// children when there is none. The copy records, for each child that is no extra, the
/// field of its structural position, so this is the child that
/// `Node::child_by_field_name` gives wherever the field's child is a direct, visible
/// child; a field that tree-sitter passes up from a hidden child is not seen.
pub open spec fn field_index(n: SyntaxNode, f: Seq<char>) -> int {
    first_index(n.children@, in_field(f))
}

/// The text of the first child under field `f`; empty when there is none.
pub open spec fn field_text(n: SyntaxNode, f: Seq<char>) -> Seq<char> {
    let i = field_index(n, f);
    if 0 <= i < n.children.len() {
        n.children@[i].text@
    } else {
        Seq::empty()
    }
}

/// The position of the first child whose kind is `k1` or `k2`, or the number of
/// children when there is none.
pub fn first_child_of_kind(n: &SyntaxNode, k1: &str, k2: &str) -> (r: usize)
    ensures
        r == first_index(n.children@, kind_is(k1@, k2@)),
{
    let ghost p = kind_is(k1@, k2@);
    let mut i: usize = 0;
    while i < n.children.len()
        invariant
            0 <= i <= n.children@.len(),
            p == kind_is(k1@, k2@),
            first_from(n.children@, p, 0) == first_from(n.children@, p, i as int),
        decreases n.children.len() - i,
    {
        if str_eq(n.children[i].kind.as_str(), k1) || str_eq(n.children[i].kind.as_str(), k2) {
            return i;
        }
        i += 1;
    }
    i
}

/// The position of the first child whose kind is neither `k1` nor `k2`, or the number
/// of children when there is none.
pub fn first_child_not_of_kind(n: &SyntaxNode, k1: &str, k2: &str) -> (r: usize)
    ensures
        r == first_index(n.children@, kind_is_not(k1@, k2@)),
{
    let ghost p = kind_is_not(k1@, k2@);
    let mut i: usize = 0;
    while i < n.children.len()
        invariant
            0 <= i <= n.children@.len(),
            p == kind_is_not(k1@, k2@),
            first_from(n.children@, p, 0) == first_from(n.children@, p, i as int),
        decreases n.children.len() - i,
    {
        if !str_eq(n.children[i].kind.as_str(), k1) && !str_eq(n.children[i].kind.as_str(), k2) {
            return i;
        }
        i += 1;
    }
    i
}

/// The position of the first child whose recorded field is `f` (see `field_index`), or
/// the number of children when there is none.
pub fn child_by_field(n: &SyntaxNode, f: &str) -> (r: usize)
    ensures
        r == field_index(*n, f@),
{
    let ghost p = in_field(f@);
    let mut i: usize = 0;
    while i < n.children.len()
        invariant
            0 <= i <= n.children@.len(),
            p == in_field(f@),
            first_from(n.children@, p, 0) == first_from(n.children@, p, i as int),
        decreases n.children.len() - i,
    {
        let hit = match &n.children[i].field {
            Some(g) => str_eq(g.as_str(), f),
            None => false,
        };
        if hit {
            return i;
        }
        i += 1;
    }
    i
}

/// The text of the first child under field `f`; empty when there is none.
pub fn text_of_field(n: &SyntaxNode, f: &str) -> (r: String)
    ensures
        r@ == field_text(*n, f@),
{
    let i = child_by_field(n, f);
    if i < n.children.len() {
        n.children[i].text.clone()
    } else {
        String::new()
    }
}

/// Whether a node's kind is `k`.
pub fn kind_eq(n: &SyntaxNode, k: &str) -> (r: bool)
    ensures
        r == (n.kind@ == k@),
{
    str_eq(n.kind.as_str(), k)
}

} // verus!
