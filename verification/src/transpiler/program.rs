use vstd::prelude::*;

use crate::text::{contains, has_prefix, occurs_at, occurs_in, str_eq};
use super::expr::{emit_expr, expr_out, pad, push_pad};
use super::syntax::{
    child_by_field, field_index, first_child_not_of_kind, first_child_of_kind, first_index,
    kind_eq, kind_is, kind_is_not, SyntaxNode,
};

verus! {

/// The `let` that a `variable_declarator` becomes: only a variable initialised with a
/// `UseState` call is kept, as an empty string signal.
pub open spec fn decl_out(sub: SyntaxNode, indent: nat) -> Seq<char> {
    let cs = sub.children@;
    if sub.kind@ == "variable_declarator"@ {
        let named = field_index(sub, "name"@);
        let ni = if 0 <= named < cs.len() {
            named
        } else {
            first_index(cs, kind_is("identifier"@, "identifier"@))
        };
        if 0 <= ni < cs.len() {
            let name = cs[ni].text@;
            let vi = field_index(sub, "value"@);
            let qi = first_index(cs, kind_is("equals_value_clause"@, "equals_value_clause"@));
            let init: Option<SyntaxNode> = if 0 <= vi < cs.len() {
                Some(cs[vi])
            } else if 0 <= qi < cs.len() && cs[qi].children.len() > 1 {
                Some(cs[qi].children@[1])
            } else {
                None
            };
            match init {
                Some(x) => if occurs_in(x.text@, "UseState"@) {
                    pad(indent) + "let "@ + name + " = Signal::use_state(\"\".to_string());\n"@
                } else {
                    Seq::empty()
                },
                None => Seq::empty(),
            }
        } else {
            Seq::empty()
        }
    } else {
        Seq::empty()
    }
}

/// The `let`s that the declarators among `cs` become.
pub open spec fn decls_list(cs: Seq<SyntaxNode>, indent: nat) -> Seq<char>
    decreases cs.len(),
{
    if cs.len() == 0 {
        Seq::empty()
    } else {
        decl_out(cs[0], indent) + decls_list(cs.drop_first(), indent)
    }
}

/// The Rust statements that the statements inside `n` become at indentation `indent`.
pub open spec fn body_out(n: SyntaxNode, indent: nat) -> Seq<char>
    decreases n,
{
    body_list(n.children@, indent)
}

/// The Rust statements that the statements `cs` become at indentation `indent`.
pub open spec fn body_list(cs: Seq<SyntaxNode>, indent: nat) -> Seq<char>
    decreases cs,
{
    if cs.len() == 0 {
        Seq::empty()
    } else {
        let c = cs[0];
        let ccs = c.children@;
        let here = if c.kind@ == "block"@ {
            body_out(c, indent)
        } else if c.kind@ == "local_declaration_statement"@ {
            if ccs.len() > 0 {
                decls_list(ccs[0].children@, indent)
            } else {
                Seq::empty()
            }
        } else if c.kind@ == "return_statement"@ {
            let ei = field_index(c, "expression"@);
            let ki = first_index(ccs, kind_is_not("return"@, ";"@));
            let value = if 0 <= ei < ccs.len() {
                expr_out(ccs[ei], indent + 1)
            } else if 0 <= ki < ccs.len() {
                expr_out(ccs[ki], indent + 1)
            } else {
                Seq::empty()
            };
            pad(indent) + "let result = "@ + value + ";\n"@ + pad(indent) + "Box::new(result)\n"@
        } else if c.kind@ == "expression_statement"@ {
            body_out(c, indent) + ";\n"@
        } else {
            Seq::empty()
        };
        here + body_list(cs.drop_first(), indent)
    }
}

/// What a method declaration becomes: only `Build` is kept, as `build`.
pub open spec fn method_out(m: SyntaxNode) -> Seq<char> {
    let cs = m.children@;
    let ni = first_index(cs, kind_is("identifier"@, "identifier_name"@));
    if 0 <= ni < cs.len() && cs[ni].text@ == "Build"@ {
        let bi = first_index(cs, kind_is("block"@, "arrow_expression_clause"@));
        let body = if 0 <= bi < cs.len() {
            body_out(cs[bi], 2)
        } else {
            Seq::empty()
        };
        "    pub fn build() -> Box<dyn Widget> {\n"@ + body + "    }\n"@
    } else {
        Seq::empty()
    }
}

/// What the method declarations among `ms` become.
pub open spec fn methods_list(ms: Seq<SyntaxNode>) -> Seq<char>
    decreases ms.len(),
{
    if ms.len() == 0 {
        Seq::empty()
    } else {
        let here = if ms[0].kind@ == "method_declaration"@ {
            method_out(ms[0])
        } else {
            Seq::empty()
        };
        here + methods_list(ms.drop_first())
    }
}

/// What the members found in the class bodies among `cs` become.
pub open spec fn members_list(cs: Seq<SyntaxNode>) -> Seq<char>
    decreases cs.len(),
{
    if cs.len() == 0 {
        Seq::empty()
    } else {
        let here = if cs[0].kind@ == "declaration_list"@ || cs[0].kind@ == "class_body"@ {
            methods_list(cs[0].children@)
        } else {
            Seq::empty()
        };
        here + members_list(cs.drop_first())
    }
}

/// The Rust item that the first named class declaration under `n` becomes (in source
/// order; the inside of a class declaration without a name is not searched), or
/// `None` when there is none.
pub open spec fn class_out(n: SyntaxNode) -> Option<Seq<char>>
    decreases n,
{
    let cs = n.children@;
    if n.kind@ == "class_declaration"@ {
        let ni = first_index(cs, kind_is("identifier"@, "identifier_name"@));
        if 0 <= ni < cs.len() {
            let name = cs[ni].text@;
            Some(
                "pub struct "@ + name + ";\n\n"@ + "impl "@ + name + " {\n"@ + members_list(cs)
                    + "}\n"@,
            )
        } else {
            None
        }
    } else {
        class_list(cs)
    }
}

/// The first class found in `cs`, in order.
pub open spec fn class_list(cs: Seq<SyntaxNode>) -> Option<Seq<char>>
    decreases cs,
{
    if cs.len() == 0 {
        None
    } else {
        match class_out(cs[0]) {
            Some(o) => Some(o),
            None => class_list(cs.drop_first()),
        }
    }
}

/// The lines that open every transpiled file.
pub open spec fn file_header() -> Seq<char> {
    "#![allow(non_snake_case)]\n"@ + "use rusty_framework::prelude::*;\n\n"@
}

/// The Rust source that a C# syntax tree becomes: the header, then the first class.
pub open spec fn tree_out(root: SyntaxNode) -> Seq<char> {
    file_header() + match class_out(root) {
        Some(o) => o,
        None => Seq::empty(),
    }
}

/// The name of the first named class declaration under `n`, found as `class_out` finds
/// it.
pub open spec fn first_class_name(n: SyntaxNode) -> Option<Seq<char>>
    decreases n,
{
    let cs = n.children@;
    if n.kind@ == "class_declaration"@ {
        let ni = first_index(cs, kind_is("identifier"@, "identifier_name"@));
        if 0 <= ni < cs.len() {
            Some(cs[ni].text@)
        } else {
            None
        }
    } else {
        first_class_name_list(cs)
    }
}

/// The name of the first named class declaration found in `cs`, in order.
pub open spec fn first_class_name_list(cs: Seq<SyntaxNode>) -> Option<Seq<char>>
    decreases cs,
{
    if cs.len() == 0 {
        None
    } else {
        match first_class_name(cs[0]) {
            Some(x) => Some(x),
            None => first_class_name_list(cs.drop_first()),
        }
    }
}

proof fn lemma_class_out_name(n: SyntaxNode)
    ensures
        (class_out(n) is Some) == (first_class_name(n) is Some),
        class_out(n) is Some ==> has_prefix(
            class_out(n)->0,
            "pub struct "@ + first_class_name(n)->0 + ";"@,
        ),
    decreases n,
{
    let cs = n.children@;
    if n.kind@ == "class_declaration"@ {
        let ni = first_index(cs, kind_is("identifier"@, "identifier_name"@));
        if 0 <= ni < cs.len() {
            let name = cs[ni].text@;
            let p = "pub struct "@ + name + ";"@;
            let o = class_out(n)->0;
            assert(o == p + ("\n\n"@ + "impl "@ + name + " {\n"@ + members_list(cs) + "}\n"@)) by {
                assert(o =~= p + ("\n\n"@ + "impl "@ + name + " {\n"@ + members_list(cs) + "}\n"@)) by {
                    reveal_strlit(";\n\n");
                    reveal_strlit(";");
                    reveal_strlit("\n\n");
                }
            }
            assert(o.subrange(0, p.len() as int) =~= p);
        }
    } else {
        lemma_class_list_name(cs);
    }
}

proof fn lemma_class_list_name(cs: Seq<SyntaxNode>)
    ensures
        (class_list(cs) is Some) == (first_class_name_list(cs) is Some),
        class_list(cs) is Some ==> has_prefix(
            class_list(cs)->0,
            "pub struct "@ + first_class_name_list(cs)->0 + ";"@,
        ),
    decreases cs,
{
    if cs.len() > 0 {
        lemma_class_out_name(cs[0]);
        lemma_class_list_name(cs.drop_first());
    }
}

proof fn lemma_occurs_left(a: Seq<char>, b: Seq<char>, w: Seq<char>)
    requires
        occurs_in(a, w),
    ensures
        occurs_in(a + b, w),
{
    let k = choose|k: int| occurs_at(a, w, k);
    assert((a + b).subrange(k, k + w.len()) =~= a.subrange(k, k + w.len()));
    assert(occurs_at(a + b, w, k));
}

proof fn lemma_occurs_right(a: Seq<char>, b: Seq<char>, w: Seq<char>)
    requires
        occurs_in(b, w),
    ensures
        occurs_in(a + b, w),
{
    let k = choose|k: int| occurs_at(b, w, k);
    assert((a + b).subrange(k + a.len(), k + a.len() + w.len()) =~= b.subrange(k, k + w.len()));
    assert(occurs_at(a + b, w, k + a.len()));
}

proof fn lemma_decls_list_holds(ds: Seq<SyntaxNode>, indent: nat, j: int, w: Seq<char>)
    requires
        0 <= j < ds.len(),
        occurs_in(decl_out(ds[j], indent), w),
    ensures
        occurs_in(decls_list(ds, indent), w),
    decreases ds.len(),
{
    if j == 0 {
        lemma_occurs_left(decl_out(ds[0], indent), decls_list(ds.drop_first(), indent), w);
    } else {
        assert(ds.drop_first()[j - 1] == ds[j]);
        lemma_decls_list_holds(ds.drop_first(), indent, j - 1, w);
        lemma_occurs_right(decl_out(ds[0], indent), decls_list(ds.drop_first(), indent), w);
    }
}

proof fn lemma_body_list_holds(cs: Seq<SyntaxNode>, indent: nat, i: int, w: Seq<char>)
    requires
        0 <= i < cs.len(),
        cs[i].kind@ == "local_declaration_statement"@,
        cs[i].children@.len() > 0,
        occurs_in(decls_list(cs[i].children@[0].children@, indent), w),
    ensures
        occurs_in(body_list(cs, indent), w),
    decreases cs.len(),
{
    reveal_strlit("local_declaration_statement");
    reveal_strlit("block");
    let here_rest = body_list(cs.drop_first(), indent);
    if i == 0 {
        assert("block"@.len() != "local_declaration_statement"@.len());
        assert(cs[0].kind@ != "block"@);
        lemma_occurs_left(decls_list(cs[0].children@[0].children@, indent), here_rest, w);
    } else {
        assert(cs.drop_first()[i - 1] == cs[i]);
        lemma_body_list_holds(cs.drop_first(), indent, i - 1, w);
        let c = cs[0];
        let ccs = c.children@;
        let here = if c.kind@ == "block"@ {
            body_out(c, indent)
        } else if c.kind@ == "local_declaration_statement"@ {
            if ccs.len() > 0 {
                decls_list(ccs[0].children@, indent)
            } else {
                Seq::empty()
            }
        } else if c.kind@ == "return_statement"@ {
            let ei = field_index(c, "expression"@);
            let ki = first_index(ccs, kind_is_not("return"@, ";"@));
            let value = if 0 <= ei < ccs.len() {
                expr_out(ccs[ei], indent + 1)
            } else if 0 <= ki < ccs.len() {
                expr_out(ccs[ki], indent + 1)
            } else {
                Seq::empty()
            };
            pad(indent) + "let result = "@ + value + ";\n"@ + pad(indent) + "Box::new(result)\n"@
        } else if c.kind@ == "expression_statement"@ {
            body_out(c, indent) + ";\n"@
        } else {
            Seq::empty()
        };
        assert(body_list(cs, indent) == here + here_rest);
        lemma_occurs_right(here, here_rest, w);
    }
}

/// The initialiser of a variable declarator: its `value` field, or else the expression
/// after `=` in its `equals_value_clause`.
pub open spec fn declarator_init(v: SyntaxNode) -> Option<SyntaxNode> {
    let cs = v.children@;
    let vi = field_index(v, "value"@);
    let qi = first_index(cs, kind_is("equals_value_clause"@, "equals_value_clause"@));
    if 0 <= vi < cs.len() {
        Some(cs[vi])
    } else if 0 <= qi < cs.len() && cs[qi].children.len() > 1 {
        Some(cs[qi].children@[1])
    } else {
        None
    }
}

/// Every state that a `Build` body declares is kept: when statement `i` of the body is
/// a local declaration whose declarator `j` is named `name` (its `name` field) and has
/// an initialiser whose text contains `UseState` (written `this.UseState` or not), the
/// Rust statements of the body declare `name` as a signal:
/// `let <name> = Signal::use_state("".to_string());`.
pub proof fn law_state_declarations_kept(n: SyntaxNode, indent: nat, i: int, j: int)
    requires
        0 <= i < n.children@.len(),
        n.children@[i].kind@ == "local_declaration_statement"@,
        n.children@[i].children@.len() > 0,
        0 <= j < n.children@[i].children@[0].children@.len(),
        n.children@[i].children@[0].children@[j].kind@ == "variable_declarator"@,
        0 <= field_index(n.children@[i].children@[0].children@[j], "name"@)
            < n.children@[i].children@[0].children@[j].children@.len(),
        declarator_init(n.children@[i].children@[0].children@[j]) matches Some(x) && occurs_in(
            x.text@,
            "UseState"@,
        ),
    ensures
        ({
            let v = n.children@[i].children@[0].children@[j];
            let name = v.children@[field_index(v, "name"@)].text@;
            occurs_in(
                body_out(n, indent),
                "let "@ + name + " = Signal::use_state(\"\".to_string());"@,
            )
        }),
{
    let v = n.children@[i].children@[0].children@[j];
    let name = v.children@[field_index(v, "name"@)].text@;
    let w = "let "@ + name + " = Signal::use_state(\"\".to_string());"@;
    let d = decl_out(v, indent);
    reveal_strlit(" = Signal::use_state(\"\".to_string());");
    reveal_strlit(" = Signal::use_state(\"\".to_string());\n");
    reveal_strlit("\n");
    assert(" = Signal::use_state(\"\".to_string());\n"@ =~= " = Signal::use_state(\"\".to_string());"@ + "\n"@);
    assert(d =~= pad(indent) + w + "\n"@);
    assert(d.subrange(pad(indent).len() as int, (pad(indent).len() + w.len()) as int) =~= w);
    assert(occurs_at(d, w, pad(indent).len() as int));
    lemma_decls_list_holds(n.children@[i].children@[0].children@, indent, j, w);
    lemma_body_list_holds(n.children@, indent, i, w);
}

/// `n` holds a named class declaration where the transpiler looks for one: `n` is a
/// class declaration with a name, or `n` is no class declaration and one of its children
/// holds one (the inside of a nameless class declaration is not searched).
pub open spec fn holds_named_class(n: SyntaxNode) -> bool
    decreases n,
{
    let cs = n.children@;
    if n.kind@ == "class_declaration"@ {
        let ni = first_index(cs, kind_is("identifier"@, "identifier_name"@));
        0 <= ni < cs.len()
    } else {
        some_holds_named_class(cs)
    }
}

/// One of `cs` holds a named class declaration.
pub open spec fn some_holds_named_class(cs: Seq<SyntaxNode>) -> bool
    decreases cs,
{
    cs.len() > 0 && (holds_named_class(cs[0]) || some_holds_named_class(cs.drop_first()))
}

proof fn lemma_class_found(n: SyntaxNode)
    ensures
        (class_out(n) is Some) == holds_named_class(n),
    decreases n,
{
    if n.kind@ != "class_declaration"@ {
        lemma_class_list_found(n.children@);
    }
}

proof fn lemma_class_list_found(cs: Seq<SyntaxNode>)
    ensures
        (class_list(cs) is Some) == some_holds_named_class(cs),
        some_holds_named_class(cs) == exists|i: int|
            0 <= i < cs.len() && #[trigger] holds_named_class(cs[i]),
    decreases cs,
{
    if cs.len() > 0 {
        lemma_class_found(cs[0]);
        lemma_class_list_found(cs.drop_first());
        if exists|i: int| 0 <= i < cs.len() && #[trigger] holds_named_class(cs[i]) {
            let i = choose|i: int| 0 <= i < cs.len() && #[trigger] holds_named_class(cs[i]);
            if i > 0 {
                assert(cs.drop_first()[i - 1] == cs[i]);
            }
        }
        if some_holds_named_class(cs.drop_first()) {
            let i = choose|i: int|
                0 <= i < cs.drop_first().len() && #[trigger] holds_named_class(cs.drop_first()[i]);
            assert(holds_named_class(cs[i + 1]));
        }
    }
}

/// The transpiler finds a class exactly when the tree holds a named class declaration
/// where it looks (the root itself, or, below a node that is no class declaration, one
/// of its children); the file is then the header and that class, else the header alone.
pub proof fn law_class_found_iff_declared(root: SyntaxNode)
    ensures
        (class_out(root) is Some) == holds_named_class(root),
        root.kind@ != "class_declaration"@ ==> (holds_named_class(root) == exists|i: int|
            0 <= i < root.children@.len() && #[trigger] holds_named_class(root.children@[i])),
        tree_out(root) == file_header() + match class_out(root) {
            Some(o) => o,
            None => Seq::empty(),
        },
{
    lemma_class_found(root);
    lemma_class_list_found(root.children@);
}

/// `n` is or holds a class declaration, named or not, anywhere below it.
pub open spec fn contains_class(n: SyntaxNode) -> bool
    decreases n,
{
    n.kind@ == "class_declaration"@ || some_contains_class(n.children@)
}

/// One of `cs` is or holds a class declaration.
pub open spec fn some_contains_class(cs: Seq<SyntaxNode>) -> bool
    decreases cs,
{
    cs.len() > 0 && (contains_class(cs[0]) || some_contains_class(cs.drop_first()))
}

/// Every class declaration in `n` has a name, as in valid C#.
pub open spec fn classes_named(n: SyntaxNode) -> bool
    decreases n,
{
    &&& (n.kind@ == "class_declaration"@ ==> 0 <= first_index(
        n.children@,
        kind_is("identifier"@, "identifier_name"@),
    ) < n.children@.len())
    &&& all_classes_named(n.children@)
}

/// Every class declaration in `cs` has a name.
pub open spec fn all_classes_named(cs: Seq<SyntaxNode>) -> bool
    decreases cs,
{
    cs.len() == 0 || (classes_named(cs[0]) && all_classes_named(cs.drop_first()))
}

proof fn lemma_named_found(n: SyntaxNode)
    requires
        classes_named(n),
    ensures
        holds_named_class(n) == contains_class(n),
    decreases n,
{
    if n.kind@ != "class_declaration"@ {
        lemma_named_found_list(n.children@);
    }
}

proof fn lemma_named_found_list(cs: Seq<SyntaxNode>)
    requires
        all_classes_named(cs),
    ensures
        some_holds_named_class(cs) == some_contains_class(cs),
    decreases cs,
{
    if cs.len() > 0 {
        lemma_named_found(cs[0]);
        lemma_named_found_list(cs.drop_first());
    }
}

/// In a tree whose class declarations all have a name, as in valid C#, the transpiler
/// finds a class exactly when the tree is or holds a class declaration; the class it
/// writes out is then the first one in pre-order (`class_out`).
pub proof fn law_class_found_iff_any_class(root: SyntaxNode)
    requires
        classes_named(root),
    ensures
        (class_out(root) is Some) == contains_class(root),
{
    lemma_class_found(root);
    lemma_named_found(root);
}

/// Once a class has been found among the children, the children after it are not
/// looked at: nothing they hold reaches the output.
pub proof fn law_nothing_after_first_class(cs: Seq<SyntaxNode>, i: int)
    requires
        0 <= i < cs.len(),
        class_out(cs[i]) is Some,
    ensures
        class_list(cs) == class_list(cs.take(i + 1)),
    decreases i,
{
    let t = cs.take(i + 1);
    assert(t[0] == cs[0]);
    if i > 0 {
        assert(cs.drop_first()[i - 1] == cs[i]);
        law_nothing_after_first_class(cs.drop_first(), i - 1);
        assert(t.drop_first() =~= cs.drop_first().take(i));
    } else {
        assert(t.drop_first() =~= Seq::<SyntaxNode>::empty());
    }
}

/// A transpiled file starts with the header lines, then declares a struct named after
/// the first named class of the source; when the source has no named class, the file
/// is the header alone.
pub proof fn law_transpiled_file_declares_first_class(root: SyntaxNode)
    ensures
        has_prefix(tree_out(root), file_header()),
        first_class_name(root) matches Some(name) ==> occurs_at(
            tree_out(root),
            "pub struct "@ + name + ";"@,
            file_header().len() as int,
        ),
        first_class_name(root) is None ==> tree_out(root) == file_header(),
{
    lemma_class_out_name(root);
    let t = tree_out(root);
    let h = file_header();
    assert(t.subrange(0, h.len() as int) =~= h);
    match first_class_name(root) {
        Some(name) => {
            let o = class_out(root)->0;
            let p = "pub struct "@ + name + ";"@;
            assert(t == h + o);
            assert(t.subrange(h.len() as int, (h.len() + p.len()) as int) =~= o.subrange(0, p.len() as int));
        },
        None => {
            assert(t =~= h);
        },
    }
}

fn emit_decl(sub: &SyntaxNode, indent: usize, out: &mut String)
    ensures
        final(out)@ == old(out)@ + decl_out(*sub, indent as nat),
{
    let ghost start = out@;
    if !kind_eq(sub, "variable_declarator") {
        return;
    }
    let named = child_by_field(sub, "name");
    let ni = if named < sub.children.len() {
        named
    } else {
        first_child_of_kind(sub, "identifier", "identifier")
    };
    if ni >= sub.children.len() {
        return;
    }
    let vi = child_by_field(sub, "value");
    let qi = first_child_of_kind(sub, "equals_value_clause", "equals_value_clause");
    let init: Option<&SyntaxNode> = if vi < sub.children.len() {
        Some(&sub.children[vi])
    } else if qi < sub.children.len() && sub.children[qi].children.len() > 1 {
        Some(&sub.children[qi].children[1])
    } else {
        None
    };
    match init {
        Some(x) => {
            if contains(x.text.as_str(), "UseState") {
                push_pad(out, indent);
                out.append("let ");
                out.append(sub.children[ni].text.as_str());
                out.append(" = Signal::use_state(\"\".to_string());\n");
                assert(out@ =~= start + decl_out(*sub, indent as nat));
            }
        },
        None => {},
    }
}

fn emit_decls(decl: &SyntaxNode, indent: usize, out: &mut String)
    ensures
        final(out)@ == old(out)@ + decls_list(decl.children@, indent as nat),
{
    let ghost start = out@;
    let ghost cs = decl.children@;
    assert(cs.skip(0) =~= cs);
    for i in 0..decl.children.len()
        invariant
            cs == decl.children@,
            start + decls_list(cs, indent as nat) == out@ + decls_list(cs.skip(i as int), indent as nat),
    {
        let ghost before = out@;
        assert(cs.skip(i as int).drop_first() =~= cs.skip(i + 1));
        emit_decl(&decl.children[i], indent, out);
        assert(out@ + decls_list(cs.skip(i + 1), indent as nat) =~= before + decls_list(
            cs.skip(i as int),
            indent as nat,
        ));
    }
    assert(cs.skip(cs.len() as int) =~= Seq::<SyntaxNode>::empty());
}

/// Appends the Rust statements that the statements inside `n` become (see `body_out`).
pub fn emit_body(n: &SyntaxNode, indent: usize, out: &mut String)
    requires
        indent < usize::MAX,
    ensures
        final(out)@ == old(out)@ + body_out(*n, indent as nat),
    decreases n,
{
    let ghost start = out@;
    let ghost cs = n.children@;
    assert(cs.skip(0) =~= cs);
    let mut i: usize = 0;
    while i < n.children.len()
        invariant
            0 <= i <= cs.len(),
            cs == n.children@,
            indent < usize::MAX,
            start + body_list(cs, indent as nat) == out@ + body_list(cs.skip(i as int), indent as nat),
        decreases n.children.len() - i,
    {
        let ghost before = out@;
        let c = &n.children[i];
        assert(cs.skip(i as int).drop_first() =~= cs.skip(i + 1));
        assert(cs.skip(i as int)[0] == cs[i as int]);
        if kind_eq(c, "block") {
            emit_body(c, indent, out);
        } else if kind_eq(c, "local_declaration_statement") {
            if c.children.len() > 0 {
                emit_decls(&c.children[0], indent, out);
            }
        } else if kind_eq(c, "return_statement") {
            push_pad(out, indent);
            out.append("let result = ");
            let ei = child_by_field(c, "expression");
            if ei < c.children.len() {
                emit_expr(&c.children[ei], indent + 1, out);
            } else {
                let ki = first_child_not_of_kind(c, "return", ";");
                if ki < c.children.len() {
                    emit_expr(&c.children[ki], indent + 1, out);
                }
            }
            out.append(";\n");
            push_pad(out, indent);
            out.append("Box::new(result)\n");
        } else if kind_eq(c, "expression_statement") {
            emit_body(c, indent, out);
            out.append(";\n");
        }
        assert(out@ + body_list(cs.skip(i + 1), indent as nat) =~= before + body_list(
            cs.skip(i as int),
            indent as nat,
        ));
        i += 1;
    }
    assert(cs.skip(cs.len() as int) =~= Seq::<SyntaxNode>::empty());
}

fn emit_method(m: &SyntaxNode, out: &mut String)
    ensures
        final(out)@ == old(out)@ + method_out(*m),
{
    let ghost start = out@;
    let ni = first_child_of_kind(m, "identifier", "identifier_name");
    if ni < m.children.len() && str_eq(m.children[ni].text.as_str(), "Build") {
        out.append("    pub fn build() -> Box<dyn Widget> {\n");
        let bi = first_child_of_kind(m, "block", "arrow_expression_clause");
        if bi < m.children.len() {
            emit_body(&m.children[bi], 2, out);
        }
        out.append("    }\n");
        assert(out@ =~= start + method_out(*m));
    }
}

fn emit_methods(body: &SyntaxNode, out: &mut String)
    ensures
        final(out)@ == old(out)@ + methods_list(body.children@),
{
    let ghost start = out@;
    let ghost cs = body.children@;
    assert(cs.skip(0) =~= cs);
    for i in 0..body.children.len()
        invariant
            cs == body.children@,
            start + methods_list(cs) == out@ + methods_list(cs.skip(i as int)),
    {
        let ghost before = out@;
        assert(cs.skip(i as int).drop_first() =~= cs.skip(i + 1));
        if kind_eq(&body.children[i], "method_declaration") {
            emit_method(&body.children[i], out);
        }
        assert(out@ + methods_list(cs.skip(i + 1)) =~= before + methods_list(cs.skip(i as int)));
    }
    assert(cs.skip(cs.len() as int) =~= Seq::<SyntaxNode>::empty());
}

fn emit_members(class: &SyntaxNode, out: &mut String)
    ensures
        final(out)@ == old(out)@ + members_list(class.children@),
{
    let ghost start = out@;
    let ghost cs = class.children@;
    assert(cs.skip(0) =~= cs);
    for i in 0..class.children.len()
        invariant
            cs == class.children@,
            start + members_list(cs) == out@ + members_list(cs.skip(i as int)),
    {
        let ghost before = out@;
        assert(cs.skip(i as int).drop_first() =~= cs.skip(i + 1));
        let c = &class.children[i];
        if kind_eq(c, "declaration_list") || kind_eq(c, "class_body") {
            emit_methods(c, out);
        }
        assert(out@ + members_list(cs.skip(i + 1)) =~= before + members_list(cs.skip(i as int)));
    }
    assert(cs.skip(cs.len() as int) =~= Seq::<SyntaxNode>::empty());
}

/// Appends the item that the first named class under `n` becomes, and tells whether
/// there was one (see `class_out`).
pub fn emit_class(n: &SyntaxNode, out: &mut String) -> (found: bool)
    ensures
        found == class_out(*n).is_some(),
        final(out)@ == old(out)@ + match class_out(*n) {
            Some(o) => o,
            None => Seq::empty(),
        },
    decreases n,
{
    let ghost start = out@;
    let ghost cs = n.children@;
    if kind_eq(n, "class_declaration") {
        let ni = first_child_of_kind(n, "identifier", "identifier_name");
        if ni < n.children.len() {
            let name = n.children[ni].text.as_str();
            out.append("pub struct ");
            out.append(name);
            out.append(";\n\n");
            out.append("impl ");
            out.append(name);
            out.append(" {\n");
            emit_members(n, out);
            out.append("}\n");
            assert(out@ =~= start + class_out(*n)->0);
            return true;
        }
        return false;
    }
    assert(cs.skip(0) =~= cs);
    let mut i: usize = 0;
    while i < n.children.len()
        invariant
            0 <= i <= cs.len(),
            cs == n.children@,
            n.kind@ != "class_declaration"@,
            out@ == start,
            start == old(out)@,
            class_list(cs) == class_list(cs.skip(i as int)),
        decreases n.children.len() - i,
    {
        assert(cs.skip(i as int).drop_first() =~= cs.skip(i + 1));
        assert(cs.skip(i as int)[0] == cs[i as int]);
        if emit_class(&n.children[i], out) {
            assert(class_list(cs.skip(i as int)) == class_out(cs[i as int]));
            assert(class_out(*n) == class_list(cs));
            return true;
        }
        i += 1;
    }
    assert(cs.skip(cs.len() as int) =~= Seq::<SyntaxNode>::empty());
    false
}

/// The Rust source that a C# syntax tree becomes: the header lines, then the item for
/// the first named class declaration (in source order), if there is one.
pub fn transpile_tree(root: &SyntaxNode) -> (r: String)
    ensures
        r@ == tree_out(*root),
{
    let mut out = String::new();
    out.append("#![allow(non_snake_case)]\n");
    out.append("use rusty_framework::prelude::*;\n\n");
    let _ = emit_class(root, &mut out);
    assert(out@ =~= tree_out(*root));
    out
}

} // verus!
