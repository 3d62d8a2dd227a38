use vstd::prelude::*;

use crate::text::{
    after_last, all_decimal_digits, contains, ends_with, has_prefix, has_suffix,
    is_all_decimal_digits, lowercase_of, segment_after_last, starts_with, str_eq, to_lowercase,
};
use super::syntax::{
    child_by_field, field_index, field_text, first_child_not_of_kind, first_child_of_kind, kind_eq,
    text_of_field, SyntaxNode,
};

verus! {

/// Indentation of `indent` levels: four spaces each.
pub open spec fn pad(indent: nat) -> Seq<char> {
    Seq::new(4 * indent, |i: int| ' ')
}

/// The Rust text that a C# expression becomes at indentation `indent`.
pub open spec fn expr_out(n: SyntaxNode, indent: nat) -> Seq<char>
    decreases n,
{
    let cs = n.children@;
    if n.kind@ == "binary_expression"@ {
        let li = field_index(n, "left"@);
        let ri = field_index(n, "right"@);
        let l = if 0 <= li < cs.len() {
            expr_out(cs[li], indent)
        } else {
            Seq::empty()
        };
        let r = if 0 <= ri < cs.len() {
            expr_out(cs[ri], indent)
        } else {
            Seq::empty()
        };
        let op = field_text(n, "operator"@);
        if op == "|"@ {
            l + "\n"@ + pad(indent) + "| "@ + r
        } else if op == "+"@ {
            "format!(\"{}{}\", "@ + l + ", "@ + r + ")"@
        } else {
            l + " "@ + op + " "@ + r
        }
    } else if n.kind@ == "invocation_expression"@ {
        let fi = field_index(n, "function"@);
        let ai = field_index(n, "arguments"@);
        let func = field_text(n, "function"@);
        let plain_args = if 0 <= ai < cs.len() {
            args_out(cs[ai], false)
        } else {
            Seq::empty()
        };
        let float_args = if 0 <= ai < cs.len() {
            args_out(cs[ai], true)
        } else {
            Seq::empty()
        };
        let method = lowercase_of(after_last(func, '.'));
        if func == "Layout.Center"@ {
            "Layout::center()"@
        } else if func == "Layout.Vertical"@ {
            "Layout::vertical()"@
        } else if has_prefix(func, "Text."@) {
            "Text::"@ + method + "("@ + plain_args + ")"@
        } else if has_suffix(func, ".Gap"@) || has_suffix(func, ".Padding"@) || has_suffix(
            func,
            ".Width"@,
        ) {
            let receiver = if 0 <= fi < cs.len() && cs[fi].children.len() > 0 {
                expr_out(cs[fi].children@[0], indent)
            } else {
                Seq::empty()
            };
            receiver + "."@ + method + "("@ + float_args + ")"@
        } else if func == "Size.Units"@ {
            float_args
        } else if func == "string.IsNullOrEmpty"@ {
            "("@ + plain_args + ").is_empty()"@
        } else {
            "Separator"@
        }
    } else if n.kind@ == "object_creation_expression"@ {
        let ai = field_index(n, "arguments"@);
        let name = field_text(n, "type"@);
        let inner = if 0 <= ai < cs.len() {
            args_out(cs[ai], false)
        } else {
            Seq::empty()
        };
        if name == "Card"@ {
            "Card::new(Box::new("@ + inner + "))"@
        } else if name == "Confetti"@ {
            "Confetti::new(Box::new("@ + inner + "))"@
        } else if name == "Logo"@ || name == "Separator"@ {
            name
        } else {
            "Separator"@
        }
    } else if n.kind@ == "string_literal"@ || n.kind@ == "verbatim_string_literal"@ {
        n.text@ + ".to_string()"@
    } else if n.kind@ == "integer_literal"@ || n.kind@ == "identifier_name"@ || n.kind@
        == "identifier"@ || n.kind@ == "predefined_type"@ {
        n.text@
    } else if n.kind@ == "parenthesized_expression"@ {
        let inner = if cs.len() > 1 && cs[1].kind@ != "("@ && cs[1].kind@ != ")"@ {
            expr_out(cs[1], indent)
        } else {
            Seq::empty()
        };
        "("@ + inner + ")"@
    } else if n.kind@ == "conditional_expression"@ {
        let ci = field_index(n, "condition"@);
        let ti = field_index(n, "consequence"@);
        let ei = field_index(n, "alternative"@);
        let c = if 0 <= ci < cs.len() {
            expr_out(cs[ci], indent)
        } else {
            Seq::empty()
        };
        let t = if 0 <= ti < cs.len() {
            expr_out(cs[ti], indent)
        } else {
            Seq::empty()
        };
        let e = if 0 <= ei < cs.len() {
            expr_out(cs[ei], indent)
        } else {
            Seq::empty()
        };
        "({ if "@ + c + " { "@ + t + " } else { "@ + e + " } })"@
    } else if n.kind@ == "member_access_expression"@ {
        let oi = field_index(n, "expression"@);
        let obj = if 0 <= oi < cs.len() {
            expr_out(cs[oi], indent)
        } else {
            Seq::empty()
        };
        let name = field_text(n, "name"@);
        if name == "Value"@ {
            obj + ".get()"@
        } else {
            obj + "."@ + name
        }
    } else {
        "Separator"@
    }
}

/// The Rust text of the arguments of an `argument_list` node, separated by `", "`;
/// with `as_float`, an argument written only with decimal digits becomes a float
/// literal.
pub open spec fn args_out(a: SyntaxNode, as_float: bool) -> Seq<char>
    decreases a,
{
    args_list(a.children@, as_float, true)
}

/// The text of the `argument` nodes among `cs`; `first` tells whether no argument
/// has been written before them.
pub open spec fn args_list(cs: Seq<SyntaxNode>, as_float: bool, first: bool) -> Seq<char>
    decreases cs,
{
    if cs.len() == 0 {
        Seq::empty()
    } else {
        let c = cs[0];
        if c.kind@ == "argument"@ {
            let sep = if first {
                Seq::empty()
            } else {
                ", "@
            };
            let item = if c.children.len() == 0 {
                Seq::empty()
            } else {
                let e: int = if c.children@[0].kind@ == "name_colon"@ {
                    1
                } else {
                    0
                };
                if e < c.children.len() {
                    let t = c.children@[e].text@;
                    if as_float && all_decimal_digits(t) {
                        t + ".0"@
                    } else {
                        expr_out(c.children@[e], 0)
                    }
                } else {
                    Seq::empty()
                }
            };
            sep + item + args_list(cs.drop_first(), as_float, false)
        } else {
            args_list(cs.drop_first(), as_float, first)
        }
    }
}

/// Appends `indent` levels of indentation.
pub fn push_pad(out: &mut String, indent: usize)
    ensures
        final(out)@ == old(out)@ + pad(indent as nat),
{
    let ghost start = out@;
    for i in 0..indent
        invariant
            out@ == start + pad(i as nat),
    {
        proof {
            reveal_strlit("    ");
        }
        out.append("    ");
        assert(pad((i + 1) as nat) =~= pad(i as nat) + "    "@);
    }
}

/// Appends the Rust text of the C# expression `n` (see `expr_out`).
#[verifier::spinoff_prover]
#[verifier::rlimit(40)]
pub fn emit_expr(n: &SyntaxNode, indent: usize, out: &mut String)
    ensures
        final(out)@ == old(out)@ + expr_out(*n, indent as nat),
    decreases n,
{
    let ghost start = out@;
    let ghost cs = n.children@;
    if kind_eq(n, "binary_expression") {
        let li = child_by_field(n, "left");
        let ri = child_by_field(n, "right");
        let op = text_of_field(n, "operator");
        if str_eq(op.as_str(), "|") {
            if li < n.children.len() {
                emit_expr(&n.children[li], indent, out);
            }
            out.append("\n");
            push_pad(out, indent);
            out.append("| ");
            if ri < n.children.len() {
                emit_expr(&n.children[ri], indent, out);
            }
        } else if str_eq(op.as_str(), "+") {
            out.append("format!(\"{}{}\", ");
            if li < n.children.len() {
                emit_expr(&n.children[li], indent, out);
            }
            out.append(", ");
            if ri < n.children.len() {
                emit_expr(&n.children[ri], indent, out);
            }
            out.append(")");
        } else {
            if li < n.children.len() {
                emit_expr(&n.children[li], indent, out);
            }
            out.append(" ");
            out.append(op.as_str());
            out.append(" ");
            if ri < n.children.len() {
                emit_expr(&n.children[ri], indent, out);
            }
        }
        assert(out@ =~= start + expr_out(*n, indent as nat));
    } else if kind_eq(n, "invocation_expression") {
        let fi = child_by_field(n, "function");
        let ai = child_by_field(n, "arguments");
        let func = text_of_field(n, "function");
        let f = func.as_str();
        if str_eq(f, "Layout.Center") {
            out.append("Layout::center()");
        } else if str_eq(f, "Layout.Vertical") {
            out.append("Layout::vertical()");
        } else if starts_with(f, "Text.") {
            let seg = segment_after_last(f, '.');
            let method = to_lowercase(seg.as_str());
            out.append("Text::");
            out.append(method.as_str());
            out.append("(");
            if ai < n.children.len() {
                emit_args(&n.children[ai], false, out);
            }
            out.append(")");
        } else if ends_with(f, ".Gap") || ends_with(f, ".Padding") || ends_with(f, ".Width") {
            let seg = segment_after_last(f, '.');
            let method = to_lowercase(seg.as_str());
            if fi < n.children.len() && n.children[fi].children.len() > 0 {
                emit_expr(&n.children[fi].children[0], indent, out);
            }
            out.append(".");
            out.append(method.as_str());
            out.append("(");
            if ai < n.children.len() {
                emit_args(&n.children[ai], true, out);
            }
            out.append(")");
        } else if str_eq(f, "Size.Units") {
            if ai < n.children.len() {
                emit_args(&n.children[ai], true, out);
            }
        } else if str_eq(f, "string.IsNullOrEmpty") {
            out.append("(");
            if ai < n.children.len() {
                emit_args(&n.children[ai], false, out);
            }
            out.append(").is_empty()");
        } else {
            out.append("Separator");
        }
        assert(out@ =~= start + expr_out(*n, indent as nat));
    } else if kind_eq(n, "object_creation_expression") {
        let ai = child_by_field(n, "arguments");
        let name = text_of_field(n, "type");
        if str_eq(name.as_str(), "Card") {
            out.append("Card::new(Box::new(");
            if ai < n.children.len() {
                emit_args(&n.children[ai], false, out);
            }
            out.append("))");
        } else if str_eq(name.as_str(), "Confetti") {
            out.append("Confetti::new(Box::new(");
            if ai < n.children.len() {
                emit_args(&n.children[ai], false, out);
            }
            out.append("))");
        } else if str_eq(name.as_str(), "Logo") || str_eq(name.as_str(), "Separator") {
            out.append(name.as_str());
        } else {
            out.append("Separator");
        }
        assert(out@ =~= start + expr_out(*n, indent as nat));
    } else if kind_eq(n, "string_literal") || kind_eq(n, "verbatim_string_literal") {
        out.append(n.text.as_str());
        out.append(".to_string()");
    } else if kind_eq(n, "integer_literal") || kind_eq(n, "identifier_name") || kind_eq(
        n,
        "identifier",
    ) || kind_eq(n, "predefined_type") {
        out.append(n.text.as_str());
    } else if kind_eq(n, "parenthesized_expression") {
        out.append("(");
        if n.children.len() > 1 && !kind_eq(&n.children[1], "(") && !kind_eq(&n.children[1], ")") {
            emit_expr(&n.children[1], indent, out);
        }
        out.append(")");
        assert(out@ =~= start + expr_out(*n, indent as nat));
    } else if kind_eq(n, "conditional_expression") {
        let ci = child_by_field(n, "condition");
        let ti = child_by_field(n, "consequence");
        let ei = child_by_field(n, "alternative");
        out.append("({ if ");
        if ci < n.children.len() {
            emit_expr(&n.children[ci], indent, out);
        }
        out.append(" { ");
        if ti < n.children.len() {
            emit_expr(&n.children[ti], indent, out);
        }
        out.append(" } else { ");
        if ei < n.children.len() {
            emit_expr(&n.children[ei], indent, out);
        }
        out.append(" } })");
        assert(out@ =~= start + expr_out(*n, indent as nat));
    } else if kind_eq(n, "member_access_expression") {
        let oi = child_by_field(n, "expression");
        if oi < n.children.len() {
            emit_expr(&n.children[oi], indent, out);
        }
        let name = text_of_field(n, "name");
        if str_eq(name.as_str(), "Value") {
            out.append(".get()");
        } else {
            out.append(".");
            out.append(name.as_str());
        }
        assert(out@ =~= start + expr_out(*n, indent as nat));
    } else {
        out.append("Separator");
    }
}

/// Appends the Rust text of the arguments of `a` (see `args_out`).
pub fn emit_args(a: &SyntaxNode, as_float: bool, out: &mut String)
    ensures
        final(out)@ == old(out)@ + args_out(*a, as_float),
    decreases a,
{
    let ghost start = out@;
    let ghost cs = a.children@;
    let mut first = true;
    let mut i: usize = 0;
    assert(cs.skip(0) =~= cs);
    while i < a.children.len()
        invariant
            0 <= i <= cs.len(),
            cs == a.children@,
            start + args_list(cs, as_float, true) == out@ + args_list(
                cs.skip(i as int),
                as_float,
                first,
            ),
        decreases a.children.len() - i,
    {
        let ghost before = out@;
        let ghost was_first = first;
        let c = &a.children[i];
        assert(cs.skip(i as int).drop_first() =~= cs.skip(i + 1));
        assert(cs.skip(i as int)[0] == cs[i as int]);
        if kind_eq(c, "argument") {
            if !first {
                out.append(", ");
            }
            if c.children.len() > 0 {
                let e: usize = if kind_eq(&c.children[0], "name_colon") {
                    1
                } else {
                    0
                };
                if e < c.children.len() {
                    let t = &c.children[e].text;
                    if as_float && is_all_decimal_digits(t.as_str()) {
                        out.append(t.as_str());
                        out.append(".0");
                    } else {
                        emit_expr(&c.children[e], 0, out);
                    }
                }
            }
            first = false;
        }
        assert(out@ + args_list(cs.skip(i + 1), as_float, first) =~= before + args_list(
            cs.skip(i as int),
            as_float,
            was_first,
        ));
        i += 1;
    }
    assert(cs.skip(cs.len() as int) =~= Seq::<SyntaxNode>::empty());
    assert(out@ =~= start + args_out(*a, as_float));
}

} // verus!
