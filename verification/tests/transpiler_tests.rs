use rusty_framework::transpiler::csharp::{parse_csharp, transpile_string, TranspileError};
use rusty_framework::transpiler::expr::{emit_args, emit_expr};
use rusty_framework::transpiler::program::{emit_body, emit_class, transpile_tree};
use rusty_framework::transpiler::syntax::SyntaxNode;
use tree_sitter::{Node, Parser};

fn node(kind: &str, text: &str, field: Option<&str>, children: Vec<SyntaxNode>) -> SyntaxNode {
    SyntaxNode {
        kind: kind.to_string(),
        text: text.to_string(),
        field: field.map(|f| f.to_string()),
        children,
    }
}

fn leaf(kind: &str, text: &str) -> SyntaxNode {
    node(kind, text, None, vec![])
}

fn field_leaf(kind: &str, text: &str, field: &str) -> SyntaxNode {
    node(kind, text, Some(field), vec![])
}

fn expr(n: &SyntaxNode, indent: usize) -> String {
    let mut out = String::new();
    emit_expr(n, indent, &mut out);
    out
}

fn argument(e: SyntaxNode) -> SyntaxNode {
    node("argument", &e.text.clone(), None, vec![e])
}

fn arg_list(args: Vec<SyntaxNode>, field: Option<&str>) -> SyntaxNode {
    let mut children = vec![leaf("(", "(")];
    let n = args.len();
    for (i, a) in args.into_iter().enumerate() {
        children.push(a);
        if i + 1 < n {
            children.push(leaf(",", ","));
        }
    }
    children.push(leaf(")", ")"));
    node("argument_list", "", field, children)
}

fn invocation(func: &str, args: Vec<SyntaxNode>) -> SyntaxNode {
    node(
        "invocation_expression",
        "",
        None,
        vec![field_leaf("identifier", func, "function"), arg_list(args, Some("arguments"))],
    )
}

const HELLO_APP: &str = r#"
public class HelloApp : ViewBase
{
    public override object? Build()
    {
        var nameState = this.UseState<string>();
        return Layout.Center()
               | (new Card(
                   Layout.Vertical().Gap(6).Padding(2)
                   | new Confetti(new Logo())
                   | Text.H2("Hello " + (string.IsNullOrEmpty(nameState.Value) ? "there" : nameState.Value) + "!")
                   | new Separator()
                 ).Width(Size.Units(120).Max(500)));
    }
}
"#;

#[test]
fn test_minimal_app() {
    let code = "public class MinApp : ViewBase { public override object Build() => Text.H2(\"Hi\"); }";
    let rust = transpile_string(code).unwrap();
    assert!(rust.contains("struct MinApp"));
}

#[test]
fn minimal_app_has_exact_output() {
    let code = "public class MinApp : ViewBase { public override object Build() => Text.H2(\"Hi\"); }";
    let rust = transpile_string(code).unwrap();
    assert_eq!(
        rust,
        "#![allow(non_snake_case)]\nuse rusty_framework::prelude::*;\n\npub struct MinApp;\n\nimpl MinApp {\n    pub fn build() -> Box<dyn Widget> {\n    }\n}\n"
    );
}

#[test]
fn hello_app_transpiles_to_expected_rust() {
    let rust = transpile_string(HELLO_APP).unwrap();
    let expected = "#![allow(non_snake_case)]\n\
use rusty_framework::prelude::*;\n\
\n\
pub struct HelloApp;\n\
\n\
impl HelloApp {\n\
\x20   pub fn build() -> Box<dyn Widget> {\n\
\x20       let nameState = Signal::use_state(\"\".to_string());\n\
\x20       let result = Layout::center()\n\
\x20           | (Card::new(Box::new(Layout::vertical().gap(6.0).padding(2.0)\n\
| Confetti::new(Box::new(Logo))\n\
| Text::h2(format!(\"{}{}\", format!(\"{}{}\", \"Hello \".to_string(), (({ if (nameState.get()).is_empty() { \"there\".to_string() } else { nameState.get() } }))), \"!\".to_string()))\n\
| Separator)).width(Separator));\n\
\x20       Box::new(result)\n\
\x20   }\n\
}\n";
    assert_eq!(rust, expected);
}

#[test]
fn source_without_class_is_header_only() {
    let rust = transpile_string("namespace Empty { }").unwrap();
    assert_eq!(rust, "#![allow(non_snake_case)]\nuse rusty_framework::prelude::*;\n\n");
}

#[test]
fn only_the_first_class_is_transpiled() {
    let code = "class A { } class B { }";
    let rust = transpile_string(code).unwrap();
    assert!(rust.contains("pub struct A;"));
    assert!(!rust.contains("pub struct B;"));
}

#[test]
fn parse_gives_a_root_without_field() {
    let tree = parse_csharp("class A { }").unwrap();
    assert!(tree.field.is_none());
    assert_eq!(tree.kind, "compilation_unit");
}

#[test]
fn transpile_error_messages() {
    assert_eq!(TranspileError::ParseFailed.message(), "Failed to parse");
    assert_eq!(TranspileError::IncompatibleLanguage.message(), "Incompatible language version");
}

#[test]
fn binary_pipe_breaks_the_line_at_the_indentation() {
    let n = node(
        "binary_expression",
        "a | b",
        None,
        vec![
            field_leaf("identifier", "a", "left"),
            field_leaf("|", "|", "operator"),
            field_leaf("identifier", "b", "right"),
        ],
    );
    assert_eq!(expr(&n, 2), "a\n        | b");
}

#[test]
fn binary_plus_becomes_format() {
    let n = node(
        "binary_expression",
        "",
        None,
        vec![
            field_leaf("string_literal", "\"x\"", "left"),
            field_leaf("+", "+", "operator"),
            field_leaf("identifier", "y", "right"),
        ],
    );
    assert_eq!(expr(&n, 0), "format!(\"{}{}\", \"x\".to_string(), y)");
}

#[test]
fn other_binary_operators_are_kept() {
    let n = node(
        "binary_expression",
        "",
        None,
        vec![
            field_leaf("integer_literal", "1", "left"),
            field_leaf("==", "==", "operator"),
            field_leaf("integer_literal", "2", "right"),
        ],
    );
    assert_eq!(expr(&n, 0), "1 == 2");
}

#[test]
fn member_access_value_becomes_get() {
    let n = node(
        "member_access_expression",
        "",
        None,
        vec![
            field_leaf("identifier", "s", "expression"),
            leaf(".", "."),
            field_leaf("identifier", "Value", "name"),
        ],
    );
    assert_eq!(expr(&n, 0), "s.get()");
    let m = node(
        "member_access_expression",
        "",
        None,
        vec![
            field_leaf("identifier", "s", "expression"),
            leaf(".", "."),
            field_leaf("identifier", "Length", "name"),
        ],
    );
    assert_eq!(expr(&m, 0), "s.Length");
}

#[test]
fn literals_and_unknown_expressions() {
    assert_eq!(expr(&leaf("verbatim_string_literal", "@\"v\""), 0), "@\"v\".to_string()");
    assert_eq!(expr(&leaf("integer_literal", "42"), 0), "42");
    assert_eq!(expr(&leaf("predefined_type", "int"), 0), "int");
    assert_eq!(expr(&leaf("lambda_expression", "x => x"), 0), "Separator");
}

#[test]
fn conditional_and_parentheses() {
    let c = node(
        "conditional_expression",
        "",
        None,
        vec![
            field_leaf("identifier", "c", "condition"),
            leaf("?", "?"),
            field_leaf("integer_literal", "1", "consequence"),
            leaf(":", ":"),
            field_leaf("integer_literal", "2", "alternative"),
        ],
    );
    assert_eq!(expr(&c, 0), "({ if c { 1 } else { 2 } })");
    let p = node("parenthesized_expression", "", None, vec![leaf("(", "("), leaf("identifier", "x"), leaf(")", ")")]);
    assert_eq!(expr(&p, 0), "(x)");
    let empty = node("parenthesized_expression", "", None, vec![leaf("(", "("), leaf(")", ")")]);
    assert_eq!(expr(&empty, 0), "()");
}

#[test]
fn object_creation_variants() {
    let card = node(
        "object_creation_expression",
        "",
        None,
        vec![
            leaf("new", "new"),
            field_leaf("identifier", "Card", "type"),
            arg_list(vec![argument(leaf("identifier", "x"))], Some("arguments")),
        ],
    );
    assert_eq!(expr(&card, 0), "Card::new(Box::new(x))");
    let confetti = node(
        "object_creation_expression",
        "",
        None,
        vec![leaf("new", "new"), field_leaf("identifier", "Confetti", "type")],
    );
    assert_eq!(expr(&confetti, 0), "Confetti::new(Box::new())");
    let logo = node("object_creation_expression", "", None, vec![field_leaf("identifier", "Logo", "type")]);
    assert_eq!(expr(&logo, 0), "Logo");
    let other = node("object_creation_expression", "", None, vec![field_leaf("identifier", "Button", "type")]);
    assert_eq!(expr(&other, 0), "Separator");
}

#[test]
fn invocation_variants() {
    assert_eq!(expr(&invocation("Layout.Center", vec![]), 0), "Layout::center()");
    assert_eq!(expr(&invocation("Layout.Vertical", vec![]), 0), "Layout::vertical()");
    assert_eq!(
        expr(&invocation("Text.Markdown", vec![argument(leaf("string_literal", "\"m\""))]), 0),
        "Text::markdown(\"m\".to_string())"
    );
    assert_eq!(
        expr(&invocation("Size.Units", vec![argument(leaf("integer_literal", "120"))]), 0),
        "120.0"
    );
    assert_eq!(
        expr(&invocation("string.IsNullOrEmpty", vec![argument(leaf("identifier", "s"))]), 0),
        "(s).is_empty()"
    );
    assert_eq!(expr(&invocation("name.ToInput", vec![]), 0), "Separator");
    assert_eq!(expr(&invocation("Other", vec![]), 0), "Separator");
}

#[test]
fn gap_keeps_its_receiver_and_floats_digit_arguments() {
    let func = node(
        "member_access_expression",
        "Layout.Vertical().Gap",
        Some("function"),
        vec![
            field_leaf("identifier", "v", "expression"),
            leaf(".", "."),
            field_leaf("identifier", "Gap", "name"),
        ],
    );
    let call = node(
        "invocation_expression",
        "",
        None,
        vec![func, arg_list(vec![argument(leaf("integer_literal", "6")), argument(leaf("identifier", "w"))], Some("arguments"))],
    );
    assert_eq!(expr(&call, 0), "v.gap(6.0, w)");
}

#[test]
fn named_arguments_skip_the_name() {
    let arg = node(
        "argument",
        "placeholder: x",
        None,
        vec![node("name_colon", "placeholder:", None, vec![]), leaf("identifier", "x")],
    );
    let list = arg_list(vec![arg, argument(leaf("integer_literal", "3"))], None);
    let mut out = String::new();
    emit_args(&list, false, &mut out);
    assert_eq!(out, "x, 3");
}

#[test]
fn body_statements() {
    let declarator = node(
        "variable_declarator",
        "",
        None,
        vec![
            field_leaf("identifier", "count", "name"),
            node(
                "equals_value_clause",
                "",
                None,
                vec![leaf("=", "="), leaf("invocation_expression", "this.UseState<int>()")],
            ),
        ],
    );
    let plain = node(
        "variable_declarator",
        "",
        None,
        vec![field_leaf("identifier", "other", "name"), field_leaf("integer_literal", "3", "value")],
    );
    let decl = node("variable_declaration", "", None, vec![leaf("implicit_type", "var"), declarator, plain]);
    let local = node("local_declaration_statement", "", None, vec![decl, leaf(";", ";")]);
    let ret = node("return_statement", "", None, vec![leaf("return", "return"), leaf("identifier", "x"), leaf(";", ";")]);
    let stmt = node("expression_statement", "", None, vec![leaf("identifier", "y"), leaf(";", ";")]);
    let block = node("block", "", None, vec![leaf("{", "{"), local, ret, stmt, leaf("}", "}")]);
    let mut out = String::new();
    emit_body(&block, 1, &mut out);
    assert_eq!(
        out,
        "    let count = Signal::use_state(\"\".to_string());\n    let result = x;\n    Box::new(result)\n;\n"
    );
}

#[test]
fn a_class_without_name_is_skipped_with_its_inside() {
    let inner = node("class_declaration", "", None, vec![leaf("identifier", "Inner")]);
    let nameless = node("class_declaration", "", None, vec![leaf("class", "class"), node("declaration_list", "", None, vec![inner])]);
    let named = node("class_declaration", "", None, vec![leaf("class", "class"), leaf("identifier", "Second")]);
    let root = node("compilation_unit", "", None, vec![nameless, named]);
    let mut out = String::new();
    assert!(emit_class(&root, &mut out));
    assert_eq!(out, "pub struct Second;\n\nimpl Second {\n}\n");
    let none = node("compilation_unit", "", None, vec![leaf("comment", "// x")]);
    let mut out2 = String::new();
    assert!(!emit_class(&none, &mut out2));
    assert_eq!(out2, "");
}

#[test]
fn only_build_methods_are_kept() {
    let other = node(
        "method_declaration",
        "",
        None,
        vec![leaf("predefined_type", "void"), leaf("identifier", "Render"), node("block", "", None, vec![])],
    );
    let build = node(
        "method_declaration",
        "",
        None,
        vec![leaf("predefined_type", "object"), leaf("identifier", "Build"), node("block", "", None, vec![])],
    );
    let class = node(
        "class_declaration",
        "",
        None,
        vec![leaf("identifier", "C"), node("declaration_list", "", None, vec![other, build])],
    );
    assert_eq!(
        transpile_tree(&class),
        "#![allow(non_snake_case)]\nuse rusty_framework::prelude::*;\n\npub struct C;\n\nimpl C {\n    pub fn build() -> Box<dyn Widget> {\n    }\n}\n"
    );
}

#[test]
fn comment_inside_expression_keeps_fields() {
    let plain = "public class C : ViewBase { public override object Build() { return \"a\" + \"b\"; } }";
    let commented =
        "public class C : ViewBase { public override object Build() { return \"a\" /* c */ + \"b\"; } }";
    let expected = transpile_string(plain).unwrap();
    assert!(expected.contains("format!(\"{}{}\", \"a\".to_string(), \"b\".to_string())"));
    assert_eq!(transpile_string(commented).unwrap(), expected);
}

const FIELDS_READ: [(&str, &[&str]); 7] = [
    ("binary_expression", &["left", "operator", "right"]),
    ("invocation_expression", &["function", "arguments"]),
    ("object_creation_expression", &["type", "arguments"]),
    ("conditional_expression", &["condition", "consequence", "alternative"]),
    ("member_access_expression", &["expression", "name"]),
    ("return_statement", &["expression"]),
    ("variable_declarator", &["name", "value"]),
];

fn same_fields(ts: Node, copy: &SyntaxNode, checked: &mut usize) {
    assert_eq!(ts.kind(), copy.kind);
    assert_eq!(ts.child_count(), copy.children.len());
    for (kind, fields) in FIELDS_READ.iter() {
        if ts.kind() == *kind {
            for f in fields.iter() {
                let expected = ts.child_by_field_name(f);
                let ours = copy.children.iter().position(|c| c.field.as_deref() == Some(*f));
                match (expected, ours) {
                    (None, None) => {}
                    (Some(e), Some(k)) => assert_eq!(Some(e), ts.child(k), "field {f} of {kind}"),
                    (e, o) => panic!("field {f} of {kind}: tree-sitter {:?}, copy {:?}", e, o),
                }
                *checked += 1;
            }
        }
    }
    for i in 0..ts.child_count() {
        same_fields(ts.child(i).unwrap(), &copy.children[i], checked);
    }
}

#[test]
fn recorded_fields_match_child_by_field_name() {
    let sources = [
        HELLO_APP.to_string(),
        "public class C : ViewBase { public override object Build() { var x /* c */ = this.UseState<string>(); return \"a\" /* c */ + /* d */ \"b\"; } }".to_string(),
        "public class D : ViewBase { public override object Build() { return f(/* a */ 1) ? /* b */ new Card(x) : y.Value; } }".to_string(),
    ];
    let mut checked = 0;
    for source in sources.iter() {
        let mut parser = Parser::new();
        parser.set_language(tree_sitter_c_sharp::language()).unwrap();
        let tree = parser.parse(source, None).unwrap();
        let copy = parse_csharp(source).unwrap();
        same_fields(tree.root_node(), &copy, &mut checked);
    }
    assert!(checked > 20);
}
