use rusty_framework::regex_transpiler::transpile_view_source;

const HEADER_END: &str = "    }\n}\n";

fn wrap(name: &str, body: &str) -> String {
    format!(
        "use crate::prelude::*;\n\npub struct {name};\n\nimpl {name} {{\n    pub fn build() -> Box<dyn Widget> {{\n{body}{HEADER_END}"
    )
}

#[test]
fn hello_view_is_rewritten_line_by_line() {
    let source = [
        "using Ivy;",
        "public class HelloApp : ViewBase",
        "{",
        "    public override object? Build()",
        "    {",
        "        var nameState = this.UseState<string>();",
        "        return Layout.Center()",
        "            | new Card(",
        "                Layout.Vertical().Gap(6).Padding(2)",
        "                | Text.H2(\"Hello\")",
        "                | new Separator()",
        "            ).Width(Size.Units(120).Max(500));",
        "    }",
        "}",
        "",
    ]
    .join("\n");
    let body = [
        "        let name_state = Signal::use_state(\"\".to_string());",
        "        return Box::new(Layout::center())",
        "        | Box::new(Card { content:",
        "        Layout::vertical().gap(6.0).padding(2.0)",
        "        | Box::new(Text { content: \"Hello\".to_string(), style: Some(\"H2\".to_string()) })",
        "        | Box::new(Separator)",
        "        , width: None }).width(Some(120.0));",
        "",
    ]
    .join("\n");
    assert_eq!(transpile_view_source(&source).unwrap(), wrap("HelloApp", &body));
}

#[test]
fn view_without_class_is_named_app() {
    let source = "public override object? Build() { return new Separator(); }";
    assert_eq!(
        transpile_view_source(source).unwrap(),
        wrap("App", "        return Box::new(Separator);\n")
    );
}

#[test]
fn view_without_build_has_empty_body() {
    let source = "public class Empty : ViewBase { }";
    assert_eq!(transpile_view_source(source).unwrap(), wrap("Empty", ""));
    assert_eq!(transpile_view_source("").unwrap(), wrap("App", ""));
}

#[test]
fn blank_and_crlf_lines_are_dropped_and_trimmed() {
    let source = "public class Crlf : ViewBase\r\n{\r\n    public override object? Build()\r\n    {\r\n\r\n        return Layout.Vertical().Gap(4);\r\n   \t\r\n    }\r\n}\r\n";
    assert_eq!(
        transpile_view_source(source).unwrap(),
        wrap("Crlf", "        return Layout::vertical().gap(4.0);\n")
    );
}

#[test]
fn ternary_over_empty_string_becomes_if() {
    let source = "public class T : ViewBase { public override object? Build() {\nvar shown = (string.IsNullOrEmpty(name) ? a : b);\n} }";
    assert_eq!(
        transpile_view_source(source).unwrap(),
        wrap("T", "        var shown = if name.get().is_empty() { a } else { b };\n")
    );
}

#[test]
fn build_body_ends_at_first_closing_brace() {
    let source = "public class B : ViewBase { public override object? Build() {\nreturn new Separator();\n}\nreturn Layout.Center();\n}";
    assert_eq!(
        transpile_view_source(source).unwrap(),
        wrap("B", "        return Box::new(Separator);\n")
    );
}

#[test]
fn size_without_max_and_width() {
    let source = "public class S : ViewBase { public override object? Build() {\nx.Width(Size.Units(42))\n}";
    assert_eq!(
        transpile_view_source(source).unwrap(),
        wrap("S", "        x.width(Some(42.0))\n")
    );
}

fn body_of(body: &str) -> String {
    let source = format!("public class V : ViewBase {{ public override object? Build() {{{body}}} }}");
    let full = transpile_view_source(&source).unwrap();
    let start = full.find("Box<dyn Widget> {\n").unwrap() + "Box<dyn Widget> {\n".len();
    let end = full.len() - HEADER_END.len();
    full[start..end].to_string()
}

#[test]
fn state_variable_becomes_snake_case_signal() {
    assert_eq!(
        body_of("    var nameState = this.UseState<string>();\n"),
        "        let name_state = Signal::use_state(\"\".to_string());\n"
    );
    assert_eq!(
        body_of("var MyCount = this.UseState<int>(); var x = this.UseState<bool>();"),
        "        let my_count = Signal::use_state(\"\".to_string()); let x = Signal::use_state(\"\".to_string());\n"
    );
}

#[test]
fn whole_number_gap_and_padding_become_floats() {
    assert_eq!(body_of("Layout.Vertical().Gap(6)"), "        Layout::vertical().gap(6.0)\n");
    assert_eq!(body_of("x.Padding(12).Gap(g)"), "        x.padding(12.0).gap(g)\n");
}

#[test]
fn card_gets_its_content_and_no_width() {
    assert_eq!(body_of("new Card(x)"), "        Box::new(Card { content: x, width: None })\n");
    assert_eq!(
        body_of("new Card(new Card(f(1)))"),
        "        Box::new(Card { content: Box::new(Card { content: f(1), width: None }), width: None })\n"
    );
    assert_eq!(body_of("new Card(x"), "        Box::new(Card { content: x\n");
}

#[test]
fn one_output_line_per_non_blank_line() {
    let body = "\n  var aB = this.UseState<string>();\n\n  return new Card(\n    x\n  ).Width(Size.Units(3));\n   \n";
    let out = body_of(body);
    let non_blank = body.lines().filter(|l| !l.trim().is_empty()).count();
    assert_eq!(out.matches('\n').count(), non_blank);
    assert!(out.lines().all(|l| l.starts_with("        ")));
    assert_eq!(
        out,
        "        let a_b = Signal::use_state(\"\".to_string());\n        return Box::new(Card { content:\n        x\n        , width: None }).width(Some(3.0));\n"
    );
}
