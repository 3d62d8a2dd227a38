use rusty_framework::ivy::Signal;
use rusty_framework::widget::{
    Confetti as OldConfetti, Logo as OldLogo, Separator as OldSeparator, Text as OldText,
    Widget as OldWidget,
};
use rusty_framework::widgets::bool_input::{BoolInput, BoolInputVariant};
use rusty_framework::widgets::{Confetti, Logo, Separator, Text, TextInput, Widget};

fn parse(j: &rusty_framework::json::Json) -> serde_json::Value {
    serde_json::from_str(&j.to_json_string()).unwrap()
}

#[test]
fn text_constructors_set_the_kind() {
    let cases: Vec<(Text, &str)> = vec![
        (Text::h1("a".to_string()), "H1"),
        (Text::h2("a".to_string()), "H2"),
        (Text::h3("a".to_string()), "H3"),
        (Text::p("a".to_string()), "P"),
        (Text::monospaced("a".to_string()), "Monospaced"),
        (Text::block("a".to_string()), "Block"),
        (Text::markdown("a".to_string()), "Markdown"),
    ];
    for (t, kind) in cases {
        assert_eq!(t.content, "a");
        assert_eq!(t.kind, kind);
    }
}

#[test]
fn text_block_json_with_id() {
    let t = Text::h2("Hello Rory!".to_string());
    assert_eq!(
        t.to_json_with_id("id-1".to_string()).to_json_string(),
        "{\"children\":[],\"events\":[],\"id\":\"id-1\",\"props\":{\"content\":\"Hello Rory!\",\"variant\":\"H2\"},\"type\":\"Ivy.TextBlock\"}"
    );
}

#[test]
fn markdown_json_with_id() {
    let t = Text::markdown("You'd be a **hero**".to_string());
    assert_eq!(
        t.to_json_with_id("m".to_string()).to_json_string(),
        "{\"children\":[],\"events\":[],\"id\":\"m\",\"props\":{\"content\":\"You'd be a **hero**\"},\"type\":\"Ivy.Markdown\"}"
    );
}

#[test]
fn text_serialize_uses_a_fresh_uuid() {
    let t = Text::block("Welcome".to_string());
    let a = parse(&t.serialize());
    let b = parse(&t.serialize());
    let id = a["id"].as_str().unwrap();
    assert_eq!(id.len(), 36);
    assert!(uuid::Uuid::parse_str(id).is_ok());
    assert_ne!(a["id"], b["id"]);
    assert_eq!(a["type"], "Ivy.TextBlock");
    assert_eq!(a["props"]["content"], "Welcome");
    assert_eq!(a["props"]["variant"], "Block");
    assert_eq!(a["events"], serde_json::Value::Array(vec![]));
    assert_eq!(a["children"], serde_json::Value::Array(vec![]));
}

#[test]
fn tag_widgets() {
    assert_eq!(Separator.serialize().to_json_string(), "{\"type\":\"separator\"}");
    assert_eq!(Logo.serialize().to_json_string(), "{\"type\":\"logo\"}");
}

#[test]
fn confetti_wraps_its_child() {
    let c = Confetti::new(Box::new(Logo));
    assert_eq!(
        c.serialize().to_json_string(),
        "{\"child\":{\"type\":\"logo\"},\"type\":\"confetti\"}"
    );
    let inner = Confetti::new(Box::new(Confetti::new(Box::new(Separator))));
    assert_eq!(
        inner.serialize().to_json_string(),
        "{\"child\":{\"child\":{\"type\":\"separator\"},\"type\":\"confetti\"},\"type\":\"confetti\"}"
    );
}

#[test]
fn text_input_defaults() {
    let w = TextInput::new(Signal::use_state("name".to_string(), String::new()));
    assert_eq!(w.signal.id(), "name");
    assert_eq!(w.placeholder, "");
    assert_eq!(w.variant, "Text");
    assert_eq!(w.label, None);
    assert_eq!(w.description, None);
    assert!(!w.disabled);
    assert_eq!(w.invalid, None);
    assert_eq!(w.density, "Medium");
    assert_eq!(w.prefix, None);
    assert_eq!(w.suffix, None);
    assert_eq!(w.min_length, None);
    assert_eq!(w.max_length, None);
    assert_eq!(w.shortcut_key, None);
    assert_eq!(w.on_change, None);
    assert_eq!(w.on_blur, None);
}

#[test]
fn text_input_builders() {
    let w = TextInput::new(Signal::use_state("n".to_string(), String::new()))
        .placeholder("Your name".to_string())
        .variant("Password".to_string())
        .label("Name".to_string())
        .description("Who you are".to_string())
        .disabled()
        .invalid("Too short".to_string())
        .large()
        .prefix("@".to_string())
        .suffix("!".to_string())
        .min_length(2)
        .max_length(20)
        .shortcutkey("Ctrl+K".to_string())
        .on_change("c1".to_string())
        .on_blur("b1".to_string());
    assert_eq!(w.placeholder, "Your name");
    assert_eq!(w.variant, "Password");
    assert_eq!(w.label.as_deref(), Some("Name"));
    assert_eq!(w.description.as_deref(), Some("Who you are"));
    assert!(w.disabled);
    assert_eq!(w.invalid.as_deref(), Some("Too short"));
    assert_eq!(w.density, "Large");
    assert_eq!(w.prefix.as_deref(), Some("@"));
    assert_eq!(w.suffix.as_deref(), Some("!"));
    assert_eq!(w.min_length, Some(2));
    assert_eq!(w.max_length, Some(20));
    assert_eq!(w.shortcut_key.as_deref(), Some("Ctrl+K"));
    assert_eq!(w.on_change.as_deref(), Some("c1"));
    assert_eq!(w.on_blur.as_deref(), Some("b1"));
    let w = w.small().density("Compact".to_string()).shortcut_key("Alt+N".to_string());
    assert_eq!(w.density, "Compact");
    assert_eq!(w.shortcut_key.as_deref(), Some("Alt+N"));
    let w = w.small();
    assert_eq!(w.density, "Small");
}

#[test]
fn text_input_json() {
    let sig = Signal::use_state("name".to_string(), "Rory".to_string());
    let w = TextInput::new(sig.clone())
        .placeholder("Your name".to_string())
        .label("Name".to_string())
        .max_length(20)
        .small()
        .on_change("c1".to_string());
    let expected = "{\"children\":[],\"events\":[\"OnChange\"],\"id\":\"name\",\"props\":{\"density\":\"Small\",\"description\":null,\"disabled\":false,\"invalid\":null,\"label\":\"Name\",\"maxLength\":20,\"minLength\":null,\"onBlur\":null,\"onChange\":\"c1\",\"placeholder\":\"Your name\",\"prefix\":null,\"shortcutKey\":null,\"suffix\":null,\"value\":\"Rory\",\"variant\":\"Text\"},\"type\":\"Ivy.TextInput\"}";
    assert_eq!(w.to_json_with_value("Rory".to_string()).to_json_string(), expected);
    assert_eq!(w.serialize().to_json_string(), expected);
    sig.set("Ada".to_string());
    assert_eq!(parse(&w.serialize())["props"]["value"], "Ada");
}

#[test]
fn bool_input_defaults_and_builders() {
    let w = BoolInput::new(Signal::use_state("agree".to_string(), false));
    assert_eq!(w.variant, BoolInputVariant::Checkbox);
    assert_eq!(w.label, None);
    assert_eq!(w.description, None);
    assert!(!w.disabled);
    assert_eq!(w.density, "Medium");
    assert_eq!(w.on_change, None);
    assert_eq!(w.invalid, None);
    let w = w
        .variant(BoolInputVariant::Toggle)
        .label("Agree".to_string())
        .description("Terms".to_string())
        .disabled()
        .small()
        .on_change("oc".to_string())
        .invalid("Required".to_string());
    assert_eq!(w.variant, BoolInputVariant::Toggle);
    assert_eq!(w.label.as_deref(), Some("Agree"));
    assert_eq!(w.description.as_deref(), Some("Terms"));
    assert!(w.disabled);
    assert_eq!(w.density, "Small");
    assert_eq!(w.on_change.as_deref(), Some("oc"));
    assert_eq!(w.invalid.as_deref(), Some("Required"));
    let w = w.large();
    assert_eq!(w.density, "Large");
    let w = w.density("Dense".to_string());
    assert_eq!(w.density, "Dense");
}

#[test]
fn bool_input_variant_names() {
    assert_eq!(BoolInputVariant::Checkbox.name(), "Checkbox");
    assert_eq!(BoolInputVariant::Switch.name(), "Switch");
    assert_eq!(BoolInputVariant::Toggle.name(), "Toggle");
}

#[test]
fn bool_input_json() {
    let sig = Signal::use_state("agree".to_string(), true);
    let w = BoolInput::new(sig.clone())
        .variant(BoolInputVariant::Switch)
        .label("Agree".to_string());
    let expected = "{\"children\":[],\"events\":[\"OnChange\"],\"id\":\"agree\",\"props\":{\"density\":\"Medium\",\"description\":null,\"disabled\":false,\"invalid\":null,\"label\":\"Agree\",\"onChange\":null,\"value\":true,\"variant\":\"Switch\"},\"type\":\"Ivy.BoolInput\"}";
    assert_eq!(w.to_json_with_value(true).to_json_string(), expected);
    assert_eq!(w.serialize().to_json_string(), expected);
    sig.set(false);
    assert_eq!(parse(&w.serialize())["props"]["value"], false);
}

#[test]
fn first_generation_widgets() {
    let t = OldText { content: "Hello there!".to_string(), style: Some("H2".to_string()) };
    assert_eq!(
        t.serialize().to_json_string(),
        "{\"content\":\"Hello there!\",\"style\":\"H2\",\"type\":\"Text\"}"
    );
    let plain = OldText { content: "x".to_string(), style: None };
    assert_eq!(plain.serialize().to_json_string(), "{\"content\":\"x\",\"style\":null,\"type\":\"Text\"}");
    assert_eq!(OldSeparator.serialize().to_json_string(), "{\"type\":\"Separator\"}");
    assert_eq!(OldLogo.serialize().to_json_string(), "{\"type\":\"Logo\"}");
    let c = OldConfetti { child: Box::new(OldLogo) };
    assert_eq!(
        c.serialize().to_json_string(),
        "{\"child\":{\"type\":\"Logo\"},\"type\":\"Confetti\"}"
    );
}

#[test]
fn widget_ids_are_lower_case_v4_uuids() {
    let v = parse(&Text::p("x".to_string()).serialize());
    let id: Vec<char> = v["id"].as_str().unwrap().chars().collect();
    assert_eq!(id.len(), 36);
    for (i, c) in id.iter().enumerate() {
        if i == 8 || i == 13 || i == 18 || i == 23 {
            assert_eq!(*c, '-');
        } else {
            assert!(c.is_ascii_digit() || ('a'..='f').contains(c));
        }
    }
    assert_eq!(id[14], '4');
    assert!(['8', '9', 'a', 'b'].contains(&id[19]));
}
