use vstd::prelude::*;

use crate::ivy::Signal;
use crate::json::{
    array, entry, int_text, object, opt_str_view, opt_view, Json, JsonView,
};
use super::Widget;

verus! {

/// A text field bound to a string signal.
pub struct TextInput {
    pub signal: Signal<String>,
    pub placeholder: String,
    pub variant: String,
    pub label: Option<String>,
    pub description: Option<String>,
    pub disabled: bool,
    pub invalid: Option<String>,
    pub density: String,
    pub prefix: Option<String>,
    pub suffix: Option<String>,
    pub min_length: Option<u32>,
    pub max_length: Option<u32>,
    pub shortcut_key: Option<String>,
    pub on_change: Option<String>,
    pub on_blur: Option<String>,
}

/// The JSON of an optional count.
pub open spec fn opt_count_view(n: Option<u32>) -> JsonView {
    match n {
        Some(k) => JsonView::Number(int_text(k as int)),
        None => JsonView::Null,
    }
}

/// The properties of a text field whose signal holds `value`, by key in order.
pub open spec fn text_input_props(w: TextInput, value: Seq<char>) -> Seq<(Seq<char>, JsonView)> {
    seq![
        ("density"@, JsonView::Str(w.density@)),
        ("description"@, opt_str_view(opt_view(w.description))),
        ("disabled"@, JsonView::Bool(w.disabled)),
        ("invalid"@, opt_str_view(opt_view(w.invalid))),
        ("label"@, opt_str_view(opt_view(w.label))),
        ("maxLength"@, opt_count_view(w.max_length)),
        ("minLength"@, opt_count_view(w.min_length)),
        ("onBlur"@, opt_str_view(opt_view(w.on_blur))),
        ("onChange"@, opt_str_view(opt_view(w.on_change))),
        ("placeholder"@, JsonView::Str(w.placeholder@)),
        ("prefix"@, opt_str_view(opt_view(w.prefix))),
        ("shortcutKey"@, opt_str_view(opt_view(w.shortcut_key))),
        ("suffix"@, opt_str_view(opt_view(w.suffix))),
        ("value"@, JsonView::Str(value)),
        ("variant"@, JsonView::Str(w.variant@)),
    ]
}

/// The JSON of a text field whose signal holds `value`.
pub open spec fn text_input_json(w: TextInput, value: Seq<char>) -> JsonView {
    JsonView::Object(
        seq![
            ("children"@, JsonView::Array(Seq::empty())),
            ("events"@, JsonView::Array(seq![JsonView::Str("OnChange"@)])),
            ("id"@, JsonView::Str(w.signal.spec_id())),
            ("props"@, JsonView::Object(text_input_props(w, value))),
            ("type"@, JsonView::Str("Ivy.TextInput"@)),
        ],
    )
}

impl TextInput {
    /// A medium, enabled text field of the `"Text"` variant with an empty placeholder.
    pub fn new(signal: Signal<String>) -> (r: Self)
        ensures
            r.signal == signal,
            r.placeholder@ == Seq::<char>::empty(),
            r.variant@ == "Text"@,
            r.label is None,
            r.description is None,
            !r.disabled,
            r.invalid is None,
            r.density@ == "Medium"@,
            r.prefix is None,
            r.suffix is None,
            r.min_length is None,
            r.max_length is None,
            r.shortcut_key is None,
            r.on_change is None,
            r.on_blur is None,
    {
        TextInput {
            signal,
            placeholder: String::new(),
            variant: "Text".to_string(),
            label: None,
            description: None,
            disabled: false,
            invalid: None,
            density: "Medium".to_string(),
            prefix: None,
            suffix: None,
            min_length: None,
            max_length: None,
            shortcut_key: None,
            on_change: None,
            on_blur: None,
        }
    }

    pub fn placeholder(self, placeholder: String) -> (r: Self)
        ensures
            r == (TextInput { placeholder: placeholder, ..self }),
    {
        TextInput { placeholder: placeholder, ..self }
    }

    pub fn variant(self, variant: String) -> (r: Self)
        ensures
            r == (TextInput { variant: variant, ..self }),
    {
        TextInput { variant: variant, ..self }
    }

    pub fn label(self, label: String) -> (r: Self)
        ensures
            r == (TextInput { label: Some(label), ..self }),
    {
        TextInput { label: Some(label), ..self }
    }

    pub fn description(self, description: String) -> (r: Self)
        ensures
            r == (TextInput { description: Some(description), ..self }),
    {
        TextInput { description: Some(description), ..self }
    }

    pub fn disabled(self) -> (r: Self)
        ensures
            r == (TextInput { disabled: true, ..self }),
    {
        TextInput { disabled: true, ..self }
    }

    pub fn invalid(self, invalid: String) -> (r: Self)
        ensures
            r == (TextInput { invalid: Some(invalid), ..self }),
    {
        TextInput { invalid: Some(invalid), ..self }
    }

    pub fn density(self, density: String) -> (r: Self)
        ensures
            r == (TextInput { density: density, ..self }),
    {
        TextInput { density: density, ..self }
    }

    pub fn small(self) -> (r: Self)
        ensures
            r.density@ == "Small"@,
            r == (TextInput { density: r.density, ..self }),
    {
        TextInput { density: "Small".to_string(), ..self }
    }

    pub fn large(self) -> (r: Self)
        ensures
            r.density@ == "Large"@,
            r == (TextInput { density: r.density, ..self }),
    {
        TextInput { density: "Large".to_string(), ..self }
    }

    pub fn prefix(self, prefix: String) -> (r: Self)
        ensures
            r == (TextInput { prefix: Some(prefix), ..self }),
    {
        TextInput { prefix: Some(prefix), ..self }
    }

    pub fn suffix(self, suffix: String) -> (r: Self)
        ensures
            r == (TextInput { suffix: Some(suffix), ..self }),
    {
        TextInput { suffix: Some(suffix), ..self }
    }

    pub fn min_length(self, min: u32) -> (r: Self)
        ensures
            r == (TextInput { min_length: Some(min), ..self }),
    {
        TextInput { min_length: Some(min), ..self }
    }

    pub fn max_length(self, max: u32) -> (r: Self)
        ensures
            r == (TextInput { max_length: Some(max), ..self }),
    {
        TextInput { max_length: Some(max), ..self }
    }

    pub fn shortcut_key(self, key: String) -> (r: Self)
        ensures
            r == (TextInput { shortcut_key: Some(key), ..self }),
    {
        TextInput { shortcut_key: Some(key), ..self }
    }

    pub fn on_change(self, id: String) -> (r: Self)
        ensures
            r == (TextInput { on_change: Some(id), ..self }),
    {
        TextInput { on_change: Some(id), ..self }
    }

    pub fn on_blur(self, id: String) -> (r: Self)
        ensures
            r == (TextInput { on_blur: Some(id), ..self }),
    {
        TextInput { on_blur: Some(id), ..self }
    }

    /// The same as `shortcut_key`, under the lower-case name that transpiled code uses.
    pub fn shortcutkey(self, key: String) -> (r: Self)
        ensures
            r == (TextInput { shortcut_key: Some(key), ..self }),
    {
        self.shortcut_key(key)
    }

    /// The widget's JSON when its signal holds `value`.
    pub fn to_json_with_value(&self, value: String) -> (r: Json)
        ensures
            r@ == text_input_json(*self, value@),
    {
        let props = object(
            vec![
                entry("density", Json::Str(self.density.clone())),
                entry("description", Json::opt_string(&self.description)),
                entry("disabled", Json::Bool(self.disabled)),
                entry("invalid", Json::opt_string(&self.invalid)),
                entry("label", Json::opt_string(&self.label)),
                entry("maxLength", Json::opt_u32(self.max_length)),
                entry("minLength", Json::opt_u32(self.min_length)),
                entry("onBlur", Json::opt_string(&self.on_blur)),
                entry("onChange", Json::opt_string(&self.on_change)),
                entry("placeholder", Json::Str(self.placeholder.clone())),
                entry("prefix", Json::opt_string(&self.prefix)),
                entry("shortcutKey", Json::opt_string(&self.shortcut_key)),
                entry("suffix", Json::opt_string(&self.suffix)),
                entry("value", Json::Str(value)),
                entry("variant", Json::Str(self.variant.clone())),
            ],
        );
        assert(props@->Object_0 =~= text_input_props(*self, value@));
        let events = array(vec![Json::string("OnChange")]);
        assert(events@->Array_0 =~= seq![JsonView::Str("OnChange"@)]);
        let r = object(
            vec![
                entry("children", array(Vec::new())),
                entry("events", events),
                entry("id", Json::string(self.signal.id())),
                entry("props", props),
                entry("type", Json::string("Ivy.TextInput")),
            ],
        );
        assert(r@->Object_0 =~= text_input_json(*self, value@)->Object_0);
        r
    }
}

/// `props` with the property at position `i` set to `value` under `key`.
pub open spec fn with_prop(
    props: Seq<(Seq<char>, JsonView)>,
    i: int,
    key: Seq<char>,
    value: JsonView,
) -> Seq<(Seq<char>, JsonView)> {
    props.update(i, (key, value))
}

/// Each builder of a text field changes one property of its JSON, its own, and leaves
/// every other property (and everything outside the properties) as it was.
pub proof fn law_text_input_builders_touch_one_prop(
    w: TextInput,
    value: Seq<char>,
    s: String,
    n: u32,
)
    ensures
        text_input_props(TextInput { density: s, ..w }, value) == with_prop(
            text_input_props(w, value), 0, "density"@, JsonView::Str(s@)),
        text_input_props(TextInput { description: Some(s), ..w }, value) == with_prop(
            text_input_props(w, value), 1, "description"@, JsonView::Str(s@)),
        text_input_props(TextInput { disabled: true, ..w }, value) == with_prop(
            text_input_props(w, value), 2, "disabled"@, JsonView::Bool(true)),
        text_input_props(TextInput { invalid: Some(s), ..w }, value) == with_prop(
            text_input_props(w, value), 3, "invalid"@, JsonView::Str(s@)),
        text_input_props(TextInput { label: Some(s), ..w }, value) == with_prop(
            text_input_props(w, value), 4, "label"@, JsonView::Str(s@)),
        text_input_props(TextInput { max_length: Some(n), ..w }, value) == with_prop(
            text_input_props(w, value), 5, "maxLength"@, JsonView::Number(int_text(n as int))),
        text_input_props(TextInput { min_length: Some(n), ..w }, value) == with_prop(
            text_input_props(w, value), 6, "minLength"@, JsonView::Number(int_text(n as int))),
        text_input_props(TextInput { on_blur: Some(s), ..w }, value) == with_prop(
            text_input_props(w, value), 7, "onBlur"@, JsonView::Str(s@)),
        text_input_props(TextInput { on_change: Some(s), ..w }, value) == with_prop(
            text_input_props(w, value), 8, "onChange"@, JsonView::Str(s@)),
        text_input_props(TextInput { placeholder: s, ..w }, value) == with_prop(
            text_input_props(w, value), 9, "placeholder"@, JsonView::Str(s@)),
        text_input_props(TextInput { prefix: Some(s), ..w }, value) == with_prop(
            text_input_props(w, value), 10, "prefix"@, JsonView::Str(s@)),
        text_input_props(TextInput { shortcut_key: Some(s), ..w }, value) == with_prop(
            text_input_props(w, value), 11, "shortcutKey"@, JsonView::Str(s@)),
        text_input_props(TextInput { suffix: Some(s), ..w }, value) == with_prop(
            text_input_props(w, value), 12, "suffix"@, JsonView::Str(s@)),
        text_input_props(TextInput { variant: s, ..w }, value) == with_prop(
            text_input_props(w, value), 14, "variant"@, JsonView::Str(s@)),
        forall|u: TextInput|
            u.signal == w.signal ==> (#[trigger] text_input_json(u, value))->Object_0.remove(3)
                == text_input_json(w, value)->Object_0.remove(3),
{
    let p = text_input_props(w, value);
    assert(text_input_props(TextInput { density: s, ..w }, value) =~= with_prop(p, 0, "density"@, JsonView::Str(s@)));
    assert(text_input_props(TextInput { description: Some(s), ..w }, value) =~= with_prop(p, 1, "description"@, JsonView::Str(s@)));
    assert(text_input_props(TextInput { disabled: true, ..w }, value) =~= with_prop(p, 2, "disabled"@, JsonView::Bool(true)));
    assert(text_input_props(TextInput { invalid: Some(s), ..w }, value) =~= with_prop(p, 3, "invalid"@, JsonView::Str(s@)));
    assert(text_input_props(TextInput { label: Some(s), ..w }, value) =~= with_prop(p, 4, "label"@, JsonView::Str(s@)));
    assert(text_input_props(TextInput { max_length: Some(n), ..w }, value) =~= with_prop(p, 5, "maxLength"@, JsonView::Number(int_text(n as int))));
    assert(text_input_props(TextInput { min_length: Some(n), ..w }, value) =~= with_prop(p, 6, "minLength"@, JsonView::Number(int_text(n as int))));
    assert(text_input_props(TextInput { on_blur: Some(s), ..w }, value) =~= with_prop(p, 7, "onBlur"@, JsonView::Str(s@)));
    assert(text_input_props(TextInput { on_change: Some(s), ..w }, value) =~= with_prop(p, 8, "onChange"@, JsonView::Str(s@)));
    assert(text_input_props(TextInput { placeholder: s, ..w }, value) =~= with_prop(p, 9, "placeholder"@, JsonView::Str(s@)));
    assert(text_input_props(TextInput { prefix: Some(s), ..w }, value) =~= with_prop(p, 10, "prefix"@, JsonView::Str(s@)));
    assert(text_input_props(TextInput { shortcut_key: Some(s), ..w }, value) =~= with_prop(p, 11, "shortcutKey"@, JsonView::Str(s@)));
    assert(text_input_props(TextInput { suffix: Some(s), ..w }, value) =~= with_prop(p, 12, "suffix"@, JsonView::Str(s@)));
    assert(text_input_props(TextInput { variant: s, ..w }, value) =~= with_prop(p, 14, "variant"@, JsonView::Str(s@)));
    assert forall|u: TextInput|
        u.signal == w.signal implies (#[trigger] text_input_json(u, value))->Object_0.remove(3)
            == text_input_json(w, value)->Object_0.remove(3) by {
        assert(text_input_json(u, value)->Object_0.remove(3) =~= text_input_json(w, value)->Object_0.remove(3));
    }
}

impl Widget for TextInput {
    /// The text field's JSON with some value of its signal.
    open spec fn writes_json(&self, j: JsonView) -> bool {
        exists|value: Seq<char>| j == text_input_json(*self, value)
    }

    /// The widget's JSON with the value its signal holds now.
    fn serialize(&self) -> (r: Json)
        ensures
            exists|value: Seq<char>| r@ == text_input_json(*self, value),
    {
        let value = self.signal.get();
        self.to_json_with_value(value)
    }
}

} // verus!
