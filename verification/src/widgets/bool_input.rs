use vstd::prelude::*;

use crate::ivy::Signal;
use crate::json::{array, entry, object, opt_str_view, opt_view, Json, JsonView};
use super::input::with_prop;
use super::Widget;

verus! {

/// How a boolean input is drawn.
#[derive(Debug, Clone, Copy, PartialEq, Eq, Structural)]
pub enum BoolInputVariant {
    Checkbox,
    Switch,
    Toggle,
}

/// The name under which a variant is written out.
pub open spec fn variant_name(v: BoolInputVariant) -> Seq<char> {
    match v {
        BoolInputVariant::Checkbox => "Checkbox"@,
        BoolInputVariant::Switch => "Switch"@,
        BoolInputVariant::Toggle => "Toggle"@,
    }
}

impl BoolInputVariant {
    /// The name under which this variant is written out.
    pub fn name(&self) -> (r: &'static str)
        ensures
            r@ == variant_name(*self),
    {
        match self {
            BoolInputVariant::Checkbox => "Checkbox",
            BoolInputVariant::Switch => "Switch",
            BoolInputVariant::Toggle => "Toggle",
        }
    }
}

/// A checkbox, switch or toggle bound to a boolean signal.
pub struct BoolInput {
    pub signal: Signal<bool>,
    pub variant: BoolInputVariant,
    pub label: Option<String>,
    pub description: Option<String>,
    pub disabled: bool,
    pub density: String,
    pub on_change: Option<String>,
    pub invalid: Option<String>,
}

/// The properties of a boolean input whose signal holds `value`, by key in order.
pub open spec fn bool_input_props(w: BoolInput, value: bool) -> Seq<(Seq<char>, JsonView)> {
    seq![
        ("density"@, JsonView::Str(w.density@)),
        ("description"@, opt_str_view(opt_view(w.description))),
        ("disabled"@, JsonView::Bool(w.disabled)),
        ("invalid"@, opt_str_view(opt_view(w.invalid))),
        ("label"@, opt_str_view(opt_view(w.label))),
        ("onChange"@, opt_str_view(opt_view(w.on_change))),
        ("value"@, JsonView::Bool(value)),
        ("variant"@, JsonView::Str(variant_name(w.variant))),
    ]
}

/// The JSON of a boolean input whose signal holds `value`.
pub open spec fn bool_input_json(w: BoolInput, value: bool) -> JsonView {
    JsonView::Object(
        seq![
            ("children"@, JsonView::Array(Seq::empty())),
            ("events"@, JsonView::Array(seq![JsonView::Str("OnChange"@)])),
            ("id"@, JsonView::Str(w.signal.spec_id())),
            ("props"@, JsonView::Object(bool_input_props(w, value))),
            ("type"@, JsonView::Str("Ivy.BoolInput"@)),
        ],
    )
}

impl BoolInput {
    /// A medium, enabled checkbox with no label.
    pub fn new(signal: Signal<bool>) -> (r: Self)
        ensures
            r.signal == signal,
            r.variant == BoolInputVariant::Checkbox,
            r.label is None,
            r.description is None,
            !r.disabled,
            r.density@ == "Medium"@,
            r.on_change is None,
            r.invalid is None,
    {
        BoolInput {
            signal,
            variant: BoolInputVariant::Checkbox,
            label: None,
            description: None,
            disabled: false,
            density: "Medium".to_string(),
            on_change: None,
            invalid: None,
        }
    }

    pub fn variant(self, variant: BoolInputVariant) -> (r: Self)
        ensures
            r == (BoolInput { variant: variant, ..self }),
    {
        BoolInput { variant: variant, ..self }
    }

    pub fn label(self, label: String) -> (r: Self)
        ensures
            r == (BoolInput { label: Some(label), ..self }),
    {
        BoolInput { label: Some(label), ..self }
    }

    pub fn description(self, description: String) -> (r: Self)
        ensures
            r == (BoolInput { description: Some(description), ..self }),
    {
        BoolInput { description: Some(description), ..self }
    }

    pub fn disabled(self) -> (r: Self)
        ensures
            r == (BoolInput { disabled: true, ..self }),
    {
        BoolInput { disabled: true, ..self }
    }

    pub fn density(self, density: String) -> (r: Self)
        ensures
            r == (BoolInput { density: density, ..self }),
    {
        BoolInput { density: density, ..self }
    }

    pub fn small(self) -> (r: Self)
        ensures
            r.density@ == "Small"@,
            r == (BoolInput { density: r.density, ..self }),
    {
        BoolInput { density: "Small".to_string(), ..self }
    }

    pub fn large(self) -> (r: Self)
        ensures
            r.density@ == "Large"@,
            r == (BoolInput { density: r.density, ..self }),
    {
        BoolInput { density: "Large".to_string(), ..self }
    }

    pub fn on_change(self, id: String) -> (r: Self)
        ensures
            r == (BoolInput { on_change: Some(id), ..self }),
    {
        BoolInput { on_change: Some(id), ..self }
    }

    pub fn invalid(self, invalid: String) -> (r: Self)
        ensures
            r == (BoolInput { invalid: Some(invalid), ..self }),
    {
        BoolInput { invalid: Some(invalid), ..self }
    }

    /// The widget's JSON when its signal holds `value`.
    pub fn to_json_with_value(&self, value: bool) -> (r: Json)
        ensures
            r@ == bool_input_json(*self, value),
    {
        let props = object(
            vec![
                entry("density", Json::Str(self.density.clone())),
                entry("description", Json::opt_string(&self.description)),
                entry("disabled", Json::Bool(self.disabled)),
                entry("invalid", Json::opt_string(&self.invalid)),
                entry("label", Json::opt_string(&self.label)),
                entry("onChange", Json::opt_string(&self.on_change)),
                entry("value", Json::Bool(value)),
                entry("variant", Json::string(self.variant.name())),
            ],
        );
        assert(props@->Object_0 =~= bool_input_props(*self, value));
        let events = array(vec![Json::string("OnChange")]);
        assert(events@->Array_0 =~= seq![JsonView::Str("OnChange"@)]);
        let r = object(
            vec![
                entry("children", array(Vec::new())),
                entry("events", events),
                entry("id", Json::string(self.signal.id())),
                entry("props", props),
                entry("type", Json::string("Ivy.BoolInput")),
            ],
        );
        assert(r@->Object_0 =~= bool_input_json(*self, value)->Object_0);
        r
    }
}

/// Each builder of a boolean input changes one property of its JSON, its own, to the
/// value it was given, and leaves every other property (and everything outside the
/// properties) as it was: a description is shown as the description, an invalid message
/// as the invalid message.
pub proof fn law_bool_input_builders_touch_one_prop(
    w: BoolInput,
    value: bool,
    s: String,
    v: BoolInputVariant,
)
    ensures
        bool_input_props(BoolInput { density: s, ..w }, value) == with_prop(
            bool_input_props(w, value), 0, "density"@, JsonView::Str(s@)),
        bool_input_props(BoolInput { description: Some(s), ..w }, value) == with_prop(
            bool_input_props(w, value), 1, "description"@, JsonView::Str(s@)),
        bool_input_props(BoolInput { disabled: true, ..w }, value) == with_prop(
            bool_input_props(w, value), 2, "disabled"@, JsonView::Bool(true)),
        bool_input_props(BoolInput { invalid: Some(s), ..w }, value) == with_prop(
            bool_input_props(w, value), 3, "invalid"@, JsonView::Str(s@)),
        bool_input_props(BoolInput { label: Some(s), ..w }, value) == with_prop(
            bool_input_props(w, value), 4, "label"@, JsonView::Str(s@)),
        bool_input_props(BoolInput { on_change: Some(s), ..w }, value) == with_prop(
            bool_input_props(w, value), 5, "onChange"@, JsonView::Str(s@)),
        bool_input_props(BoolInput { variant: v, ..w }, value) == with_prop(
            bool_input_props(w, value), 7, "variant"@, JsonView::Str(variant_name(v))),
        bool_input_props(w, value)[6] == ("value"@, JsonView::Bool(value)),
        forall|u: BoolInput|
            u.signal == w.signal ==> (#[trigger] bool_input_json(u, value))->Object_0.remove(3)
                == bool_input_json(w, value)->Object_0.remove(3),
{
    let p = bool_input_props(w, value);
    assert(bool_input_props(BoolInput { density: s, ..w }, value) =~= with_prop(p, 0, "density"@, JsonView::Str(s@)));
    assert(bool_input_props(BoolInput { description: Some(s), ..w }, value) =~= with_prop(p, 1, "description"@, JsonView::Str(s@)));
    assert(bool_input_props(BoolInput { disabled: true, ..w }, value) =~= with_prop(p, 2, "disabled"@, JsonView::Bool(true)));
    assert(bool_input_props(BoolInput { invalid: Some(s), ..w }, value) =~= with_prop(p, 3, "invalid"@, JsonView::Str(s@)));
    assert(bool_input_props(BoolInput { label: Some(s), ..w }, value) =~= with_prop(p, 4, "label"@, JsonView::Str(s@)));
    assert(bool_input_props(BoolInput { on_change: Some(s), ..w }, value) =~= with_prop(p, 5, "onChange"@, JsonView::Str(s@)));
    assert(bool_input_props(BoolInput { variant: v, ..w }, value) =~= with_prop(p, 7, "variant"@, JsonView::Str(variant_name(v))));
    assert forall|u: BoolInput|
        u.signal == w.signal implies (#[trigger] bool_input_json(u, value))->Object_0.remove(3)
            == bool_input_json(w, value)->Object_0.remove(3) by {
        assert(bool_input_json(u, value)->Object_0.remove(3) =~= bool_input_json(w, value)->Object_0.remove(3));
    }
}

impl Widget for BoolInput {
    /// The boolean input's JSON with some value of its signal.
    open spec fn writes_json(&self, j: JsonView) -> bool {
        exists|value: bool| j == bool_input_json(*self, value)
    }

    /// The widget's JSON with the value its signal holds now.
    fn serialize(&self) -> (r: Json)
        ensures
            exists|value: bool| r@ == bool_input_json(*self, value),
    {
        let value = self.signal.get();
        self.to_json_with_value(value)
    }
}

} // verus!
