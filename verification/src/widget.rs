use vstd::prelude::*;

use crate::json::{entry, object, opt_str_view, opt_view, Json, JsonView};

verus! {

/// Something the client can draw: it writes itself out as JSON.
pub trait Widget: Send + Sync {
    /// `j` is the JSON this widget writes out. A widget that states nothing of its JSON
    /// may write out any.
    open spec fn writes_json(&self, j: JsonView) -> bool {
        true
    }

    /// The widget's JSON.
    fn serialize(&self) -> (r: Json)
        ensures
            self.writes_json(r@),
    ;
}

/// A piece of text with an optional style (`"H2"`, `"Block"`, `"Markdown"`, ...).
#[derive(Debug)]
pub struct Text {
    pub content: String,
    pub style: Option<String>,
}

/// A horizontal rule.
#[derive(Debug)]
pub struct Separator;

/// The logo.
#[derive(Debug)]
pub struct Logo;

/// A widget that celebrates its child.
pub struct Confetti {
    pub child: Box<dyn Widget>,
}

/// The JSON of a text widget.
pub open spec fn text_json(content: Seq<char>, style: Option<Seq<char>>) -> JsonView {
    JsonView::Object(
        seq![
            ("content"@, JsonView::Str(content)),
            ("style"@, opt_str_view(style)),
            ("type"@, JsonView::Str("Text"@)),
        ],
    )
}

/// The JSON of a widget known only by its type.
pub open spec fn type_json(ty: Seq<char>) -> JsonView {
    JsonView::Object(seq![("type"@, JsonView::Str(ty))])
}

/// The JSON of a confetti widget whose child's JSON is `child`.
pub open spec fn confetti_json(child: JsonView) -> JsonView {
    JsonView::Object(seq![("child"@, child), ("type"@, JsonView::Str("Confetti"@))])
}

/// The JSON of a widget known only by its type.
fn type_object(ty: &str) -> (r: Json)
    ensures
        r@ == type_json(ty@),
{
    let r = object(vec![entry("type", Json::string(ty))]);
    assert(r@->Object_0 =~= seq![("type"@, JsonView::Str(ty@))]);
    r
}

impl Widget for Text {
    open spec fn writes_json(&self, j: JsonView) -> bool {
        j == text_json(self.content@, opt_view(self.style))
    }

    fn serialize(&self) -> (r: Json) {
        let r = object(
            vec![
                entry("content", Json::Str(self.content.clone())),
                entry("style", Json::opt_string(&self.style)),
                entry("type", Json::string("Text")),
            ],
        );
        assert(r@->Object_0 =~= text_json(self.content@, opt_view(self.style))->Object_0);
        r
    }
}

impl Widget for Separator {
    open spec fn writes_json(&self, j: JsonView) -> bool {
        j == type_json("Separator"@)
    }

    fn serialize(&self) -> (r: Json) {
        type_object("Separator")
    }
}

impl Widget for Logo {
    open spec fn writes_json(&self, j: JsonView) -> bool {
        j == type_json("Logo"@)
    }

    fn serialize(&self) -> (r: Json) {
        type_object("Logo")
    }
}

impl Confetti {
    /// The JSON of a confetti widget when its child's JSON is `child`.
    pub fn with_child(child: Json) -> (r: Json)
        ensures
            r@ == confetti_json(child@),
    {
        let r = object(vec![entry("child", child), entry("type", Json::string("Confetti"))]);
        assert(r@->Object_0 =~= seq![("child"@, r@->Object_0[0].1), ("type"@, JsonView::Str("Confetti"@))]);
        r
    }
}

impl Widget for Confetti {
    /// The child's JSON, wrapped.
    open spec fn writes_json(&self, j: JsonView) -> bool {
        exists|child: JsonView| self.child.writes_json(child) && j == confetti_json(child)
    }

    /// The child's JSON, wrapped.
    fn serialize(&self) -> (r: Json) {
        let child = self.child.serialize();
        Confetti::with_child(child)
    }
}

} // verus!
