use vstd::prelude::*;

use crate::json::{entry, object, Json, JsonView};
use super::Widget;

verus! {

/// A horizontal rule.
#[derive(Debug)]
pub struct Separator;

/// The Ivy logo.
#[derive(Debug)]
pub struct Logo;

/// A widget that celebrates its child.
pub struct Confetti {
    pub item: Box<dyn Widget>,
}

/// The JSON of a widget known only by its type.
pub open spec fn tag_json(ty: Seq<char>) -> JsonView {
    JsonView::Object(seq![("type"@, JsonView::Str(ty))])
}

/// The JSON of a confetti widget around a child whose JSON is `child`.
pub open spec fn confetti_json(child: JsonView) -> JsonView {
    JsonView::Object(seq![("child"@, child), ("type"@, JsonView::Str("confetti"@))])
}

/// The JSON of a widget known only by its type.
pub fn tag_object(ty: &str) -> (r: Json)
    ensures
        r@ == tag_json(ty@),
{
    let r = object(vec![entry("type", Json::string(ty))]);
    assert(r@->Object_0 =~= seq![("type"@, JsonView::Str(ty@))]);
    r
}

impl Widget for Separator {
    open spec fn writes_json(&self, j: JsonView) -> bool {
        j == tag_json("separator"@)
    }

    fn serialize(&self) -> (r: Json)
        ensures
            r@ == tag_json("separator"@),
    {
        tag_object("separator")
    }
}

impl Widget for Logo {
    open spec fn writes_json(&self, j: JsonView) -> bool {
        j == tag_json("logo"@)
    }

    fn serialize(&self) -> (r: Json)
        ensures
            r@ == tag_json("logo"@),
    {
        tag_object("logo")
    }
}

impl Confetti {
    /// Confetti around `item`.
    pub fn new(item: Box<dyn Widget>) -> (r: Self)
        ensures
            r == (Confetti { item: item }),
    {
        Confetti { item }
    }

    /// The JSON of this widget when its child's JSON is `child`.
    pub fn with_child(child: Json) -> (r: Json)
        ensures
            r@ == confetti_json(child@),
    {
        let r = object(vec![entry("child", child), entry("type", Json::string("confetti"))]);
        assert(r@->Object_0 =~= seq![("child"@, r@->Object_0[0].1), ("type"@, JsonView::Str("confetti"@))]);
        r
    }
}

impl Widget for Confetti {
    /// The JSON of the child, wrapped.
    open spec fn writes_json(&self, j: JsonView) -> bool {
        exists|child: JsonView| self.item.writes_json(child) && j == confetti_json(child)
    }

    /// The JSON of the child, wrapped.
    fn serialize(&self) -> (r: Json)
        ensures
            exists|child: JsonView| self.item.writes_json(child) && r@ == confetti_json(child),
    {
        let child = self.item.serialize();
        Confetti::with_child(child)
    }
}

} // verus!
