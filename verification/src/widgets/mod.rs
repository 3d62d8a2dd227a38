pub mod bool_input;
pub mod input;
pub mod misc;
pub mod text;

pub use input::TextInput;
pub use misc::{Confetti, Logo, Separator};
pub use text::Text;

use vstd::prelude::*;

use crate::json::{Json, JsonView};
use crate::text::has_prefix;
use bool_input::{bool_input_json, BoolInput};
use input::text_input_json;
use text::text_json;

verus! {

/// Something the Ivy client can draw: it writes itself out as JSON.
pub trait Widget: Send + Sync {
    /// `j` is JSON that this widget may write out: what its fields fix, with what is
    /// left to chance (an identifier) or to shared state (a signal's value) open. A
    /// widget that states nothing of its JSON may write out any.
    open spec fn writes_json(&self, j: JsonView) -> bool {
        true
    }

    /// The widget's JSON.
    fn serialize(&self) -> (r: Json)
        ensures
            self.writes_json(r@),
    ;
}

/// The keys of an Ivy widget object, in the order in which they are written out.
pub open spec fn ivy_widget_keys() -> Seq<Seq<char>> {
    seq!["children"@, "events"@, "id"@, "props"@, "type"@]
}

/// `j` is an Ivy widget object named `id`: exactly the keys `children` (an empty
/// array), `events` (an array), `id`, `props` (an object) and `type` (an `Ivy.` name).
pub open spec fn is_ivy_widget(j: JsonView, id: Seq<char>) -> bool {
    match j {
        JsonView::Object(es) => {
            &&& es.len() == 5
            &&& forall|i: int| 0 <= i < 5 ==> #[trigger] es[i].0 == ivy_widget_keys()[i]
            &&& es[0].1 == JsonView::Array(Seq::empty())
            &&& es[1].1 is Array
            &&& es[2].1 == JsonView::Str(id)
            &&& es[3].1 is Object
            &&& es[4].1 matches JsonView::Str(t) && has_prefix(t, "Ivy."@)
        },
        _ => false,
    }
}

/// Every Ivy widget (text, text field, boolean input) writes itself out in the shape
/// the client expects: the keys `children`, `events`, `id`, `props` and `type` in that
/// order, no children, an `Ivy.` type name, and as its `id` the identifier it was given
/// (for an input, the identifier of its signal).
pub proof fn law_ivy_widget_shape(
    content: Seq<char>,
    kind: Seq<char>,
    id: Seq<char>,
    field: TextInput,
    field_value: Seq<char>,
    toggle: BoolInput,
    toggle_value: bool,
)
    ensures
        is_ivy_widget(text_json(content, kind, id), id),
        is_ivy_widget(text_input_json(field, field_value), field.signal.spec_id()),
        is_ivy_widget(bool_input_json(toggle, toggle_value), toggle.signal.spec_id()),
{
    reveal_strlit("Ivy.");
    reveal_strlit("Ivy.Markdown");
    reveal_strlit("Ivy.TextBlock");
    reveal_strlit("Ivy.TextInput");
    reveal_strlit("Ivy.BoolInput");
    reveal_strlit("children");
    reveal_strlit("events");
    reveal_strlit("id");
    reveal_strlit("props");
    reveal_strlit("type");
    assert("Ivy.Markdown"@.subrange(0, 4) =~= "Ivy."@);
    assert("Ivy.TextBlock"@.subrange(0, 4) =~= "Ivy."@);
    assert("Ivy.TextInput"@.subrange(0, 4) =~= "Ivy."@);
    assert("Ivy.BoolInput"@.subrange(0, 4) =~= "Ivy."@);
    let t = text_json(content, kind, id)->Object_0;
    assert(forall|i: int| 0 <= i < 5 ==> #[trigger] t[i].0 == ivy_widget_keys()[i]);
    let f = text_input_json(field, field_value)->Object_0;
    assert(forall|i: int| 0 <= i < 5 ==> #[trigger] f[i].0 == ivy_widget_keys()[i]);
}

} // verus!
