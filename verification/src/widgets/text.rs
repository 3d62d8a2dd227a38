use vstd::prelude::*;

use crate::json::{array, entry, object, Json, JsonView};
use crate::text::str_eq;
use super::Widget;

verus! {

/// A piece of text in one of the Ivy text variants (`"H1"`, `"Markdown"`, ...).
#[derive(Debug)]
pub struct Text {
    pub content: String,
    pub kind: String,
}

/// A lower-case hexadecimal digit.
pub open spec fn is_lower_hex(c: char) -> bool {
    ('0' <= c && c <= '9') || ('a' <= c && c <= 'f')
}

/// `s` is a version-4 UUID written out hyphenated in lower case: 36 characters, hyphens
/// at positions 8, 13, 18 and 23, lower-case hexadecimal digits elsewhere, the version
/// digit `4` at position 14 and a variant digit `8`, `9`, `a` or `b` at position 19.
pub open spec fn is_uuid_v4_text(s: Seq<char>) -> bool {
    &&& s.len() == 36
    &&& forall|i: int|
        0 <= i < 36 ==> if i == 8 || i == 13 || i == 18 || i == 23 {
            #[trigger] s[i] == '-'
        } else {
            is_lower_hex(s[i])
        }
    &&& s[14] == '4'
    &&& (s[19] == '8' || s[19] == '9' || s[19] == 'a' || s[19] == 'b')
}

/// A fresh widget identifier: `uuid::Uuid::new_v4().to_string()`. `new_v4` masks random
/// bits so that the version is 4 and the variant is the RFC one, and `to_string` writes
/// the hyphenated lower-case form. Which identifier comes out is left to chance.
#[verifier::external_body]
pub(crate) fn new_widget_id() -> (r: String)
    ensures
        is_uuid_v4_text(r@),
{
    uuid::Uuid::new_v4().to_string()
}

/// The entries of the JSON object for a text widget with identifier `id`.
pub open spec fn text_entries(content: Seq<char>, kind: Seq<char>, id: Seq<char>) -> Seq<
    (Seq<char>, JsonView),
> {
    let markdown = kind == "Markdown"@;
    let props = if markdown {
        JsonView::Object(seq![("content"@, JsonView::Str(content))])
    } else {
        JsonView::Object(seq![("content"@, JsonView::Str(content)), ("variant"@, JsonView::Str(kind))])
    };
    let ty = if markdown {
        "Ivy.Markdown"@
    } else {
        "Ivy.TextBlock"@
    };
    seq![
        ("children"@, JsonView::Array(Seq::empty())),
        ("events"@, JsonView::Array(Seq::empty())),
        ("id"@, JsonView::Str(id)),
        ("props"@, props),
        ("type"@, JsonView::Str(ty)),
    ]
}

/// The JSON object for a text widget with identifier `id`: a markdown block for the
/// `"Markdown"` kind, otherwise a text block of that variant.
pub open spec fn text_json(content: Seq<char>, kind: Seq<char>, id: Seq<char>) -> JsonView {
    JsonView::Object(text_entries(content, kind, id))
}

impl Text {
    /// A first-level heading.
    pub fn h1(content: String) -> (r: Self)
        ensures
            r.content == content,
            r.kind@ == "H1"@,
    {
        Text { content, kind: "H1".to_string() }
    }

    /// A second-level heading.
    pub fn h2(content: String) -> (r: Self)
        ensures
            r.content == content,
            r.kind@ == "H2"@,
    {
        Text { content, kind: "H2".to_string() }
    }

    /// A third-level heading.
    pub fn h3(content: String) -> (r: Self)
        ensures
            r.content == content,
            r.kind@ == "H3"@,
    {
        Text { content, kind: "H3".to_string() }
    }

    /// A paragraph.
    pub fn p(content: String) -> (r: Self)
        ensures
            r.content == content,
            r.kind@ == "P"@,
    {
        Text { content, kind: "P".to_string() }
    }

    /// Monospaced text.
    pub fn monospaced(content: String) -> (r: Self)
        ensures
            r.content == content,
            r.kind@ == "Monospaced"@,
    {
        Text { content, kind: "Monospaced".to_string() }
    }

    /// A block of text.
    pub fn block(content: String) -> (r: Self)
        ensures
            r.content == content,
            r.kind@ == "Block"@,
    {
        Text { content, kind: "Block".to_string() }
    }

    /// Markdown.
    pub fn markdown(content: String) -> (r: Self)
        ensures
            r.content == content,
            r.kind@ == "Markdown"@,
    {
        Text { content, kind: "Markdown".to_string() }
    }

    /// The widget's JSON when its identifier is `id`.
    pub fn to_json_with_id(&self, id: String) -> (r: Json)
        ensures
            r@ == text_json(self.content@, self.kind@, id@),
    {
        let markdown = str_eq(self.kind.as_str(), "Markdown");
        let props = if markdown {
            let p = object(vec![entry("content", Json::Str(self.content.clone()))]);
            assert(p@->Object_0 =~= seq![("content"@, JsonView::Str(self.content@))]);
            p
        } else {
            let p = object(
                vec![
                    entry("content", Json::Str(self.content.clone())),
                    entry("variant", Json::Str(self.kind.clone())),
                ],
            );
            assert(p@->Object_0 =~= seq![
                ("content"@, JsonView::Str(self.content@)),
                ("variant"@, JsonView::Str(self.kind@)),
            ]);
            p
        };
        let ty = if markdown {
            "Ivy.Markdown"
        } else {
            "Ivy.TextBlock"
        };
        let r = object(
            vec![
                entry("children", array(Vec::new())),
                entry("events", array(Vec::new())),
                entry("id", Json::Str(id)),
                entry("props", props),
                entry("type", Json::string(ty)),
            ],
        );
        assert(r@->Object_0 =~= text_entries(self.content@, self.kind@, id@));
        r
    }
}

impl Widget for Text {
    /// The text widget's JSON under some version-4 identifier.
    open spec fn writes_json(&self, j: JsonView) -> bool {
        exists|id: Seq<char>| is_uuid_v4_text(id) && j == text_json(self.content@, self.kind@, id)
    }

    /// The widget's JSON under a fresh identifier.
    fn serialize(&self) -> (r: Json)
        ensures
            exists|id: Seq<char>| is_uuid_v4_text(id) && r@ == text_json(self.content@, self.kind@, id),
    {
        let id = new_widget_id();
        self.to_json_with_id(id)
    }
}

} // verus!
