use vstd::prelude::*;

use crate::json::{
    array, entries_numbers_free_of_controls, entries_view, entry, free_of_controls,
    items_numbers_free_of_controls, json_text, law_json_text_free_of_controls, lemma_entries_view,
    numbers_free_of_controls, object, Json, JsonView,
};
use crate::text::{chars_of, contains, occurs_in, push_char, str_eq, string_of};
use crate::widgets::text::{is_uuid_v4_text, new_widget_id};

verus! {

/// The character that ends every message of the client protocol.
pub open spec fn record_separator() -> char {
    '\u{1e}'
}

/// `s` without the record separators at its end (`str::trim_end_matches`).
pub open spec fn strip_separators(s: Seq<char>) -> Seq<char>
    decreases s.len(),
{
    if s.len() > 0 && s.last() == record_separator() {
        strip_separators(s.drop_last())
    } else {
        s
    }
}

/// Removing the trailing separators twice removes no more than once.
pub proof fn law_strip_separators_idempotent(s: Seq<char>)
    ensures
        strip_separators(strip_separators(s)) == strip_separators(s),
        strip_separators(s).len() == 0 || strip_separators(s).last() != record_separator(),
    decreases s.len(),
{
    if s.len() > 0 && s.last() == record_separator() {
        law_strip_separators_idempotent(s.drop_last());
    }
}

/// The value of the first entry under `key`, or `null`.
pub open spec fn lookup(entries: Seq<(Seq<char>, JsonView)>, key: Seq<char>) -> JsonView
    decreases entries.len(),
{
    if entries.len() == 0 {
        JsonView::Null
    } else if entries[0].0 == key {
        entries[0].1
    } else {
        lookup(entries.drop_first(), key)
    }
}

/// `value[key]`: the value under `key` of an object, `null` for anything else.
pub open spec fn json_get(value: JsonView, key: Seq<char>) -> JsonView {
    match value {
        JsonView::Object(entries) => lookup(entries, key),
        _ => JsonView::Null,
    }
}

/// `value.as_str().unwrap_or("")`.
pub open spec fn str_or_empty(value: JsonView) -> Seq<char> {
    match value {
        JsonView::Str(s) => s,
        _ => Seq::empty(),
    }
}

/// What the server does with a message from the client.
#[derive(Debug)]
pub enum ClientAction {
    /// Answer a ping.
    Pong,
    /// Set the state named `id` to `value`, then send the client a fresh widget tree.
    ChangeValue { id: String, value: String },
    /// Nothing.
    Ignore,
}

/// The content of a `ClientAction`.
pub enum ClientActionView {
    Pong,
    ChangeValue(Seq<char>, Seq<char>),
    Ignore,
}

/// The content of an action.
pub open spec fn action_view(a: ClientAction) -> ClientActionView {
    match a {
        ClientAction::Pong => ClientActionView::Pong,
        ClientAction::ChangeValue { id, value } => ClientActionView::ChangeValue(id@, value@),
        ClientAction::Ignore => ClientActionView::Ignore,
    }
}

/// The arguments of an `Event` invocation: `None` when the message is not one.
pub open spec fn event_arguments(msg: JsonView) -> Option<Seq<JsonView>> {
    if json_get(msg, "type"@) == JsonView::Number("1"@) && str_or_empty(json_get(msg, "target"@))
        == "Event"@ {
        match json_get(msg, "arguments"@) {
            JsonView::Array(args) => if args.len() >= 3 {
                Some(args)
            } else {
                None
            },
            _ => None,
        }
    } else {
        None
    }
}

/// The message is an `OnChange` event that carries no value: the server cannot read
/// the first event argument and fails.
pub open spec fn change_without_value(msg: JsonView) -> bool {
    json_get(msg, "type"@) != JsonView::Number("6"@) && match event_arguments(msg) {
        Some(args) => str_or_empty(args[0]) == "OnChange"@ && match args[2] {
            JsonView::Array(ev) => ev.len() == 0,
            _ => false,
        },
        None => false,
    }
}

/// What the server does with a parsed message: a message of type 6 is a ping; an
/// invocation (type 1) of target `Event` with at least three arguments, the first
/// `"OnChange"` and the third an array, sets the state named by the second argument
/// to the first element of the third; everything else is ignored.
pub open spec fn decide_spec(msg: JsonView) -> ClientActionView {
    if json_get(msg, "type"@) == JsonView::Number("6"@) {
        ClientActionView::Pong
    } else {
        match event_arguments(msg) {
            Some(args) => match args[2] {
                JsonView::Array(ev) => if str_or_empty(args[0]) == "OnChange"@ {
                    ClientActionView::ChangeValue(str_or_empty(args[1]), str_or_empty(ev[0]))
                } else {
                    ClientActionView::Ignore
                },
                _ => ClientActionView::Ignore,
            },
            None => ClientActionView::Ignore,
        }
    }
}

/// The reply to the client's first message: the empty handshake answer when the message
/// names a protocol, nothing otherwise.
pub fn handshake_reply(first: &str) -> (r: Option<String>)
    ensures
        occurs_in(first@, "protocol"@) ==> (r matches Some(s) && s@ == "{}\u{1e}"@),
        !occurs_in(first@, "protocol"@) ==> r is None,
{
    if contains(first, "protocol") {
        Some("{}\u{1e}".to_string())
    } else {
        None
    }
}

/// A message without the record separators at its end.
pub fn strip_record_separators(text: &str) -> (r: String)
    ensures
        r@ == strip_separators(text@),
{
    let a = chars_of(text);
    let mut n: usize = a.len();
    assert(a@.take(a@.len() as int) =~= a@);
    while n > 0 && a[n - 1] == '\u{1e}'
        invariant
            n <= a@.len(),
            a@ == text@,
            strip_separators(text@) == strip_separators(a@.take(n as int)),
        decreases n,
    {
        assert(a@.take(n as int).drop_last() =~= a@.take(n - 1));
        n -= 1;
    }
    assert(strip_separators(a@.take(n as int)) == a@.take(n as int));
    let mut kept: Vec<char> = Vec::new();
    for i in 0..n
        invariant
            n <= a@.len(),
            kept@ == a@.take(i as int),
    {
        kept.push(a[i]);
        assert(a@.take(i + 1) =~= a@.take(i as int).push(a@[i as int]));
    }
    string_of(&kept)
}

/// `value[key]`, or `None` where that is `null` because `value` is not an object or
/// has no such key.
pub fn get_field<'a>(value: &'a Json, key: &str) -> (r: Option<&'a Json>)
    ensures
        json_get(value@, key@) == match r {
            Some(v) => v@,
            None => JsonView::Null,
        },
{
    match value {
        Json::Object(entries) => {
            let ghost es = entries_view(entries@);
            proof {
                lemma_entries_view(entries@);
            }
            assert(es.skip(0) =~= es);
            let mut i: usize = 0;
            while i < entries.len()
                invariant
                    0 <= i <= entries@.len(),
                    value@ == JsonView::Object(es),
                    es == entries_view(entries@),
                    es.len() == entries@.len(),
                    forall|k: int|
                        0 <= k < entries@.len() ==> #[trigger] es[k] == (
                            entries@[k].0@,
                            entries@[k].1@,
                        ),
                    lookup(es, key@) == lookup(es.skip(i as int), key@),
                decreases entries.len() - i,
            {
                assert(es.skip(i as int).drop_first() =~= es.skip(i + 1));
                assert(es.skip(i as int)[0] == es[i as int]);
                if str_eq(entries[i].0.as_str(), key) {
                    return Some(&entries[i].1);
                }
                i += 1;
            }
            assert(es.skip(i as int) =~= Seq::<(Seq<char>, JsonView)>::empty());
            None
        },
        _ => None,
    }
}

/// `value.as_str().unwrap_or("")`.
fn str_or_empty_of(value: Option<&Json>) -> (r: String)
    ensures
        r@ == str_or_empty(match value {
            Some(v) => v@,
            None => JsonView::Null,
        }),
{
    match value {
        Some(Json::Str(s)) => s.clone(),
        _ => String::new(),
    }
}

/// Whether a field holds the JSON number written `digits`.
fn is_number(value: Option<&Json>, digits: &str) -> (r: bool)
    ensures
        r == (match value {
            Some(v) => v@,
            None => JsonView::Null,
        } == JsonView::Number(digits@)),
{
    match value {
        Some(Json::Number(t)) => str_eq(t.as_str(), digits),
        _ => false,
    }
}

/// Whether `decide` could not read the value of an `OnChange` event in `msg`.
pub fn is_change_without_value(msg: &Json) -> (r: bool)
    ensures
        r == change_without_value(msg@),
{
    if is_number(get_field(msg, "type"), "6") {
        return false;
    }
    match event_arguments_of(msg) {
        Some(args) => {
            proof {
                crate::json::lemma_items_view(args@);
            }
            let name = str_or_empty_of(Some(&args[0]));
            match &args[2] {
                Json::Array(ev) => {
                    proof {
                        crate::json::lemma_items_view(ev@);
                    }
                    str_eq(name.as_str(), "OnChange") && ev.len() == 0
                },
                _ => false,
            }
        },
        None => false,
    }
}

/// The arguments of an `Event` invocation (see `event_arguments`).
fn event_arguments_of(msg: &Json) -> (r: Option<&Vec<Json>>)
    ensures
        match r {
            Some(args) => event_arguments(msg@) == Some(crate::json::items_view(args@)) && args@.len()
                >= 3,
            None => event_arguments(msg@) is None,
        },
{
    if !is_number(get_field(msg, "type"), "1") {
        return None;
    }
    let target = str_or_empty_of(get_field(msg, "target"));
    if !str_eq(target.as_str(), "Event") {
        return None;
    }
    match get_field(msg, "arguments") {
        Some(Json::Array(args)) => {
            proof {
                crate::json::lemma_items_view(args@);
            }
            if args.len() >= 3 {
                Some(args)
            } else {
                None
            }
        },
        _ => None,
    }
}

/// Decides what to do with a parsed client message (see `decide_spec`).
pub fn decide(msg: &Json) -> (r: ClientAction)
    requires
        !change_without_value(msg@),
    ensures
        action_view(r) == decide_spec(msg@),
{
    if is_number(get_field(msg, "type"), "6") {
        return ClientAction::Pong;
    }
    match event_arguments_of(msg) {
        Some(args) => {
            proof {
                crate::json::lemma_items_view(args@);
            }
            match &args[2] {
                Json::Array(ev) => {
                    let name = str_or_empty_of(Some(&args[0]));
                    if str_eq(name.as_str(), "OnChange") {
                        proof {
                            crate::json::lemma_items_view(ev@);
                        }
                        let id = str_or_empty_of(Some(&args[1]));
                        let value = str_or_empty_of(Some(&ev[0]));
                        ClientAction::ChangeValue { id, value }
                    } else {
                        ClientAction::Ignore
                    }
                },
                _ => ClientAction::Ignore,
            }
        },
        None => ClientAction::Ignore,
    }
}

#[verifier::external_type_specification]
#[verifier::external_body]
pub struct ExJsonValue(serde_json::Value);

/// What `serde_json::from_str::<serde_json::Value>` gives for `text`, in the library's
/// form: `None` when `text` is not JSON; a number as the text `serde_json` writes for it;
/// an object's entries in the order in which `serde_json` keeps them (sorted by key, a
/// repeated key holding its last value).
pub uninterp spec fn json_parse(text: Seq<char>) -> Option<JsonView>;

/// The library's value for a `serde_json` value, converted member by member.
#[verifier::external_body]
fn json_of_value(v: &serde_json::Value) -> Json {
    match v {
        serde_json::Value::Null => Json::Null,
        serde_json::Value::Bool(b) => Json::Bool(*b),
        serde_json::Value::Number(n) => Json::Number(n.to_string()),
        serde_json::Value::String(s) => Json::Str(s.clone()),
        serde_json::Value::Array(items) => Json::Array(items.iter().map(json_of_value).collect()),
        serde_json::Value::Object(m) => Json::Object(
            m.iter().map(|(k, x)| (k.clone(), json_of_value(x))).collect(),
        ),
    }
}

/// `serde_json::from_str::<serde_json::Value>`: the JSON value that `text` holds, or
/// `None` when it holds none.
#[verifier::external_body]
pub(crate) fn parse_json(text: &str) -> (r: Option<Json>)
    ensures
        match r {
            Some(j) => json_parse(text@) == Some(j@),
            None => json_parse(text@) is None,
        },
{
    match serde_json::from_str::<serde_json::Value>(text) {
        Ok(v) => Some(json_of_value(&v)),
        Err(_) => None,
    }
}

/// What the server does with one text frame from the client.
#[derive(Debug)]
pub enum FrameAction {
    /// The frame holds no JSON: nothing is done.
    Skip,
    /// The frame is an `OnChange` event without a value: the server cannot go on.
    Fail,
    /// The frame holds a message, and this is what is done with it.
    Act(ClientAction),
}

/// Handles one text frame: the record separators at its end are removed, the rest is
/// parsed as JSON, and the message decides what is done (see `decide_spec`).
pub fn handle_frame(text: &str) -> (r: FrameAction)
    ensures
        match json_parse(strip_separators(text@)) {
            None => r is Skip,
            Some(m) => if change_without_value(m) {
                r is Fail
            } else {
                r matches FrameAction::Act(a) && action_view(a) == decide_spec(m)
            },
        },
{
    let clean = strip_record_separators(text);
    match parse_json(clean.as_str()) {
        None => FrameAction::Skip,
        Some(msg) => if is_change_without_value(&msg) {
            FrameAction::Fail
        } else {
            FrameAction::Act(decide(&msg))
        },
    }
}

/// The answer to a ping.
pub fn pong_message() -> (r: String)
    ensures
        r@ == "{\"type\":6}\u{1e}"@,
{
    "{\"type\":6}\u{1e}".to_string()
}

/// The invocation that sends the client a widget tree whose JSON is `widgets`.
pub open spec fn refresh_json(widgets: JsonView) -> JsonView {
    JsonView::Object(
        seq![
            ("arguments"@, JsonView::Array(seq![JsonView::Object(seq![("widgets"@, widgets)])])),
            ("target"@, JsonView::Str("Refresh"@)),
            ("type"@, JsonView::Number("1"@)),
        ],
    )
}

/// The message that sends the client the widget tree `widgets`: the refresh invocation's
/// JSON text, then the record separator.
pub fn refresh_message(widgets: Json) -> (r: String)
    ensures
        r@ == json_text(refresh_json(widgets@)) + seq![record_separator()],
{
    let ghost w = widgets@;
    let holder = object(vec![entry("widgets", widgets)]);
    assert(holder@->Object_0 =~= seq![("widgets"@, w)]);
    let args = array(vec![holder]);
    assert(args@->Array_0 =~= seq![JsonView::Object(seq![("widgets"@, w)])]);
    let msg = object(
        vec![
            entry("arguments", args),
            entry("target", Json::string("Refresh")),
            entry("type", Json::Number("1".to_string())),
        ],
    );
    assert(msg@->Object_0 =~= refresh_json(w)->Object_0);
    let mut text = msg.to_json_string();
    push_char(&mut text, '\u{1e}');
    text
}

/// Framing of a refresh: the message is the JSON text of the refresh followed by one
/// record separator, and removing the trailing separators gives back exactly that JSON
/// text, because written-out JSON holds no control character.
pub proof fn law_refresh_framing(widgets: JsonView)
    requires
        numbers_free_of_controls(widgets),
    ensures
        strip_separators(json_text(refresh_json(widgets)) + seq![record_separator()]) == json_text(
            refresh_json(widgets),
        ),
{
    let r = refresh_json(widgets);
    let empty_entries = Seq::<(Seq<char>, JsonView)>::empty();
    let empty_items = Seq::<JsonView>::empty();
    assert(entries_numbers_free_of_controls(empty_entries));
    assert(items_numbers_free_of_controls(empty_items));
    let es = seq![("widgets"@, widgets)];
    assert(es.drop_first() =~= empty_entries);
    assert(entries_numbers_free_of_controls(es));
    let holder = JsonView::Object(es);
    let items = seq![holder];
    assert(items.drop_first() =~= empty_items);
    assert(numbers_free_of_controls(holder));
    assert(items_numbers_free_of_controls(items));
    let top = r->Object_0;
    reveal_strlit("1");
    assert(free_of_controls("1"@));
    let t2 = top.drop_first().drop_first();
    assert(t2.drop_first() =~= empty_entries);
    assert(t2[0].1 == JsonView::Number("1"@));
    assert(numbers_free_of_controls(t2[0].1));
    assert(entries_numbers_free_of_controls(t2.drop_first()));
    assert(entries_numbers_free_of_controls(t2));
    let t1 = top.drop_first();
    assert(t1.drop_first() =~= t2);
    assert(t1[0].1 == JsonView::Str("Refresh"@));
    assert(numbers_free_of_controls(t1[0].1));
    assert(entries_numbers_free_of_controls(t1));
    assert(top.drop_first() =~= t1);
    assert(top[0].1 == JsonView::Array(items));
    assert(numbers_free_of_controls(top[0].1));
    assert(entries_numbers_free_of_controls(top));
    law_json_text_free_of_controls(r);
    let t = json_text(r);
    let framed = t + seq![record_separator()];
    assert(framed.drop_last() =~= t);
    assert(t.len() > 0);
    assert((t.last() as u32) >= 32);
    assert((record_separator() as u32) == 30);
    assert(framed.last() == record_separator());
    assert(strip_separators(framed) == strip_separators(t));
    assert(strip_separators(t) == t);
}

/// The answer to a connection negotiation for connection `id`: the fields in the order
/// in which they are written out.
pub open spec fn negotiate_json(id: Seq<char>) -> JsonView {
    JsonView::Object(
        seq![
            ("connectionId"@, JsonView::Str(id)),
            ("connectionToken"@, JsonView::Str(id)),
            ("negotiateVersion"@, JsonView::Number("1"@)),
            (
                "availableTransports"@,
                JsonView::Array(
                    seq![
                        JsonView::Object(
                            seq![
                                ("transport"@, JsonView::Str("WebSockets"@)),
                                ("transferFormats"@, JsonView::Array(seq![JsonView::Str("Text"@)])),
                            ],
                        ),
                    ],
                ),
            ),
        ],
    )
}

/// The answer to a connection negotiation for connection `id`.
pub fn negotiate_response(id: &str) -> (r: Json)
    ensures
        r@ == negotiate_json(id@),
{
    let formats = array(vec![Json::string("Text")]);
    assert(formats@->Array_0 =~= seq![JsonView::Str("Text"@)]);
    let transport = object(
        vec![entry("transport", Json::string("WebSockets")), entry("transferFormats", formats)],
    );
    assert(transport@->Object_0 =~= seq![
        ("transport"@, JsonView::Str("WebSockets"@)),
        ("transferFormats"@, JsonView::Array(seq![JsonView::Str("Text"@)])),
    ]);
    let transports = array(vec![transport]);
    assert(transports@->Array_0 =~= negotiate_json(id@)->Object_0[3].1->Array_0);
    let r = object(
        vec![
            entry("connectionId", Json::string(id)),
            entry("connectionToken", Json::string(id)),
            entry("negotiateVersion", Json::Number("1".to_string())),
            entry("availableTransports", transports),
        ],
    );
    assert(r@->Object_0 =~= negotiate_json(id@)->Object_0);
    r
}

/// Negotiates a new connection under a fresh random identifier.
pub fn negotiate() -> (r: Json)
    ensures
        exists|id: Seq<char>| is_uuid_v4_text(id) && r@ == negotiate_json(id),
{
    let id = new_widget_id();
    negotiate_response(id.as_str())
}

} // verus!
