use vstd::prelude::*;

use crate::text::{chars_of, push_char};

verus! {

/// A JSON value. A number is held as its JSON text, exactly as it is written out;
/// an object keeps its entries in the order in which they are written out.
#[derive(Debug)]
pub enum Json {
    Null,
    Bool(bool),
    Number(String),
    Str(String),
    Array(Vec<Json>),
    Object(Vec<(String, Json)>),
}

/// The mathematical content of a `Json` value: strings as character sequences.
pub enum JsonView {
    Null,
    Bool(bool),
    Number(Seq<char>),
    Str(Seq<char>),
    Array(Seq<JsonView>),
    Object(Seq<(Seq<char>, JsonView)>),
}

/// The content of a `Json` value.
pub open spec fn json_view(j: Json) -> JsonView
    decreases j,
{
    match j {
        Json::Null => JsonView::Null,
        Json::Bool(b) => JsonView::Bool(b),
        Json::Number(t) => JsonView::Number(t@),
        Json::Str(s) => JsonView::Str(s@),
        Json::Array(items) => JsonView::Array(items_view(items@)),
        Json::Object(entries) => JsonView::Object(entries_view(entries@)),
    }
}

/// The contents of a sequence of `Json` values.
pub open spec fn items_view(items: Seq<Json>) -> Seq<JsonView>
    decreases items,
{
    if items.len() == 0 {
        Seq::empty()
    } else {
        seq![json_view(items[0])] + items_view(items.drop_first())
    }
}

/// The contents of a sequence of object entries.
pub open spec fn entries_view(entries: Seq<(String, Json)>) -> Seq<(Seq<char>, JsonView)>
    decreases entries,
{
    if entries.len() == 0 {
        Seq::empty()
    } else {
        seq![(entries[0].0@, json_view(entries[0].1))] + entries_view(entries.drop_first())
    }
}

impl View for Json {
    type V = JsonView;

    open spec fn view(&self) -> JsonView {
        json_view(*self)
    }
}

/// The lower-case hexadecimal digit for `d < 16`.
pub open spec fn hex_digit(d: int) -> char {
    if d < 10 {
        ((48 + d) as u8) as char
    } else {
        ((87 + d) as u8) as char
    }
}

/// How one character is written inside a JSON string: `"` and `\` are escaped, the
/// control characters below U+0020 become `\b`, `\t`, `\n`, `\f`, `\r` or `\u00XX`,
/// every other character stands for itself.
pub open spec fn escape_char(c: char) -> Seq<char> {
    let u = c as u32;
    if c == '"' {
        seq!['\\', '"']
    } else if c == '\\' {
        seq!['\\', '\\']
    } else if u == 8 {
        seq!['\\', 'b']
    } else if u == 9 {
        seq!['\\', 't']
    } else if u == 10 {
        seq!['\\', 'n']
    } else if u == 12 {
        seq!['\\', 'f']
    } else if u == 13 {
        seq!['\\', 'r']
    } else if u < 32 {
        seq!['\\', 'u', '0', '0', hex_digit(u as int / 16), hex_digit(u as int % 16)]
    } else {
        seq![c]
    }
}

/// The escaped characters of `s`.
pub open spec fn escape_str(s: Seq<char>) -> Seq<char>
    decreases s.len(),
{
    if s.len() == 0 {
        Seq::empty()
    } else {
        escape_str(s.drop_last()) + escape_char(s.last())
    }
}

/// `s` as a JSON string literal.
pub open spec fn quoted(s: Seq<char>) -> Seq<char> {
    seq!['"'] + escape_str(s) + seq!['"']
}

/// The compact JSON text of a value, as `serde_json::to_string` writes it.
pub open spec fn json_text(j: JsonView) -> Seq<char>
    decreases j,
{
    match j {
        JsonView::Null => "null"@,
        JsonView::Bool(b) => if b {
            "true"@
        } else {
            "false"@
        },
        JsonView::Number(t) => t,
        JsonView::Str(s) => quoted(s),
        JsonView::Array(items) => seq!['['] + items_text(items) + seq![']'],
        JsonView::Object(entries) => seq!['{'] + entries_text(entries) + seq!['}'],
    }
}

/// The texts of `items`, separated by commas.
pub open spec fn items_text(items: Seq<JsonView>) -> Seq<char>
    decreases items,
{
    if items.len() == 0 {
        Seq::empty()
    } else if items.len() == 1 {
        json_text(items[0])
    } else {
        json_text(items[0]) + seq![','] + items_text(items.drop_first())
    }
}

/// The texts `"key":value` of `entries`, separated by commas.
pub open spec fn entries_text(entries: Seq<(Seq<char>, JsonView)>) -> Seq<char>
    decreases entries,
{
    if entries.len() == 0 {
        Seq::empty()
    } else {
        let here = quoted(entries[0].0) + seq![':'] + json_text(entries[0].1);
        if entries.len() == 1 {
            here
        } else {
            here + seq![','] + entries_text(entries.drop_first())
        }
    }
}

/// The decimal digits of `n`, most significant first, with no leading zero.
pub open spec fn decimal_digits(n: nat) -> Seq<char>
    decreases n,
{
    if n < 10 {
        seq![((48 + n) as u8) as char]
    } else {
        decimal_digits(n / 10).push(((48 + n % 10) as u8) as char)
    }
}

/// The number a string of decimal digits stands for, read in base 10.
pub open spec fn numeral_value(s: Seq<char>) -> int
    decreases s.len(),
{
    if s.len() == 0 {
        0
    } else {
        numeral_value(s.drop_last()) * 10 + ((s.last() as u32) - 48)
    }
}

/// The text of a whole number is its decimal numeral: decimal digits only, at least one,
/// reading back in base 10 as the number, with no leading zero unless the number is 0.
pub proof fn law_decimal_numeral(n: nat)
    ensures
        decimal_digits(n).len() > 0,
        forall|i: int|
            0 <= i < decimal_digits(n).len() ==> '0' <= #[trigger] decimal_digits(n)[i] && decimal_digits(n)[i] <= '9',
        numeral_value(decimal_digits(n)) == n,
        decimal_digits(n)[0] == '0' ==> n == 0,
        int_text(n as int) == decimal_digits(n),
    decreases n,
{
    let s = decimal_digits(n);
    if n < 10 {
        let c = ((48 + n) as u8) as char;
        assert(s =~= seq![c]);
        assert(((48 + n) as u8) == 48 + n);
        assert((c as u32) == 48 + n);
        assert(s.drop_last() =~= Seq::<char>::empty());
        assert(s.last() == c);
        assert(numeral_value(s.drop_last()) == 0);
        assert(numeral_value(s) == numeral_value(s.drop_last()) * 10 + ((s.last() as u32) - 48));
    } else {
        law_decimal_numeral(n / 10);
        let t = decimal_digits(n / 10);
        let d = n % 10;
        let c = ((48 + d) as u8) as char;
        assert(s == t.push(c));
        assert(s.drop_last() =~= t);
        assert(((48 + d) as u8) == 48 + d);
        assert((c as u32) == 48 + d);
        assert(s.last() == c);
        assert(numeral_value(s) == numeral_value(s.drop_last()) * 10 + ((s.last() as u32) - 48));
        assert(n == (n / 10) * 10 + d) by (nonlinear_arith)
            requires
                d == n % 10,
        ;
        assert(n / 10 > 0);
        assert(s[0] == t[0]);
        assert forall|i: int| 0 <= i < s.len() implies '0' <= #[trigger] s[i] && s[i] <= '9' by {
            if i < t.len() {
                assert(s[i] == t[i]);
            }
        }
    }
}

/// The JSON text of an integer.
pub open spec fn int_text(n: int) -> Seq<char> {
    if n < 0 {
        seq!['-'] + decimal_digits((-n) as nat)
    } else {
        decimal_digits(n as nat)
    }
}

fn hex(d: u32) -> (c: char)
    requires
        d < 16,
    ensures
        c == hex_digit(d as int),
{
    if d < 10 {
        ((48 + d) as u8) as char
    } else {
        ((87 + d) as u8) as char
    }
}

/// Appends `c` as it is written inside a JSON string.
fn write_escaped_char(c: char, out: &mut String)
    ensures
        final(out)@ == old(out)@ + escape_char(c),
{
    let ghost start = out@;
    let u = c as u32;
    if c == '"' || c == '\\' {
        push_char(out, '\\');
        push_char(out, c);
    } else if u == 8 {
        push_char(out, '\\');
        push_char(out, 'b');
    } else if u == 9 {
        push_char(out, '\\');
        push_char(out, 't');
    } else if u == 10 {
        push_char(out, '\\');
        push_char(out, 'n');
    } else if u == 12 {
        push_char(out, '\\');
        push_char(out, 'f');
    } else if u == 13 {
        push_char(out, '\\');
        push_char(out, 'r');
    } else if u < 32 {
        push_char(out, '\\');
        push_char(out, 'u');
        push_char(out, '0');
        push_char(out, '0');
        push_char(out, hex(u / 16));
        push_char(out, hex(u % 16));
    } else {
        push_char(out, c);
    }
    assert(out@ =~= start + escape_char(c));
}

/// Appends `s` as a JSON string literal.
pub fn write_quoted(s: &str, out: &mut String)
    ensures
        final(out)@ == old(out)@ + quoted(s@),
{
    let ghost start = out@;
    let cs = chars_of(s);
    push_char(out, '"');
    for i in 0..cs.len()
        invariant
            cs@ == s@,
            out@ == start + seq!['"'] + escape_str(cs@.take(i as int)),
    {
        assert(cs@.take(i + 1).drop_last() =~= cs@.take(i as int));
        write_escaped_char(cs[i], out);
        assert(out@ =~= start + seq!['"'] + escape_str(cs@.take(i + 1)));
    }
    assert(cs@.take(cs.len() as int) =~= cs@);
    push_char(out, '"');
    assert(out@ =~= start + quoted(s@));
}

/// Appends the compact JSON text of `j`.
pub fn write_json(j: &Json, out: &mut String)
    ensures
        final(out)@ == old(out)@ + json_text(j@),
    decreases j,
{
    let ghost start = out@;
    match j {
        Json::Null => out.append("null"),
        Json::Bool(b) => if *b {
            out.append("true")
        } else {
            out.append("false")
        },
        Json::Number(t) => out.append(t.as_str()),
        Json::Str(s) => write_quoted(s.as_str(), out),
        Json::Array(items) => {
            push_char(out, '[');
            let ghost s = items@;
            for i in 0..items.len()
                invariant
                    s == items@,
                    *j == Json::Array(*items),
                    out@ == start + seq!['['] + items_text(items_view(s.take(i as int))),
            {
                proof {
                    lemma_items_view_push(s.take(i as int), s[i as int]);
                    lemma_items_text_push(items_view(s.take(i as int)), json_view(s[i as int]));
                    assert(s.take(i + 1) =~= s.take(i as int).push(s[i as int]));
                    assert(decreases_to!(*j => (*j)->Array_0));
                    assert(decreases_to!((*j)->Array_0 => (*j)->Array_0@));
                    assert(decreases_to!((*j)->Array_0@ => (*j)->Array_0@[i as int]));
                }
                if i > 0 {
                    push_char(out, ',');
                }
                write_json(&items[i], out);
                assert(out@ =~= start + seq!['['] + items_text(items_view(s.take(i + 1))));
            }
            assert(s.take(s.len() as int) =~= s);
            push_char(out, ']');
            assert(out@ =~= start + json_text(j@));
        },
        Json::Object(entries) => {
            push_char(out, '{');
            let ghost s = entries@;
            for i in 0..entries.len()
                invariant
                    s == entries@,
                    *j == Json::Object(*entries),
                    out@ == start + seq!['{'] + entries_text(entries_view(s.take(i as int))),
            {
                proof {
                    lemma_entries_view_push(s.take(i as int), s[i as int]);
                    lemma_entries_text_push(
                        entries_view(s.take(i as int)),
                        (s[i as int].0@, json_view(s[i as int].1)),
                    );
                    assert(s.take(i + 1) =~= s.take(i as int).push(s[i as int]));
                    assert(decreases_to!(*j => (*j)->Object_0));
                    assert(decreases_to!((*j)->Object_0 => (*j)->Object_0@));
                    assert(decreases_to!((*j)->Object_0@ => (*j)->Object_0@[i as int]));
                    assert(decreases_to!((*j)->Object_0@[i as int] => (*j)->Object_0@[i as int].1));
                }
                if i > 0 {
                    push_char(out, ',');
                }
                write_quoted(entries[i].0.as_str(), out);
                push_char(out, ':');
                write_json(&entries[i].1, out);
                assert(out@ =~= start + seq!['{'] + entries_text(entries_view(s.take(i + 1))));
            }
            assert(s.take(s.len() as int) =~= s);
            push_char(out, '}');
            assert(out@ =~= start + json_text(j@));
        },
    }
}

proof fn lemma_items_view_push(s: Seq<Json>, x: Json)
    ensures
        items_view(s.push(x)) == items_view(s).push(json_view(x)),
    decreases s.len(),
{
    if s.len() > 0 {
        assert(s.push(x).drop_first() =~= s.drop_first().push(x));
        lemma_items_view_push(s.drop_first(), x);
        assert(s.push(x)[0] == s[0]);
        assert(items_view(s.push(x)) =~= items_view(s).push(json_view(x)));
    } else {
        assert(s.push(x).drop_first() =~= Seq::<Json>::empty());
        assert(items_view(Seq::<Json>::empty()) =~= Seq::<JsonView>::empty());
        assert(s =~= Seq::<Json>::empty());
        assert(items_view(s.push(x)) =~= items_view(s).push(json_view(x)));
    }
}

proof fn lemma_entries_view_push(s: Seq<(String, Json)>, x: (String, Json))
    ensures
        entries_view(s.push(x)) == entries_view(s).push((x.0@, json_view(x.1))),
    decreases s.len(),
{
    if s.len() > 0 {
        assert(s.push(x).drop_first() =~= s.drop_first().push(x));
        lemma_entries_view_push(s.drop_first(), x);
        assert(s.push(x)[0] == s[0]);
        assert(entries_view(s.push(x)) =~= entries_view(s).push((x.0@, json_view(x.1))));
    } else {
        assert(s.push(x).drop_first() =~= Seq::<(String, Json)>::empty());
        assert(entries_view(Seq::<(String, Json)>::empty()) =~= Seq::<(Seq<char>, JsonView)>::empty());
        assert(s =~= Seq::<(String, Json)>::empty());
        assert(entries_view(s.push(x)) =~= entries_view(s).push((x.0@, json_view(x.1))));
    }
}

proof fn lemma_items_text_push(s: Seq<JsonView>, x: JsonView)
    ensures
        items_text(s.push(x)) == if s.len() == 0 {
            json_text(x)
        } else {
            items_text(s) + seq![','] + json_text(x)
        },
    decreases s.len(),
{
    if s.len() > 0 {
        assert(s.push(x).drop_first() =~= s.drop_first().push(x));
        lemma_items_text_push(s.drop_first(), x);
        if s.len() == 1 {
            assert(s.drop_first() =~= Seq::<JsonView>::empty());
        }
    }
}

proof fn lemma_entries_text_push(s: Seq<(Seq<char>, JsonView)>, x: (Seq<char>, JsonView))
    ensures
        entries_text(s.push(x)) == if s.len() == 0 {
            quoted(x.0) + seq![':'] + json_text(x.1)
        } else {
            entries_text(s) + seq![','] + quoted(x.0) + seq![':'] + json_text(x.1)
        },
    decreases s.len(),
{
    if s.len() > 0 {
        assert(s.push(x).drop_first() =~= s.drop_first().push(x));
        lemma_entries_text_push(s.drop_first(), x);
        if s.len() == 1 {
            assert(s.drop_first() =~= Seq::<(Seq<char>, JsonView)>::empty());
        }
    }
}

/// Appends the decimal digits of `n`.
fn write_decimal(n: u64, out: &mut String)
    ensures
        final(out)@ == old(out)@ + decimal_digits(n as nat),
    decreases n,
{
    if n >= 10 {
        write_decimal(n / 10, out);
    }
    push_char(out, ((48 + n % 10) as u8) as char);
}

/// Every character of `s` is at or above U+0020: no control character below the space.
pub open spec fn free_of_controls(s: Seq<char>) -> bool {
    forall|i: int| 0 <= i < s.len() ==> (#[trigger] s[i] as u32) >= 32
}

/// Every number in `j` is written without control characters.
pub open spec fn numbers_free_of_controls(j: JsonView) -> bool
    decreases j,
{
    match j {
        JsonView::Number(t) => free_of_controls(t),
        JsonView::Array(items) => items_numbers_free_of_controls(items),
        JsonView::Object(entries) => entries_numbers_free_of_controls(entries),
        _ => true,
    }
}

/// Every number in `items` is written without control characters.
pub open spec fn items_numbers_free_of_controls(items: Seq<JsonView>) -> bool
    decreases items,
{
    items.len() == 0 || (numbers_free_of_controls(items[0]) && items_numbers_free_of_controls(
        items.drop_first(),
    ))
}

/// Every number in the values of `entries` is written without control characters.
pub open spec fn entries_numbers_free_of_controls(entries: Seq<(Seq<char>, JsonView)>) -> bool
    decreases entries,
{
    entries.len() == 0 || (numbers_free_of_controls(entries[0].1)
        && entries_numbers_free_of_controls(entries.drop_first()))
}

proof fn lemma_concat_free(a: Seq<char>, b: Seq<char>)
    requires
        free_of_controls(a),
        free_of_controls(b),
    ensures
        free_of_controls(a + b),
{
    assert forall|i: int| 0 <= i < (a + b).len() implies ((#[trigger] (a + b)[i]) as u32) >= 32 by {
        if i < a.len() {
            assert((a + b)[i] == a[i]);
        } else {
            assert((a + b)[i] == b[i - a.len()]);
        }
    }
}

proof fn lemma_escape_str_free(s: Seq<char>)
    ensures
        free_of_controls(escape_str(s)),
    decreases s.len(),
{
    if s.len() > 0 {
        lemma_escape_str_free(s.drop_last());
        let c = s.last();
        let u = c as u32;
        assert(free_of_controls(escape_char(c))) by {
            if u < 32 && u != 8 && u != 9 && u != 10 && u != 12 && u != 13 {
                let e = escape_char(c);
                assert(hex_digit(u as int / 16) as u32 >= 48);
                assert(hex_digit(u as int % 16) as u32 >= 48);
                assert(e[4] == hex_digit(u as int / 16));
            }
        }
        lemma_concat_free(escape_str(s.drop_last()), escape_char(c));
    }
}

proof fn lemma_quoted_free(s: Seq<char>)
    ensures
        free_of_controls(quoted(s)),
{
    lemma_escape_str_free(s);
    lemma_concat_free(seq!['"'], escape_str(s));
    lemma_concat_free(seq!['"'] + escape_str(s), seq!['"']);
}

proof fn lemma_text_free(j: JsonView)
    requires
        numbers_free_of_controls(j),
    ensures
        free_of_controls(json_text(j)),
    decreases j,
{
    match j {
        JsonView::Null => {
            reveal_strlit("null");
        },
        JsonView::Bool(b) => {
            reveal_strlit("true");
            reveal_strlit("false");
        },
        JsonView::Number(t) => {},
        JsonView::Str(s) => lemma_quoted_free(s),
        JsonView::Array(items) => {
            lemma_items_free(items);
            lemma_concat_free(seq!['['], items_text(items));
            lemma_concat_free(seq!['['] + items_text(items), seq![']']);
        },
        JsonView::Object(entries) => {
            lemma_entries_free(entries);
            lemma_concat_free(seq!['{'], entries_text(entries));
            lemma_concat_free(seq!['{'] + entries_text(entries), seq!['}']);
        },
    }
}

proof fn lemma_items_free(items: Seq<JsonView>)
    requires
        items_numbers_free_of_controls(items),
    ensures
        free_of_controls(items_text(items)),
    decreases items,
{
    if items.len() > 0 {
        lemma_text_free(items[0]);
        if items.len() > 1 {
            lemma_items_free(items.drop_first());
            lemma_concat_free(json_text(items[0]), seq![',']);
            lemma_concat_free(json_text(items[0]) + seq![','], items_text(items.drop_first()));
        }
    }
}

proof fn lemma_entries_free(entries: Seq<(Seq<char>, JsonView)>)
    requires
        entries_numbers_free_of_controls(entries),
    ensures
        free_of_controls(entries_text(entries)),
    decreases entries,
{
    if entries.len() > 0 {
        lemma_text_free(entries[0].1);
        lemma_quoted_free(entries[0].0);
        lemma_concat_free(quoted(entries[0].0), seq![':']);
        lemma_concat_free(quoted(entries[0].0) + seq![':'], json_text(entries[0].1));
        if entries.len() > 1 {
            let here = quoted(entries[0].0) + seq![':'] + json_text(entries[0].1);
            lemma_entries_free(entries.drop_first());
            lemma_concat_free(here, seq![',']);
            lemma_concat_free(here + seq![','], entries_text(entries.drop_first()));
        }
    }
}

/// Written-out JSON holds no control character: every control character inside a
/// string is escaped, so the text stays on one line and never holds a record
/// separator (as long as every number is written without one).
pub proof fn law_json_text_free_of_controls(j: JsonView)
    requires
        numbers_free_of_controls(j),
    ensures
        free_of_controls(json_text(j)),
{
    lemma_text_free(j);
}

/// The content of a sequence of entries, entry by entry.
pub proof fn lemma_entries_view(s: Seq<(String, Json)>)
    ensures
        entries_view(s).len() == s.len(),
        forall|i: int|
            0 <= i < s.len() ==> #[trigger] entries_view(s)[i] == (s[i].0@, json_view(s[i].1)),
    decreases s.len(),
{
    if s.len() > 0 {
        lemma_entries_view(s.drop_first());
        assert forall|i: int| 0 <= i < s.len() implies #[trigger] entries_view(s)[i] == (
            s[i].0@,
            json_view(s[i].1),
        ) by {
            if i > 0 {
                assert(s.drop_first()[i - 1] == s[i]);
            }
        }
    }
}

/// The content of a sequence of values, value by value.
pub proof fn lemma_items_view(s: Seq<Json>)
    ensures
        items_view(s).len() == s.len(),
        forall|i: int| 0 <= i < s.len() ==> #[trigger] items_view(s)[i] == json_view(s[i]),
    decreases s.len(),
{
    if s.len() > 0 {
        lemma_items_view(s.drop_first());
        assert forall|i: int| 0 <= i < s.len() implies #[trigger] items_view(s)[i] == json_view(
            s[i],
        ) by {
            if i > 0 {
                assert(s.drop_first()[i - 1] == s[i]);
            }
        }
    }
}

/// An object entry.
pub fn entry(key: &str, value: Json) -> (r: (String, Json))
    ensures
        r.0@ == key@,
        r.1 == value,
{
    (key.to_string(), value)
}

/// An object holding `entries` in order.
pub fn object(entries: Vec<(String, Json)>) -> (r: Json)
    ensures
        r@ == JsonView::Object(entries_view(entries@)),
        entries_view(entries@).len() == entries@.len(),
        forall|i: int|
            0 <= i < entries@.len() ==> #[trigger] entries_view(entries@)[i] == (
                entries@[i].0@,
                json_view(entries@[i].1),
            ),
{
    proof {
        lemma_entries_view(entries@);
    }
    Json::Object(entries)
}

/// An array holding `items` in order.
pub fn array(items: Vec<Json>) -> (r: Json)
    ensures
        r@ == JsonView::Array(items_view(items@)),
        items_view(items@).len() == items@.len(),
        forall|i: int| 0 <= i < items@.len() ==> #[trigger] items_view(items@)[i] == json_view(items@[i]),
{
    proof {
        lemma_items_view(items@);
    }
    Json::Array(items)
}

/// The JSON value of an optional string: `null` or the string.
pub open spec fn opt_str_view(s: Option<Seq<char>>) -> JsonView {
    match s {
        Some(t) => JsonView::Str(t),
        None => JsonView::Null,
    }
}

/// The view of an optional `String`.
pub open spec fn opt_view(s: Option<String>) -> Option<Seq<char>> {
    match s {
        Some(t) => Some(t@),
        None => None,
    }
}

impl Json {
    /// The compact JSON text of this value (`serde_json::to_string`).
    pub fn to_json_string(&self) -> (r: String)
        ensures
            r@ == json_text(self@),
    {
        let mut out = String::new();
        write_json(self, &mut out);
        out
    }

    /// The JSON number for `n`.
    pub fn from_u64(n: u64) -> (r: Json)
        ensures
            r@ == JsonView::Number(int_text(n as int)),
    {
        let mut t = String::new();
        write_decimal(n, &mut t);
        Json::Number(t)
    }

    /// The JSON value of an optional string: `null` or the string.
    pub fn opt_string(s: &Option<String>) -> (r: Json)
        ensures
            r@ == opt_str_view(opt_view(*s)),
    {
        match s {
            Some(t) => Json::Str(t.clone()),
            None => Json::Null,
        }
    }

    /// The JSON value of an optional count: `null` or the number.
    pub fn opt_u32(n: Option<u32>) -> (r: Json)
        ensures
            r@ == match n {
                Some(k) => JsonView::Number(int_text(k as int)),
                None => JsonView::Null,
            },
    {
        match n {
            Some(k) => Json::from_u64(k as u64),
            None => Json::Null,
        }
    }

    /// The JSON string for `s`.
    pub fn string(s: &str) -> (r: Json)
        ensures
            r@ == JsonView::Str(s@),
    {
        Json::Str(s.to_string())
    }
}

} // verus!
