use vstd::prelude::*;

use crate::text::{
    ascii_lower_char, chars_of, has_prefix, has_suffix, occurs_at, occurs_in, replace_literal, replace_spec,
    string_of, trim_chars, trim_spec,
};

verus! {

#[verifier::external_type_specification]
#[verifier::external_body]
pub struct ExRegex(regex::Regex);

#[verifier::external_type_specification]
#[verifier::external_body]
pub struct ExRegexError(regex::Error);

/// Whether the `regex` crate compiles `pattern` (with its default size limits).
pub uninterp spec fn regex_accepts(pattern: Seq<char>) -> bool;

/// The first match of `pattern` in `haystack`: `None` when there is none; otherwise
/// the text of capture group `group`, or `None` when that group took no part.
pub uninterp spec fn regex_first_capture(
    pattern: Seq<char>,
    haystack: Seq<char>,
    group: nat,
) -> Option<Option<Seq<char>>>;

/// `haystack` with every non-overlapping match of `pattern` replaced by `replacement`,
/// in which `$name` and `${name}` stand for capture groups (`Regex::replace_all`).
pub uninterp spec fn regex_replace_all(
    pattern: Seq<char>,
    haystack: Seq<char>,
    replacement: Seq<char>,
) -> Seq<char>;

/// A compiled regular expression together with the pattern it was compiled from.
pub struct CompiledRegex {
    pattern: String,
    regex: regex::Regex,
}

impl View for CompiledRegex {
    type V = Seq<char>;

    closed spec fn view(&self) -> Seq<char> {
        self.pattern@
    }
}

/// `Regex::new`: compiles `pattern`; the result keeps the pattern it came from.
#[verifier::external_body]
pub(crate) fn compile_regex(pattern: &str) -> (r: Result<CompiledRegex, regex::Error>)
    ensures
        r is Ok <==> regex_accepts(pattern@),
        r matches Ok(c) ==> c@ == pattern@,
{
    match regex::Regex::new(pattern) {
        Ok(regex) => Ok(CompiledRegex { pattern: pattern.to_string(), regex }),
        Err(e) => Err(e),
    }
}

/// The view of an optional capture result.
pub open spec fn capture_view(r: Option<Option<String>>) -> Option<Option<Seq<char>>> {
    match r {
        None => None,
        Some(None) => Some(None),
        Some(Some(s)) => Some(Some(s@)),
    }
}

/// `Regex::captures` then `Captures::get(group)`: the first match and one of its groups.
/// A group's text is a piece of the haystack, so its characters are the haystack's.
#[verifier::external_body]
pub(crate) fn first_capture(re: &CompiledRegex, haystack: &str, group: usize) -> (r: Option<
    Option<String>,
>)
    ensures
        capture_view(r) == regex_first_capture(re@, haystack@, group as nat),
        r matches Some(Some(t)) ==> forall|i: int|
            0 <= i < t@.len() ==> haystack@.contains(#[trigger] t@[i]),
{
    match re.regex.captures(haystack) {
        Some(caps) => match caps.get(group) {
            Some(m) => Some(Some(m.as_str().to_string())),
            None => Some(None),
        },
        None => None,
    }
}

/// `Regex::replace_all` with a string replacement. The result is made of the haystack
/// between matches and of the replacement with its group references expanded to pieces
/// of the haystack, so each of its characters is one of the haystack's or of the
/// replacement's.
#[verifier::external_body]
pub(crate) fn replace_all(re: &CompiledRegex, haystack: &str, replacement: &str) -> (r: String)
    ensures
        r@ == regex_replace_all(re@, haystack@, replacement@),
        forall|i: int|
            0 <= i < r@.len() ==> haystack@.contains(#[trigger] r@[i]) || replacement@.contains(
                r@[i],
            ),
{
    re.regex.replace_all(haystack, replacement).into_owned()
}

/// The declaration of the view class: its name is group 1.
pub const CLASS_PATTERN: &'static str = r"public class (\w+) : ViewBase";

/// The `Build` override: its body is group 1.
pub const BUILD_PATTERN: &'static str = r"public override object\? Build\(\)\s*\{([\s\S]*?)\}";

/// A `UseState` declaration.
pub const STATE_PATTERN: &'static str = r"var (\w+) = this\.UseState<(\w+)>\(\);";

/// A gap given as a whole number: the number is group 1.
pub const GAP_PATTERN: &'static str = r"\.Gap\((\d+)\)";

/// What a whole-number gap becomes: the float the `gap` builder takes.
pub const GAP_REPLACEMENT: &'static str = ".gap($1.0)";

/// A padding given as a whole number: the number is group 1.
pub const PADDING_PATTERN: &'static str = r"\.Padding\((\d+)\)";

/// What a whole-number padding becomes: the float the `padding` builder takes.
pub const PADDING_REPLACEMENT: &'static str = ".padding($1.0)";

/// A `Text.<Variant>(<content>)` call.
pub const TEXT_PATTERN: &'static str = r"Text\.(\w+)\((.*?)\)";

/// What a `Text` call becomes.
pub const TEXT_REPLACEMENT: &'static str = "Box::new(Text { content: $2.to_string(), style: Some(\"$1\".to_string()) })";

/// A `Size.Units(n)` size, with an optional `.Max(m)`.
pub const SIZE_PATTERN: &'static str = r"Size\.Units\((\d+)\)(\.Max\(\d+\))?";

/// What a size becomes.
pub const SIZE_REPLACEMENT: &'static str = "Some($1.0)";

/// A `string.IsNullOrEmpty` ternary.
pub const TERNARY_PATTERN: &'static str = r"\(string\.IsNullOrEmpty\((.*?)\) \? (.*?) : (.*?)\)";

/// What a ternary becomes.
pub const TERNARY_REPLACEMENT: &'static str = "if $1.get().is_empty() { $2 } else { $3 }";

/// The patterns applied to each line of a `Build` body.
struct LinePatterns {
    state: CompiledRegex,
    gap: CompiledRegex,
    padding: CompiledRegex,
    text: CompiledRegex,
    size: CompiledRegex,
    ternary: CompiledRegex,
}

impl LinePatterns {
    /// The patterns were compiled from the expected pattern texts.
    spec fn wf(&self) -> bool {
        &&& self.state@ == STATE_PATTERN@
        &&& self.gap@ == GAP_PATTERN@
        &&& self.padding@ == PADDING_PATTERN@
        &&& self.text@ == TEXT_PATTERN@
        &&& self.size@ == SIZE_PATTERN@
        &&& self.ternary@ == TERNARY_PATTERN@
    }
}

/// One character of an identifier written in snake case: an ASCII capital becomes its
/// lower case, preceded by an underscore unless it starts the identifier.
pub open spec fn snake_char(c: char, first: bool) -> Seq<char> {
    if 'A' <= c && c <= 'Z' {
        if first {
            seq![ascii_lower_char(c)]
        } else {
            seq!['_', ascii_lower_char(c)]
        }
    } else {
        seq![c]
    }
}

/// An identifier in snake case (`nameState` becomes `name_state`).
pub open spec fn snake_case(s: Seq<char>) -> Seq<char>
    decreases s.len(),
{
    if s.len() == 0 {
        Seq::empty()
    } else {
        snake_case(s.drop_last()) + snake_char(s.last(), s.len() == 1)
    }
}

/// What the `UseState` declaration of `name` becomes: a signal bound to the name in
/// snake case.
pub open spec fn state_decl(name: Seq<char>) -> Seq<char> {
    "let "@ + snake_case(name) + " = Signal::use_state(\"\".to_string());"@
}

/// `t` with its `UseState` declarations rewritten, at most `fuel` of them: the first
/// declaration found (group 0 the whole of it, group 1 the variable) is replaced, with
/// every copy of it, by `state_decl` of the variable, and the search starts again.
pub open spec fn state_rewrite(t: Seq<char>, fuel: nat) -> Seq<char>
    decreases fuel,
{
    if fuel == 0 {
        t
    } else {
        match (regex_first_capture(STATE_PATTERN@, t, 0), regex_first_capture(STATE_PATTERN@, t, 1)) {
            (Some(Some(whole)), Some(Some(name))) => if whole.len() > 0 {
                state_rewrite(replace_spec(t, whole, state_decl(name)), (fuel - 1) as nat)
            } else {
                t
            },
            _ => t,
        }
    }
}

/// What one trimmed, non-empty line of a `Build` body becomes, before indentation.
/// Every declaration of the line is rewritten: one takes more than one character, so
/// the line's length bounds their number.
pub open spec fn line_rewrite(t: Seq<char>) -> Seq<char> {
    let l1 = state_rewrite(t, t.len());
    let l2 = replace_spec(l1, "Layout.Center()"@, "Box::new(Layout::center())"@);
    let l3 = replace_spec(l2, "Layout.Vertical()"@, "Layout::vertical()"@);
    let l4 = gap_step(l3);
    let l5 = padding_step(l4);
    let l7 = regex_replace_all(TEXT_PATTERN@, l5, TEXT_REPLACEMENT@);
    let l8 = replace_spec(l7, "new Separator()"@, "Box::new(Separator)"@);
    let l9 = regex_replace_all(SIZE_PATTERN@, l8, SIZE_REPLACEMENT@);
    let l10 = width_step(l9);
    regex_replace_all(TERNARY_PATTERN@, l10, TERNARY_REPLACEMENT@)
}

/// The gap step of a line: a whole-number `.Gap(n)` becomes `.gap(n.0)`, then every
/// other `.Gap(` becomes `.gap(`.
pub open spec fn gap_step(l: Seq<char>) -> Seq<char> {
    replace_spec(regex_replace_all(GAP_PATTERN@, l, GAP_REPLACEMENT@), ".Gap("@, ".gap("@)
}

/// The padding step of a line: a whole-number `.Padding(n)` becomes `.padding(n.0)`,
/// then every other `.Padding(` becomes `.padding(`.
pub open spec fn padding_step(l: Seq<char>) -> Seq<char> {
    replace_spec(
        regex_replace_all(PADDING_PATTERN@, l, PADDING_REPLACEMENT@),
        ".Padding("@,
        ".padding("@,
    )
}

/// The width step of a line: every `.Width(` becomes `.width(`.
pub open spec fn width_step(l: Seq<char>) -> Seq<char> {
    replace_spec(l, ".Width("@, ".width("@)
}

/// The C# builder calls `.Gap(`, `.Padding(` and `.Width(` do not survive their steps:
/// whatever a line holds, none of them is left after its step, which writes the Rust
/// builder (`.gap(`, `.padding(`, `.width(`) in its place.
pub proof fn law_builder_calls_renamed(l: Seq<char>)
    ensures
        !occurs_in(gap_step(l), ".Gap("@),
        !occurs_in(padding_step(l), ".Padding("@),
        !occurs_in(width_step(l), ".Width("@),
{
    reveal_strlit(".Gap(");
    reveal_strlit(".gap(");
    reveal_strlit(".Padding(");
    reveal_strlit(".padding(");
    reveal_strlit(".Width(");
    reveal_strlit(".width(");
    assert(".Gap("@ != ".gap("@) by {
        assert(".Gap("@[1] != ".gap("@[1]);
    }
    assert(".Padding("@ != ".padding("@) by {
        assert(".Padding("@[1] != ".padding("@[1]);
    }
    assert(".Width("@ != ".width("@) by {
        assert(".Width("@[1] != ".width("@[1]);
    }
    crate::text::lemma_replace_removes(
        regex_replace_all(GAP_PATTERN@, l, GAP_REPLACEMENT@),
        ".Gap("@,
        ".gap("@,
    );
    crate::text::lemma_replace_removes(
        regex_replace_all(PADDING_PATTERN@, l, PADDING_REPLACEMENT@),
        ".Padding("@,
        ".padding("@,
    );
    crate::text::lemma_replace_removes(l, ".Width("@, ".width("@);
}

/// What one line of a `Build` body becomes: nothing when it is blank, else the
/// rewritten trimmed line, indented by eight spaces.
pub open spec fn line_out(line: Seq<char>) -> Seq<char> {
    let t = trim_spec(line);
    if t.len() == 0 {
        Seq::empty()
    } else {
        "        "@ + line_rewrite(t) + "\n"@
    }
}

/// What the rest `s` of a body becomes when `line` has been read of the current line.
/// Lines end at `'\n'`; a `'\r'` before it is whitespace and is trimmed with the line.
pub open spec fn body_from(s: Seq<char>, line: Seq<char>) -> Seq<char>
    decreases s.len(),
{
    if s.len() == 0 {
        line_out(line)
    } else if s[0] == '\n' {
        line_out(line) + body_from(s.drop_first(), Seq::empty())
    } else {
        body_from(s.drop_first(), line.push(s[0]))
    }
}

/// The opening of a card in C#: `new Card(`.
pub open spec fn card_open() -> Seq<char> {
    seq!['n', 'e', 'w', ' ', 'C', 'a', 'r', 'd', '(']
}

/// The first position at or after `k` where a `new Card(` begins, or `-1`.
pub open spec fn first_card(s: Seq<char>, k: int) -> int
    decreases s.len() - k,
{
    if k < 0 || k + card_open().len() > s.len() {
        -1
    } else if occurs_at(s, card_open(), k) {
        k
    } else {
        first_card(s, k + 1)
    }
}

/// The position, at or after `k`, of the `)` that closes a parenthesis opened
/// `depth` levels up, or `-1` when the text ends first.
pub open spec fn close_paren(s: Seq<char>, k: int, depth: nat) -> int
    decreases s.len() - k,
{
    if k < 0 || k >= s.len() {
        -1
    } else if s[k] == '(' {
        close_paren(s, k + 1, depth + 1)
    } else if s[k] == ')' {
        if depth <= 1 {
            k
        } else {
            close_paren(s, k + 1, (depth - 1) as nat)
        }
    } else {
        close_paren(s, k + 1, depth)
    }
}

/// `s` with every `new Card(<content>)` written as
/// `Box::new(Card { content: <content>, width: None })`, the content rewritten the same
/// way; a `new Card(` whose parenthesis is never closed only has its opening rewritten.
pub open spec fn cards(s: Seq<char>) -> Seq<char>
    decreases s.len(),
{
    let i = first_card(s, 0);
    if i < 0 || i + card_open().len() > s.len() {
        s
    } else {
        let rest = s.subrange(i + card_open().len(), s.len() as int);
        let j = close_paren(rest, 0, 1);
        if 0 <= j < rest.len() {
            s.subrange(0, i) + "Box::new(Card { content: "@ + cards(rest.subrange(0, j))
                + ", width: None })"@ + cards(rest.subrange(j + 1, rest.len() as int))
        } else {
            s.subrange(0, i) + "Box::new(Card { content: "@ + cards(rest)
        }
    }
}

/// What a whole `Build` body becomes: its cards rewritten, then line by line.
pub open spec fn body_out(body: Seq<char>) -> Seq<char> {
    body_from(cards(body), Seq::empty())
}

/// `s` holds no line break.
pub open spec fn no_line_break(s: Seq<char>) -> bool {
    forall|i: int| 0 <= i < s.len() ==> s[i] != '\n'
}

/// A text with no line break keeps none when pieces of it are replaced by a text with
/// none.
proof fn lemma_replace_no_line_break(s: Seq<char>, from: Seq<char>, to: Seq<char>)
    requires
        no_line_break(s),
        no_line_break(to),
    ensures
        no_line_break(replace_spec(s, from, to)),
{
    crate::text::lemma_replace_chars(s, from, to);
    let r = replace_spec(s, from, to);
    assert forall|i: int| 0 <= i < r.len() implies r[i] != '\n' by {
        if s.contains(r[i]) {
            let k = choose|k: int| 0 <= k < s.len() && s[k] == r[i];
        } else {
            assert(to.contains(r[i]));
            let k = choose|k: int| 0 <= k < to.len() && to[k] == r[i];
        }
    }
}

/// How many line breaks `s` holds.
pub open spec fn line_breaks(s: Seq<char>) -> nat
    decreases s.len(),
{
    if s.len() == 0 {
        0
    } else {
        line_breaks(s.drop_last()) + if s.last() == '\n' {
            1nat
        } else {
            0nat
        }
    }
}

/// How many of the lines `ls` are not blank.
pub open spec fn non_blank_lines(ls: Seq<Seq<char>>) -> nat
    decreases ls.len(),
{
    if ls.len() == 0 {
        0
    } else {
        non_blank_lines(ls.drop_last()) + if trim_spec(ls.last()).len() > 0 {
            1nat
        } else {
            0nat
        }
    }
}

proof fn lemma_line_breaks_concat(a: Seq<char>, b: Seq<char>)
    ensures
        line_breaks(a + b) == line_breaks(a) + line_breaks(b),
    decreases b.len(),
{
    if b.len() == 0 {
        assert(a + b =~= a);
    } else {
        lemma_line_breaks_concat(a, b.drop_last());
        assert((a + b).drop_last() =~= a + b.drop_last());
    }
}

proof fn lemma_no_line_break_count(s: Seq<char>)
    requires
        no_line_break(s),
    ensures
        line_breaks(s) == 0,
    decreases s.len(),
{
    if s.len() > 0 {
        lemma_no_line_break_count(s.drop_last());
    }
}

proof fn lemma_trim_no_line_break(s: Seq<char>)
    requires
        no_line_break(s),
    ensures
        no_line_break(trim_spec(s)),
{
    lemma_trim_start_no_line_break(s);
    lemma_trim_end_no_line_break(crate::text::trim_start_spec(s));
}

proof fn lemma_trim_start_no_line_break(s: Seq<char>)
    requires
        no_line_break(s),
    ensures
        no_line_break(crate::text::trim_start_spec(s)),
    decreases s.len(),
{
    if s.len() > 0 && crate::text::is_unicode_whitespace(s[0]) {
        assert forall|i: int| 0 <= i < s.drop_first().len() implies s.drop_first()[i] != '\n' by {
            assert(s.drop_first()[i] == s[i + 1]);
        }
        lemma_trim_start_no_line_break(s.drop_first());
    }
}

proof fn lemma_trim_end_no_line_break(s: Seq<char>)
    requires
        no_line_break(s),
    ensures
        no_line_break(crate::text::trim_end_spec(s)),
    decreases s.len(),
{
    if s.len() > 0 && crate::text::is_unicode_whitespace(s.last()) {
        assert forall|i: int| 0 <= i < s.drop_last().len() implies s.drop_last()[i] != '\n' by {
            assert(s.drop_last()[i] == s[i]);
        }
        lemma_trim_end_no_line_break(s.drop_last());
    }
}

/// Two texts with no line break make one with none.
proof fn lemma_concat_no_line_break(a: Seq<char>, b: Seq<char>)
    requires
        no_line_break(a),
        no_line_break(b),
    ensures
        no_line_break(a + b),
{
    assert forall|i: int| 0 <= i < (a + b).len() implies (a + b)[i] != '\n' by {
        if i >= a.len() {
            assert((a + b)[i] == b[i - a.len()]);
        }
    }
}

/// A text made of characters of two texts with no line break has none.
proof fn lemma_pieces_no_line_break(r: Seq<char>, a: Seq<char>, b: Seq<char>)
    requires
        no_line_break(a),
        no_line_break(b),
        forall|i: int| 0 <= i < r.len() ==> a.contains(#[trigger] r[i]) || b.contains(r[i]),
    ensures
        no_line_break(r),
{
    assert forall|i: int| 0 <= i < r.len() implies r[i] != '\n' by {
        if a.contains(r[i]) {
            let k = choose|k: int| 0 <= k < a.len() && a[k] == r[i];
        } else {
            let k = choose|k: int| 0 <= k < b.len() && b[k] == r[i];
        }
    }
}

/// An identifier in snake case (see `snake_case`).
fn to_snake_case(name: &str) -> (r: String)
    ensures
        r@ == snake_case(name@),
        no_line_break(name@) ==> no_line_break(r@),
{
    let a = chars_of(name);
    let mut out: Vec<char> = Vec::new();
    for i in 0..a.len()
        invariant
            a@ == name@,
            out@ == snake_case(a@.take(i as int)),
            no_line_break(name@) ==> no_line_break(out@),
    {
        let ghost before = a@.take(i as int);
        assert(a@.take(i + 1).drop_last() =~= before);
        assert(a@.take(i + 1).last() == a@[i as int]);
        let c = a[i];
        if 'A' <= c && c <= 'Z' {
            if i > 0 {
                out.push('_');
            }
            let lower = ((c as u8) + 32) as char;
            assert(lower == ascii_lower_char(c));
            out.push(lower);
        } else {
            out.push(c);
        }
        assert(out@ =~= snake_case(a@.take(i + 1)));
    }
    assert(a@.take(a@.len() as int) =~= a@);
    string_of(&out)
}

/// Rewrites the `UseState` declarations of a line (see `state_rewrite`).
fn rewrite_states(t: &str, re: &CompiledRegex) -> (r: String)
    requires
        re@ == STATE_PATTERN@,
    ensures
        r@ == state_rewrite(t@, t@.len()),
        no_line_break(t@) ==> no_line_break(r@),
{
    proof {
        reveal_strlit("let ");
        reveal_strlit(" = Signal::use_state(\"\".to_string());");
    }
    let mut cur = String::from_str(t);
    let mut fuel: usize = chars_of(t).len();
    while fuel > 0
        invariant
            re@ == STATE_PATTERN@,
            state_rewrite(cur@, fuel as nat) == state_rewrite(t@, t@.len()),
            no_line_break(t@) ==> no_line_break(cur@),
        decreases fuel,
    {
        let whole = first_capture(re, cur.as_str(), 0);
        let name = first_capture(re, cur.as_str(), 1);
        match (whole, name) {
            (Some(Some(w)), Some(Some(n))) => {
                if chars_of(w.as_str()).len() == 0 {
                    return cur;
                }
                proof {
                    if no_line_break(t@) {
                        assert forall|i: int| 0 <= i < n@.len() implies n@[i] != '\n' by {
                            assert(cur@.contains(n@[i]));
                            let k = choose|k: int| 0 <= k < cur@.len() && cur@[k] == n@[i];
                        }
                    }
                }
                let snake = to_snake_case(n.as_str());
                let mut decl = String::from_str("let ");
                decl.append(snake.as_str());
                decl.append(" = Signal::use_state(\"\".to_string());");
                let ghost before = cur@;
                cur = replace_literal(cur.as_str(), w.as_str(), decl.as_str());
                proof {
                    if no_line_break(t@) {
                        reveal_strlit("let ");
                        reveal_strlit(" = Signal::use_state(\"\".to_string());");
                        let lit = " = Signal::use_state(\"\".to_string());"@;
                        assert(no_line_break(lit));
                        assert(no_line_break("let "@));
                        lemma_concat_no_line_break("let "@, snake@);
                        lemma_concat_no_line_break("let "@ + snake@, lit);
                        assert(decl@ =~= "let "@ + snake@ + lit);
                        lemma_replace_no_line_break(before, w@, decl@);
                    }
                }
                fuel -= 1;
            },
            _ => {
                return cur;
            },
        }
    }
    cur
}

/// Rewrites one trimmed line (see `line_rewrite`).
fn rewrite_line(t: &str, rx: &LinePatterns) -> (r: String)
    requires
        rx.wf(),
    ensures
        r@ == line_rewrite(t@),
        no_line_break(t@) ==> no_line_break(r@),
{
    proof {
        reveal_strlit("Box::new(Layout::center())");
        reveal_strlit("Layout::vertical()");
        reveal_strlit(".gap(");
        reveal_strlit(".padding(");
        reveal_strlit("Box::new(Separator)");
        reveal_strlit(".width(");
        reveal_strlit(".gap($1.0)");
        reveal_strlit(".padding($1.0)");
        reveal_strlit("Box::new(Text { content: $2.to_string(), style: Some(\"$1\".to_string()) })");
        reveal_strlit("Some($1.0)");
        reveal_strlit("if $1.get().is_empty() { $2 } else { $3 }");
        reveal_strlit("Layout.Center()");
        reveal_strlit("Layout.Vertical()");
        reveal_strlit(".Gap(");
        reveal_strlit(".Padding(");
        reveal_strlit("new Separator()");
        reveal_strlit(".Width(");
    }
    let l1 = rewrite_states(t, &rx.state);
    let l2 = replace_literal(l1.as_str(), "Layout.Center()", "Box::new(Layout::center())");
    let l3 = replace_literal(l2.as_str(), "Layout.Vertical()", "Layout::vertical()");
    let g = replace_all(&rx.gap, l3.as_str(), GAP_REPLACEMENT);
    let l4 = replace_literal(g.as_str(), ".Gap(", ".gap(");
    let p = replace_all(&rx.padding, l4.as_str(), PADDING_REPLACEMENT);
    let l5 = replace_literal(p.as_str(), ".Padding(", ".padding(");
    let l7 = replace_all(&rx.text, l5.as_str(), TEXT_REPLACEMENT);
    let l8 = replace_literal(l7.as_str(), "new Separator()", "Box::new(Separator)");
    let l9 = replace_all(&rx.size, l8.as_str(), SIZE_REPLACEMENT);
    let l10 = replace_literal(l9.as_str(), ".Width(", ".width(");
    let r = replace_all(&rx.ternary, l10.as_str(), TERNARY_REPLACEMENT);
    proof {
        if no_line_break(t@) {
            lemma_replace_no_line_break(l1@, "Layout.Center()"@, "Box::new(Layout::center())"@);
            lemma_replace_no_line_break(l2@, "Layout.Vertical()"@, "Layout::vertical()"@);
            lemma_pieces_no_line_break(g@, l3@, GAP_REPLACEMENT@);
            lemma_replace_no_line_break(g@, ".Gap("@, ".gap("@);
            lemma_pieces_no_line_break(p@, l4@, PADDING_REPLACEMENT@);
            lemma_replace_no_line_break(p@, ".Padding("@, ".padding("@);
            lemma_pieces_no_line_break(l7@, l5@, TEXT_REPLACEMENT@);
            lemma_replace_no_line_break(l7@, "new Separator()"@, "Box::new(Separator)"@);
            lemma_pieces_no_line_break(l9@, l8@, SIZE_REPLACEMENT@);
            lemma_replace_no_line_break(l9@, ".Width("@, ".width("@);
            lemma_pieces_no_line_break(r@, l10@, TERNARY_REPLACEMENT@);
        }
    }
    r
}

/// Appends what one line becomes (see `line_out`).
fn emit_line(line: &Vec<char>, rx: &LinePatterns, out: &mut String)
    requires
        rx.wf(),
    ensures
        final(out)@ == old(out)@ + line_out(line@),
        no_line_break(line@) ==> line_breaks(line_out(line@)) == if trim_spec(line@).len() > 0 {
            1nat
        } else {
            0nat
        },
{
    let t = trim_chars(line);
    if t.len() > 0 {
        let ts = string_of(&t);
        proof {
            if no_line_break(line@) {
                lemma_trim_no_line_break(line@);
            }
        }
        let rewritten = rewrite_line(ts.as_str(), rx);
        out.append("        ");
        out.append(rewritten.as_str());
        out.append("\n");
        proof {
            if no_line_break(line@) {
                reveal_strlit("        ");
                reveal_strlit("\n");
                let sp = "        "@;
                let nl = "\n"@;
                assert(no_line_break(sp));
                lemma_no_line_break_count(sp);
                lemma_no_line_break_count(rewritten@);
                lemma_line_breaks_concat(sp, rewritten@);
                lemma_line_breaks_concat(sp + rewritten@, nl);
                assert(nl =~= seq!['\n']);
                assert(nl.drop_last() =~= Seq::<char>::empty());
                assert(line_breaks(nl.drop_last()) == 0);
                assert(line_breaks(nl) == 1);
            }
        }
    }
}

/// The characters `a[lo..hi]`.
fn slice_chars(a: &Vec<char>, lo: usize, hi: usize) -> (r: Vec<char>)
    requires
        lo <= hi <= a@.len(),
    ensures
        r@ == a@.subrange(lo as int, hi as int),
{
    let mut r: Vec<char> = Vec::new();
    for k in lo..hi
        invariant
            lo <= hi <= a@.len(),
            r@ == a@.subrange(lo as int, k as int),
    {
        r.push(a[k]);
        assert(a@.subrange(lo as int, k + 1) =~= a@.subrange(lo as int, k as int).push(a@[k as int]));
    }
    r
}

/// Appends the characters of `b` to `out`.
fn push_chars(out: &mut Vec<char>, b: &Vec<char>)
    ensures
        final(out)@ == old(out)@ + b@,
{
    let ghost start = out@;
    for k in 0..b.len()
        invariant
            out@ == start + b@.take(k as int),
    {
        out.push(b[k]);
        assert(b@.take(k + 1) =~= b@.take(k as int).push(b@[k as int]));
    }
    assert(b@.take(b@.len() as int) =~= b@);
}

/// Where the first `new Card(` of `a` begins (see `first_card`).
fn find_card(a: &Vec<char>, open: &Vec<char>) -> (r: Option<usize>)
    requires
        open@ == card_open(),
    ensures
        match r {
            Some(i) => first_card(a@, 0) == i && i + open@.len() <= a@.len(),
            None => first_card(a@, 0) < 0,
        },
{
    let mut k: usize = 0;
    while k < a.len() && open.len() <= a.len() - k
        invariant
            open@ == card_open(),
            first_card(a@, 0) == first_card(a@, k as int),
        decreases a.len() - k,
    {
        if crate::text::matches_at(a, open, k) {
            return Some(k);
        }
        k += 1;
    }
    None
}

/// Where the parenthesis opened just before `a` closes (see `close_paren`).
fn find_close(a: &Vec<char>) -> (r: Option<usize>)
    ensures
        match r {
            Some(j) => close_paren(a@, 0, 1) == j && j < a@.len(),
            None => !(0 <= close_paren(a@, 0, 1) < a@.len()),
        },
{
    let mut k: usize = 0;
    let mut depth: u128 = 1;
    while k < a.len()
        invariant
            1 <= depth <= k + 1,
            k <= a@.len(),
            close_paren(a@, 0, 1) == close_paren(a@, k as int, depth as nat),
        decreases a.len() - k,
    {
        if a[k] == '(' {
            depth = depth + 1;
        } else if a[k] == ')' {
            if depth <= 1 {
                return Some(k);
            }
            depth = depth - 1;
        }
        k += 1;
    }
    None
}

/// Rewrites the cards of `a` (see `cards`).
fn rewrite_cards(a: &Vec<char>, open: &Vec<char>, head: &Vec<char>, tail: &Vec<char>) -> (r: Vec<char>)
    requires
        open@ == card_open(),
        head@ == "Box::new(Card { content: "@,
        tail@ == ", width: None })"@,
    ensures
        r@ == cards(a@),
    decreases a@.len(),
{
    let found = find_card(a, open);
    match found {
        None => slice_chars(a, 0, a.len()),
        Some(i) => {
            assert(open@.len() == 9);
            let n = a.len();
            assert(i + 9 <= n);
            let rest = slice_chars(a, i + 9, n);
            let mut out = slice_chars(a, 0, i);
            push_chars(&mut out, head);
            match find_close(&rest) {
                Some(j) => {
                    let inner = slice_chars(&rest, 0, j);
                    let after = slice_chars(&rest, j + 1, rest.len());
                    let c1 = rewrite_cards(&inner, open, head, tail);
                    push_chars(&mut out, &c1);
                    push_chars(&mut out, tail);
                    let c2 = rewrite_cards(&after, open, head, tail);
                    push_chars(&mut out, &c2);
                },
                None => {
                    let c = rewrite_cards(&rest, open, head, tail);
                    push_chars(&mut out, &c);
                },
            }
            assert(out@ =~= cards(a@));
            out
        },
    }
}

/// Rewrites a `Build` body: its cards, then line by line (see `body_out`).
fn transpile_body(body: &str, rx: &LinePatterns) -> (r: String)
    requires
        rx.wf(),
    ensures
        r@ == body_out(body@),
        line_breaks(r@) == non_blank_lines(lines_of(cards(body@))),
{
    let src = chars_of(body);
    proof {
        reveal_strlit("new Card(");
    }
    assert("new Card("@ =~= card_open());
    let a = rewrite_cards(
        &src,
        &chars_of("new Card("),
        &chars_of("Box::new(Card { content: "),
        &chars_of(", width: None })"),
    );
    let mut out = String::new();
    let mut line: Vec<char> = Vec::new();
    let ghost mut done: Seq<Seq<char>> = Seq::empty();
    assert(a@.skip(0) =~= a@);
    assert(done + split_from(a@.skip(0), line@) =~= lines_of(a@));
    for i in 0..a.len()
        invariant
            rx.wf(),
            a@ == cards(body@),
            out@ + body_from(a@.skip(i as int), line@) == body_out(body@),
            done + split_from(a@.skip(i as int), line@) == lines_of(a@),
            no_line_break(line@),
            line_breaks(out@) == non_blank_lines(done),
    {
        let ghost rest = a@.skip(i as int);
        let ghost before = out@;
        let ghost old_line = line@;
        let ghost old_done = done;
        assert(rest.drop_first() =~= a@.skip(i + 1));
        assert(rest[0] == a@[i as int]);
        if a[i] == '\n' {
            emit_line(&line, rx, &mut out);
            line = Vec::new();
            proof {
                done = done.push(old_line);
                lemma_line_breaks_concat(before, line_out(old_line));
                assert(done.drop_last() =~= old_done);
                assert(done + split_from(a@.skip(i + 1), line@) =~= old_done + split_from(rest, old_line));
            }
            assert(out@ + body_from(a@.skip(i + 1), line@) =~= before + body_from(rest, old_line));
        } else {
            line.push(a[i]);
        }
    }
    assert(a@.skip(a.len() as int) =~= Seq::<char>::empty());
    let ghost before = out@;
    emit_line(&line, rx, &mut out);
    proof {
        lemma_line_breaks_concat(before, line_out(line@));
        assert(lines_of(a@) =~= done.push(line@));
        assert(done.push(line@).drop_last() =~= done);
    }
    out
}

/// Why a C# view could not be rewritten.
#[derive(Debug, PartialEq, Eq, Structural)]
pub enum ViewTranspileError {
    /// One of the patterns was refused by the regex engine.
    InvalidPattern,
    /// A pattern matched but its capture group took no part in the match.
    MissingGroup,
}

/// The text of a capture that has to be there: `Err(MissingGroup)` when the group
/// took no part in the match.
pub open spec fn required_capture(c: Option<Option<Seq<char>>>, default: Seq<char>) -> Result<
    Seq<char>,
    ViewTranspileError,
> {
    match c {
        None => Ok(default),
        Some(None) => Err(ViewTranspileError::MissingGroup),
        Some(Some(t)) => Ok(t),
    }
}

/// What `transpile_view_source` gives for `content`.
pub open spec fn view_source_result(content: Seq<char>) -> Result<Seq<char>, ViewTranspileError> {
    if !regex_accepts(CLASS_PATTERN@) {
        Err(ViewTranspileError::InvalidPattern)
    } else {
        match required_capture(regex_first_capture(CLASS_PATTERN@, content, 1), "App"@) {
            Err(e) => Err(e),
            Ok(name) => if !regex_accepts(BUILD_PATTERN@) {
                Err(ViewTranspileError::InvalidPattern)
            } else {
                match regex_first_capture(BUILD_PATTERN@, content, 1) {
                    Some(None) => Err(ViewTranspileError::MissingGroup),
                    captured => if !regex_accepts(STATE_PATTERN@) || !regex_accepts(GAP_PATTERN@)
                        || !regex_accepts(PADDING_PATTERN@) || !regex_accepts(TEXT_PATTERN@)
                        || !regex_accepts(SIZE_PATTERN@) || !regex_accepts(TERNARY_PATTERN@) {
                        Err(ViewTranspileError::InvalidPattern)
                    } else {
                        let body = match captured {
                            Some(Some(b)) => body_out(b),
                            _ => Seq::empty(),
                        };
                        Ok(
                            "use crate::prelude::*;\n\n"@ + "pub struct "@ + name + ";\n\n"@
                                + "impl "@ + name + " {\n"@
                                + "    pub fn build() -> Box<dyn Widget> {\n"@ + body
                                + "    }\n"@ + "}\n"@,
                        )
                    },
                }
            },
        }
    }
}

/// The lines of the rest `s` of a text when `line` has been read of the current one:
/// the text split at every `'\n'`.
pub open spec fn split_from(s: Seq<char>, line: Seq<char>) -> Seq<Seq<char>>
    decreases s.len(),
{
    if s.len() == 0 {
        seq![line]
    } else if s[0] == '\n' {
        seq![line] + split_from(s.drop_first(), Seq::empty())
    } else {
        split_from(s.drop_first(), line.push(s[0]))
    }
}

/// The lines of `s`, split at every `'\n'`.
pub open spec fn lines_of(s: Seq<char>) -> Seq<Seq<char>> {
    split_from(s, Seq::empty())
}

/// What a sequence of lines becomes, line after line.
pub open spec fn lines_out(ls: Seq<Seq<char>>) -> Seq<char>
    decreases ls.len(),
{
    if ls.len() == 0 {
        Seq::empty()
    } else {
        line_out(ls[0]) + lines_out(ls.drop_first())
    }
}

proof fn lemma_body_from_lines(s: Seq<char>, line: Seq<char>)
    ensures
        body_from(s, line) == lines_out(split_from(s, line)),
    decreases s.len(),
{
    if s.len() == 0 {
        assert(seq![line].drop_first() =~= Seq::<Seq<char>>::empty());
        assert(lines_out(seq![line]) == line_out(line) + lines_out(Seq::<Seq<char>>::empty()));
        assert(line_out(line) + Seq::<char>::empty() =~= line_out(line));
    } else if s[0] == '\n' {
        lemma_body_from_lines(s.drop_first(), Seq::empty());
        let rest = split_from(s.drop_first(), Seq::empty());
        let ls = seq![line] + rest;
        assert(ls.drop_first() =~= rest);
        assert(ls[0] == line);
        assert(split_from(s, line) == ls);
        assert(lines_out(ls) == line_out(line) + lines_out(rest));
    } else {
        lemma_body_from_lines(s.drop_first(), line.push(s[0]));
    }
}

proof fn lemma_lines_out_shape(ls: Seq<Seq<char>>)
    ensures
        lines_out(ls).len() == 0 <==> forall|i: int|
            0 <= i < ls.len() ==> #[trigger] trim_spec(ls[i]).len() == 0,
        lines_out(ls).len() > 0 ==> lines_out(ls).last() == '\n',
    decreases ls.len(),
{
    reveal_strlit("\n");
    reveal_strlit("        ");
    if ls.len() > 0 {
        lemma_lines_out_shape(ls.drop_first());
        assert forall|i: int| 0 < i < ls.len() implies #[trigger] trim_spec(ls[i]) == trim_spec(
            ls.drop_first()[i - 1],
        ) by {}
        if lines_out(ls).len() == 0 {
            assert forall|i: int| 0 <= i < ls.len() implies #[trigger] trim_spec(ls[i]).len() == 0 by {
                if i > 0 {
                    assert(trim_spec(ls.drop_first()[i - 1]).len() == 0);
                }
            }
        }
        if forall|i: int| 0 <= i < ls.len() ==> #[trigger] trim_spec(ls[i]).len() == 0 {
            assert(trim_spec(ls[0]).len() == 0);
            assert forall|i: int| 0 <= i < ls.drop_first().len() implies #[trigger] trim_spec(
                ls.drop_first()[i],
            ).len() == 0 by {
                assert(trim_spec(ls[i + 1]).len() == 0);
            }
        }
        let t = trim_spec(ls[0]);
        if t.len() > 0 {
            let o = "        "@ + line_rewrite(t) + "\n"@;
            assert(o.last() == '\n');
        }
    }
}

/// A rewritten `Build` body is made line by line: the body, with its cards rewritten,
/// is split at every line break, and each line that is not blank becomes one output
/// line, in order (eight spaces, the trimmed line rewritten, a line break), while a
/// blank line becomes nothing. So the result is empty exactly when every line is
/// blank, and otherwise ends with a line break. A body without `new Card(` is split
/// as it stands.
pub proof fn law_body_lines(body: Seq<char>)
    ensures
        body_out(body) == lines_out(lines_of(cards(body))),
        forall|l: Seq<char>|
            #[trigger] line_out(l) == if trim_spec(l).len() == 0 {
                Seq::empty()
            } else {
                "        "@ + line_rewrite(trim_spec(l)) + "\n"@
            },
        body_out(body).len() == 0 <==> forall|i: int|
            0 <= i < lines_of(cards(body)).len() ==> #[trigger] trim_spec(
                lines_of(cards(body))[i],
            ).len() == 0,
        body_out(body).len() > 0 ==> body_out(body).last() == '\n',
        !occurs_in(body, card_open()) ==> body_out(body) == lines_out(lines_of(body)),
{
    lemma_body_from_lines(cards(body), Seq::empty());
    lemma_lines_out_shape(lines_of(cards(body)));
    lemma_first_card_found(body, 0);
}

proof fn lemma_split_len(s: Seq<char>, line: Seq<char>)
    ensures
        split_from(s, line).len() == line_breaks(s) + 1,
    decreases s.len(),
{
    if s.len() > 0 {
        let head = seq![s[0]];
        assert(head + s.drop_first() =~= s);
        lemma_line_breaks_concat(head, s.drop_first());
        assert(head.drop_last() =~= Seq::<char>::empty());
        assert(line_breaks(head.drop_last()) == 0);
        assert(head.last() == s[0]);
        if s[0] == '\n' {
            lemma_split_len(s.drop_first(), Seq::empty());
            assert(line_breaks(head) == 1);
            assert(split_from(s, line) == seq![line] + split_from(s.drop_first(), Seq::empty()));
        } else {
            assert(line_breaks(head) == 0);
            lemma_split_len(s.drop_first(), line.push(s[0]));
        }
    }
}

proof fn lemma_first_card_found(s: Seq<char>, k: int)
    ensures
        first_card(s, k) >= 0 ==> first_card(s, k) >= k && occurs_at(s, card_open(), first_card(s, k)),
    decreases s.len() - k,
{
    if !(k < 0 || k + card_open().len() > s.len()) && !occurs_at(s, card_open(), k) {
        lemma_first_card_found(s, k + 1);
    }
}

proof fn lemma_close_found(s: Seq<char>, k: int, depth: nat)
    ensures
        0 <= close_paren(s, k, depth) < s.len() ==> s[close_paren(s, k, depth)] == ')',
    decreases s.len() - k,
{
    if 0 <= k < s.len() {
        if s[k] == '(' {
            lemma_close_found(s, k + 1, depth + 1);
        } else if s[k] == ')' {
            if depth > 1 {
                lemma_close_found(s, k + 1, (depth - 1) as nat);
            }
        } else {
            lemma_close_found(s, k + 1, depth);
        }
    }
}

proof fn lemma_literal_breaks()
    ensures
        line_breaks(card_open()) == 0,
        line_breaks("Box::new(Card { content: "@) == 0,
        line_breaks(", width: None })"@) == 0,
        line_breaks(seq![')']) == 0,
{
    reveal_strlit("Box::new(Card { content: ");
    reveal_strlit(", width: None })");
    assert(no_line_break(card_open()));
    assert(no_line_break("Box::new(Card { content: "@));
    assert(no_line_break(", width: None })"@));
    assert(no_line_break(seq![')']));
    lemma_no_line_break_count(card_open());
    lemma_no_line_break_count("Box::new(Card { content: "@);
    lemma_no_line_break_count(", width: None })"@);
    lemma_no_line_break_count(seq![')']);
}

proof fn lemma_cards_breaks(s: Seq<char>)
    ensures
        line_breaks(cards(s)) == line_breaks(s),
    decreases s.len(),
{
    let i = first_card(s, 0);
    if !(i < 0 || i + card_open().len() > s.len()) {
        lemma_first_card_found(s, 0);
        lemma_literal_breaks();
        let pre = s.subrange(0, i);
        let rest = s.subrange(i + card_open().len(), s.len() as int);
        let head = "Box::new(Card { content: "@;
        let tail = ", width: None })"@;
        assert(s =~= pre + card_open() + rest);
        lemma_line_breaks_concat(pre, card_open());
        lemma_line_breaks_concat(pre + card_open(), rest);
        lemma_line_breaks_concat(pre, head);
        let j = close_paren(rest, 0, 1);
        if 0 <= j < rest.len() {
            lemma_close_found(rest, 0, 1);
            let inner = rest.subrange(0, j);
            let after = rest.subrange(j + 1, rest.len() as int);
            assert(rest =~= inner + seq![')'] + after);
            lemma_line_breaks_concat(inner, seq![')']);
            lemma_line_breaks_concat(inner + seq![')'], after);
            lemma_cards_breaks(inner);
            lemma_cards_breaks(after);
            lemma_line_breaks_concat(pre + head, cards(inner));
            lemma_line_breaks_concat(pre + head + cards(inner), tail);
            lemma_line_breaks_concat(pre + head + cards(inner) + tail, cards(after));
        } else {
            lemma_cards_breaks(rest);
            lemma_line_breaks_concat(pre + head, cards(rest));
        }
    }
}

/// Rewriting the cards of a body keeps its lines: the rewritten body has as many line
/// breaks, so as many lines, as the body, and a body without `new Card(` is left as it
/// is (so `law_body_lines` then speaks of the lines of the body itself).
pub proof fn law_cards_keep_lines(body: Seq<char>)
    ensures
        line_breaks(cards(body)) == line_breaks(body),
        lines_of(cards(body)).len() == lines_of(body).len(),
        lines_of(body).len() == line_breaks(body) + 1,
        !occurs_in(body, card_open()) ==> cards(body) == body,
{
    lemma_cards_breaks(body);
    lemma_split_len(body, Seq::empty());
    lemma_split_len(cards(body), Seq::empty());
    lemma_first_card_found(body, 0);
}

/// The name a rewritten view gets: the class that the source declares, or `App`.
pub open spec fn view_struct_name(content: Seq<char>) -> Seq<char> {
    match regex_first_capture(CLASS_PATTERN@, content, 1) {
        Some(Some(name)) => name,
        _ => "App"@,
    }
}

/// A rewritten view is a Rust file that starts with the prelude import and the
/// declaration of a struct named after the view's class (or `App` when the source
/// declares none), and that ends by closing its `build` function and its `impl` block.
pub proof fn law_view_source_declares_struct(content: Seq<char>)
    ensures
        view_source_result(content) matches Ok(s) ==> {
            &&& has_prefix(
                s,
                "use crate::prelude::*;\n\n"@ + "pub struct "@ + view_struct_name(content) + ";\n\n"@,
            )
            &&& has_suffix(s, "    }\n"@ + "}\n"@)
        },
{
    if let Ok(s) = view_source_result(content) {
        let name = view_struct_name(content);
        let p = "use crate::prelude::*;\n\n"@ + "pub struct "@ + name + ";\n\n"@;
        let body = match regex_first_capture(BUILD_PATTERN@, content, 1) {
            Some(Some(b)) => body_out(b),
            _ => Seq::empty(),
        };
        let mid = "impl "@ + name + " {\n"@ + "    pub fn build() -> Box<dyn Widget> {\n"@ + body;
        let q = "    }\n"@ + "}\n"@;
        assert(s =~= p + mid + q);
        assert(s.subrange(0, p.len() as int) =~= p);
        assert(s.subrange(s.len() - q.len(), s.len() as int) =~= q);
    }
}

/// The view of a rewrite result.
pub open spec fn result_view(r: Result<String, ViewTranspileError>) -> Result<
    Seq<char>,
    ViewTranspileError,
> {
    match r {
        Ok(s) => Ok(s@),
        Err(e) => Err(e),
    }
}

/// Compiles a pattern, mapping the regex error to the library's own.
fn compile(pattern: &str) -> (r: Result<CompiledRegex, ViewTranspileError>)
    ensures
        r is Ok <==> regex_accepts(pattern@),
        r matches Ok(c) ==> c@ == pattern@,
        r matches Err(e) ==> e == ViewTranspileError::InvalidPattern,
{
    match compile_regex(pattern) {
        Ok(c) => Ok(c),
        Err(_) => Err(ViewTranspileError::InvalidPattern),
    }
}

/// Rewrites a C# Ivy view into a Rust struct whose `build` holds the view's `Build`
/// body rewritten line by line (see `view_source_result`).
pub fn transpile_view_source(content: &str) -> (r: Result<String, ViewTranspileError>)
    ensures
        result_view(r) == view_source_result(content@),
        r is Ok ==> match regex_first_capture(BUILD_PATTERN@, content@, 1) {
            Some(Some(b)) => line_breaks(body_out(b)) == non_blank_lines(lines_of(cards(b))),
            _ => true,
        },
{
    let class_re = match compile(CLASS_PATTERN) {
        Ok(c) => c,
        Err(e) => return Err(e),
    };
    let class_name = match first_capture(&class_re, content, 1) {
        None => String::from_str("App"),
        Some(None) => return Err(ViewTranspileError::MissingGroup),
        Some(Some(n)) => n,
    };
    let build_re = match compile(BUILD_PATTERN) {
        Ok(c) => c,
        Err(e) => return Err(e),
    };
    let captured = first_capture(&build_re, content, 1);
    let body_text: Option<String> = match captured {
        Some(None) => return Err(ViewTranspileError::MissingGroup),
        Some(Some(b)) => Some(b),
        None => None,
    };
    let state = match compile(STATE_PATTERN) {
        Ok(c) => c,
        Err(e) => return Err(e),
    };
    let gap = match compile(GAP_PATTERN) {
        Ok(c) => c,
        Err(e) => return Err(e),
    };
    let padding = match compile(PADDING_PATTERN) {
        Ok(c) => c,
        Err(e) => return Err(e),
    };
    let text = match compile(TEXT_PATTERN) {
        Ok(c) => c,
        Err(e) => return Err(e),
    };
    let size = match compile(SIZE_PATTERN) {
        Ok(c) => c,
        Err(e) => return Err(e),
    };
    let ternary = match compile(TERNARY_PATTERN) {
        Ok(c) => c,
        Err(e) => return Err(e),
    };
    let rx = LinePatterns { state, gap, padding, text, size, ternary };
    let mut out = String::from_str("use crate::prelude::*;\n\n");
    out.append("pub struct ");
    out.append(class_name.as_str());
    out.append(";\n\n");
    out.append("impl ");
    out.append(class_name.as_str());
    out.append(" {\n");
    out.append("    pub fn build() -> Box<dyn Widget> {\n");
    match body_text {
        Some(b) => {
            let body = transpile_body(b.as_str(), &rx);
            out.append(body.as_str());
        },
        None => {},
    }
    out.append("    }\n");
    out.append("}\n");
    assert(result_view(Ok(out)) =~= view_source_result(content@));
    Ok(out)
}

} // verus!
