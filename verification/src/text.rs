use vstd::prelude::*;

verus! {

/// `needle` is a prefix of `hay`.
pub open spec fn has_prefix(hay: Seq<char>, needle: Seq<char>) -> bool {
    needle.len() <= hay.len() && hay.subrange(0, needle.len() as int) == needle
}

/// `needle` is a suffix of `hay`.
pub open spec fn has_suffix(hay: Seq<char>, needle: Seq<char>) -> bool {
    needle.len() <= hay.len() && hay.subrange(hay.len() - needle.len(), hay.len() as int)
        == needle
}

/// `needle` occurs in `hay` starting at position `i`.
pub open spec fn occurs_at(hay: Seq<char>, needle: Seq<char>, i: int) -> bool {
    0 <= i && i + needle.len() <= hay.len() && hay.subrange(i, i + needle.len()) == needle
}

/// `needle` occurs somewhere in `hay`.
pub open spec fn occurs_in(hay: Seq<char>, needle: Seq<char>) -> bool {
    exists|i: int| occurs_at(hay, needle, i)
}

/// Every character is an ASCII decimal digit (`char::is_digit(10)`).
pub open spec fn all_decimal_digits(s: Seq<char>) -> bool {
    forall|i: int| 0 <= i < s.len() ==> '0' <= #[trigger] s[i] && s[i] <= '9'
}

/// What follows the last occurrence of `sep` in `s` (all of `s` when `sep` does not
/// occur): the last item of `s.split(sep)`.
pub open spec fn after_last(s: Seq<char>, sep: char) -> Seq<char>
    decreases s.len(),
{
    if s.len() == 0 {
        s
    } else if s.last() == sep {
        Seq::empty()
    } else {
        after_last(s.drop_last(), sep).push(s.last())
    }
}

/// ASCII lower-casing of one character.
pub open spec fn ascii_lower_char(c: char) -> char {
    if 'A' <= c && c <= 'Z' {
        ((c as u32) + 32) as char
    } else {
        c
    }
}

/// Every character is ASCII.
pub open spec fn all_ascii(s: Seq<char>) -> bool {
    forall|i: int| 0 <= i < s.len() ==> (#[trigger] s[i] as u32) < 128
}

/// What `str::to_lowercase` gives back for a string; it follows the Unicode tables.
pub uninterp spec fn lowercase_of(s: Seq<char>) -> Seq<char>;

/// Character-wise equality of two string slices.
pub fn str_eq(a: &str, b: &str) -> (r: bool)
    ensures
        r == (a@ == b@),
{
    let x = chars_of(a);
    let y = chars_of(b);
    if x.len() != y.len() {
        return false;
    }
    for i in 0..x.len()
        invariant
            x@ == a@,
            y@ == b@,
            x@.len() == y@.len(),
            forall|j: int| 0 <= j < i ==> x@[j] == y@[j],
    {
        if x[i] != y[i] {
            return false;
        }
    }
    assert(x@ =~= y@);
    true
}

/// `str::to_lowercase`. The result is named by `lowercase_of`; std documents that
/// lowercase follows the Unicode `Lowercase` property, which on ASCII text maps
/// `A..=Z` to `a..=z` and leaves every other ASCII character as it is.
#[verifier::external_body]
pub(crate) fn to_lowercase(s: &str) -> (r: String)
    ensures
        r@ == lowercase_of(s@),
        all_ascii(s@) ==> r@ == s@.map_values(|c: char| ascii_lower_char(c)),
{
    s.to_lowercase()
}

/// `String::push`: appends one character.
#[verifier::external_body]
pub(crate) fn push_char(s: &mut String, c: char)
    ensures
        final(s)@ == old(s)@.push(c),
{
    s.push(c)
}

/// Every character of a string slice, in order.
pub fn chars_of(s: &str) -> (r: Vec<char>)
    ensures
        r@ == s@,
{
    let mut r: Vec<char> = Vec::new();
    for c in it: s.chars()
        invariant
            r@ == it.seq().take(it.index() as int),
            it.seq() == s@,
    {
        r.push(c);
    }
    r
}

/// A `String` holding exactly the given characters.
pub fn string_of(cs: &Vec<char>) -> (r: String)
    ensures
        r@ == cs@,
{
    let mut r = String::new();
    for i in 0..cs.len()
        invariant
            r@ == cs@.take(i as int),
    {
        push_char(&mut r, cs[i]);
        assert(cs@.take(i + 1) == cs@.take(i as int).push(cs@[i as int]));
    }
    assert(cs@.take(cs.len() as int) == cs@);
    r
}

/// `str::starts_with` with a string pattern.
pub fn starts_with(s: &str, prefix: &str) -> (r: bool)
    ensures
        r == has_prefix(s@, prefix@),
{
    let a = chars_of(s);
    let b = chars_of(prefix);
    if b.len() > a.len() {
        return false;
    }
    let mut i: usize = 0;
    while i < b.len()
        invariant
            a@ == s@,
            b@ == prefix@,
            b@.len() <= a@.len(),
            0 <= i <= b@.len(),
            forall|j: int| 0 <= j < i ==> a@[j] == b@[j],
        decreases b.len() - i,
    {
        if a[i] != b[i] {
            assert(a@.subrange(0, b@.len() as int)[i as int] != b@[i as int]);
            return false;
        }
        i += 1;
    }
    assert(a@.subrange(0, b@.len() as int) =~= b@);
    true
}

/// `str::ends_with` with a string pattern.
pub fn ends_with(s: &str, suffix: &str) -> (r: bool)
    ensures
        r == has_suffix(s@, suffix@),
{
    let a = chars_of(s);
    let b = chars_of(suffix);
    if b.len() > a.len() {
        return false;
    }
    let off: usize = a.len() - b.len();
    let mut i: usize = 0;
    while i < b.len()
        invariant
            a@ == s@,
            b@ == suffix@,
            a@.len() == a.len(),
            b@.len() <= a@.len(),
            off + b@.len() == a@.len(),
            0 <= i <= b@.len(),
            forall|j: int| 0 <= j < i ==> a@[off + j] == b@[j],
        decreases b.len() - i,
    {
        if a[off + i] != b[i] {
            assert(a@.subrange(off as int, a@.len() as int)[i as int] != b@[i as int]);
            return false;
        }
        i += 1;
    }
    assert(a@.subrange(off as int, a@.len() as int) =~= b@);
    true
}

/// Whether `needle` occurs in `hay` at position `start` (character positions).
pub(crate) fn matches_at(hay: &Vec<char>, needle: &Vec<char>, start: usize) -> (r: bool)
    requires
        start + needle@.len() <= hay@.len(),
    ensures
        r == occurs_at(hay@, needle@, start as int),
{
    let mut i: usize = 0;
    while i < needle.len()
        invariant
            start + needle@.len() <= hay@.len(),
            hay@.len() == hay.len(),
            0 <= i <= needle@.len(),
            forall|j: int| 0 <= j < i ==> hay@[start + j] == needle@[j],
        decreases needle.len() - i,
    {
        if hay[start + i] != needle[i] {
            assert(hay@.subrange(start as int, start + needle@.len())[i as int] != needle@[i as int]);
            return false;
        }
        i += 1;
    }
    assert(hay@.subrange(start as int, start + needle@.len()) =~= needle@);
    true
}

/// `str::contains` with a string pattern.
pub fn contains(s: &str, needle: &str) -> (r: bool)
    ensures
        r == occurs_in(s@, needle@),
{
    let a = chars_of(s);
    let b = chars_of(needle);
    if b.len() > a.len() {
        return false;
    }
    if b.len() == 0 {
        assert(a@.subrange(0, 0) =~= b@);
        assert(occurs_at(a@, b@, 0));
        return true;
    }
    let last: usize = a.len() - b.len();
    let mut i: usize = 0;
    while i <= last
        invariant
            a@ == s@,
            b@ == needle@,
            a@.len() == a.len(),
            b@.len() <= a@.len(),
            0 < b@.len(),
            last == a@.len() - b@.len(),
            0 <= i <= last + 1,
            forall|j: int| 0 <= j < i ==> !occurs_at(a@, b@, j),
        decreases last + 1 - i,
    {
        if matches_at(&a, &b, i) {
            assert(occurs_at(a@, b@, i as int));
            return true;
        }
        i += 1;
    }
    assert forall|j: int| !occurs_at(a@, b@, j) by {
        if 0 <= j < i {
        }
    }
    false
}

/// Whether every character is an ASCII decimal digit.
pub fn is_all_decimal_digits(s: &str) -> (r: bool)
    ensures
        r == all_decimal_digits(s@),
{
    let a = chars_of(s);
    for i in 0..a.len()
        invariant
            a@ == s@,
            forall|j: int| 0 <= j < i ==> '0' <= a@[j] && a@[j] <= '9',
    {
        if !('0' <= a[i] && a[i] <= '9') {
            return false;
        }
    }
    true
}

proof fn lemma_after_last_take(s: Seq<char>, sep: char, i: int)
    requires
        0 <= i < s.len(),
        s[i] != sep,
    ensures
        after_last(s.take(i + 1), sep) == after_last(s.take(i), sep).push(s[i]),
{
    assert(s.take(i + 1).drop_last() =~= s.take(i));
}

/// The part of `s` after the last `sep` (all of `s` when there is none): what
/// `s.split(sep).last()` gives.
pub fn segment_after_last(s: &str, sep: char) -> (r: String)
    ensures
        r@ == after_last(s@, sep),
{
    let a = chars_of(s);
    let mut seg: Vec<char> = Vec::new();
    for i in 0..a.len()
        invariant
            a@ == s@,
            seg@ == after_last(a@.take(i as int), sep),
    {
        if a[i] == sep {
            assert(a@.take(i + 1).last() == sep);
            seg = Vec::new();
        } else {
            proof { lemma_after_last_take(a@, sep, i as int); }
            seg.push(a[i]);
        }
    }
    assert(a@.take(a.len() as int) == a@);
    string_of(&seg)
}

/// `char::is_whitespace`: the Unicode `White_Space` property.
pub open spec fn is_unicode_whitespace(c: char) -> bool {
    let u = c as u32;
    (0x9 <= u && u <= 0xD) || u == 0x20 || u == 0x85 || u == 0xA0 || u == 0x1680 || (0x2000 <= u
        && u <= 0x200A) || u == 0x2028 || u == 0x2029 || u == 0x202F || u == 0x205F || u == 0x3000
}

/// `s` without its leading whitespace.
pub open spec fn trim_start_spec(s: Seq<char>) -> Seq<char>
    decreases s.len(),
{
    if s.len() > 0 && is_unicode_whitespace(s[0]) {
        trim_start_spec(s.drop_first())
    } else {
        s
    }
}

/// `s` without its trailing whitespace.
pub open spec fn trim_end_spec(s: Seq<char>) -> Seq<char>
    decreases s.len(),
{
    if s.len() > 0 && is_unicode_whitespace(s.last()) {
        trim_end_spec(s.drop_last())
    } else {
        s
    }
}

/// `str::trim`: `s` without leading and trailing whitespace.
pub open spec fn trim_spec(s: Seq<char>) -> Seq<char> {
    trim_end_spec(trim_start_spec(s))
}

/// Whether `c` is whitespace (`char::is_whitespace`).
pub fn is_whitespace(c: char) -> (r: bool)
    ensures
        r == is_unicode_whitespace(c),
{
    let u = c as u32;
    (0x9 <= u && u <= 0xD) || u == 0x20 || u == 0x85 || u == 0xA0 || u == 0x1680 || (0x2000 <= u
        && u <= 0x200A) || u == 0x2028 || u == 0x2029 || u == 0x202F || u == 0x205F || u == 0x3000
}

/// `str::trim`: the characters of `s` without leading and trailing whitespace.
pub fn trim_chars(s: &Vec<char>) -> (r: Vec<char>)
    ensures
        r@ == trim_spec(s@),
{
    let mut lo: usize = 0;
    assert(s@.skip(0) =~= s@);
    while lo < s.len() && is_whitespace(s[lo])
        invariant
            0 <= lo <= s@.len(),
            trim_start_spec(s@) == trim_start_spec(s@.skip(lo as int)),
        decreases s.len() - lo,
    {
        assert(s@.skip(lo as int).drop_first() =~= s@.skip(lo + 1));
        lo += 1;
    }
    assert(trim_start_spec(s@.skip(lo as int)) == s@.skip(lo as int));
    let ghost t = s@.skip(lo as int);
    let mut hi: usize = s.len();
    while hi > lo && is_whitespace(s[hi - 1])
        invariant
            lo <= hi <= s@.len(),
            t == s@.skip(lo as int),
            trim_end_spec(t) == trim_end_spec(s@.subrange(lo as int, hi as int)),
        decreases hi,
    {
        assert(s@.subrange(lo as int, hi as int).drop_last() =~= s@.subrange(lo as int, hi - 1));
        hi -= 1;
    }
    assert(s@.skip(lo as int) =~= s@.subrange(lo as int, s@.len() as int));
    let mut r: Vec<char> = Vec::new();
    let mut k: usize = lo;
    while k < hi
        invariant
            lo <= k <= hi,
            hi <= s@.len(),
            r@ == s@.subrange(lo as int, k as int),
        decreases hi - k,
    {
        r.push(s[k]);
        assert(s@.subrange(lo as int, k + 1) =~= s@.subrange(lo as int, k as int).push(s@[k as int]));
        k += 1;
    }
    r
}

/// `s` with every leftmost non-overlapping occurrence of the non-empty `from` replaced
/// by `to`, scanning left to right (`str::replace`).
pub open spec fn replace_spec(s: Seq<char>, from: Seq<char>, to: Seq<char>) -> Seq<char>
    recommends
        from.len() > 0,
    decreases s.len(),
{
    if from.len() == 0 || s.len() < from.len() {
        s
    } else if s.subrange(0, from.len() as int) == from {
        to + replace_spec(s.skip(from.len() as int), from, to)
    } else {
        seq![s[0]] + replace_spec(s.drop_first(), from, to)
    }
}

/// Replacing a pattern that does not occur leaves the text as it is.
pub proof fn law_replace_absent_pattern(s: Seq<char>, from: Seq<char>, to: Seq<char>)
    requires
        from.len() > 0,
        !occurs_in(s, from),
    ensures
        replace_spec(s, from, to) == s,
    decreases s.len(),
{
    if s.len() >= from.len() {
        assert(!occurs_at(s, from, 0));
        assert forall|i: int| !occurs_at(s.drop_first(), from, i) by {
            if occurs_at(s.drop_first(), from, i) {
                assert(s.subrange(i + 1, i + 1 + from.len()) =~= s.drop_first().subrange(
                    i,
                    i + from.len(),
                ));
                assert(occurs_at(s, from, i + 1));
            }
        }
        law_replace_absent_pattern(s.drop_first(), from, to);
        assert(seq![s[0]] + s.drop_first() =~= s);
    }
}

/// Every character of a replacement comes from the text or from what replaces.
pub proof fn lemma_replace_chars(s: Seq<char>, from: Seq<char>, to: Seq<char>)
    ensures
        forall|i: int|
            0 <= i < replace_spec(s, from, to).len() ==> s.contains(
                #[trigger] replace_spec(s, from, to)[i],
            ) || to.contains(replace_spec(s, from, to)[i]),
    decreases s.len(),
{
    let r = replace_spec(s, from, to);
    if from.len() == 0 || s.len() < from.len() {
        assert forall|i: int| 0 <= i < r.len() implies s.contains(#[trigger] r[i]) || to.contains(r[i]) by {
            assert(s[i] == r[i]);
        }
    } else if s.subrange(0, from.len() as int) == from {
        let rest = s.skip(from.len() as int);
        lemma_replace_chars(rest, from, to);
        let rr = replace_spec(rest, from, to);
        assert(r == to + rr);
        assert forall|i: int| 0 <= i < r.len() implies s.contains(#[trigger] r[i]) || to.contains(r[i]) by {
            if i < to.len() {
                assert(to[i] == r[i]);
            } else {
                assert(r[i] == rr[i - to.len()]);
                if rest.contains(rr[i - to.len()]) {
                    let k = choose|k: int| 0 <= k < rest.len() && rest[k] == rr[i - to.len()];
                    assert(s[k + from.len()] == rest[k]);
                }
            }
        }
    } else {
        let rest = s.drop_first();
        lemma_replace_chars(rest, from, to);
        let rr = replace_spec(rest, from, to);
        assert(r == seq![s[0]] + rr);
        assert forall|i: int| 0 <= i < r.len() implies s.contains(#[trigger] r[i]) || to.contains(r[i]) by {
            if i == 0 {
                assert(s[0] == r[0]);
            } else {
                assert(r[i] == rr[i - 1]);
                if rest.contains(rr[i - 1]) {
                    let k = choose|k: int| 0 <= k < rest.len() && rest[k] == rr[i - 1];
                    assert(s[k + 1] == rest[k]);
                }
            }
        }
    }
}

/// Up to the first `c` of a replacement, the replacement is the text itself, when every
/// replacement text starts with `c` (the first character of `from`).
proof fn lemma_replace_prefix(s: Seq<char>, from: Seq<char>, to: Seq<char>, m: int)
    requires
        from.len() > 0,
        to.len() > 0,
        to[0] == from[0],
        0 <= m <= replace_spec(s, from, to).len(),
        forall|j: int| 0 <= j < m ==> #[trigger] replace_spec(s, from, to)[j] != from[0],
    ensures
        m <= s.len(),
        replace_spec(s, from, to).subrange(0, m) == s.subrange(0, m),
    decreases s.len(),
{
    let r = replace_spec(s, from, to);
    if s.len() < from.len() {
    } else if s.subrange(0, from.len() as int) == from {
        if m > 0 {
            assert(r[0] == to[0]);
        }
    } else if m > 0 {
        let rest = s.drop_first();
        let rr = replace_spec(rest, from, to);
        assert(r == seq![s[0]] + rr);
        assert forall|j: int| 0 <= j < m - 1 implies rr[j] != from[0] by {
            assert(r[j + 1] == rr[j]);
        }
        lemma_replace_prefix(rest, from, to, m - 1);
        assert(r.subrange(0, m) =~= s.subrange(0, m)) by {
            assert forall|j: int| 0 <= j < m implies r[j] == s[j] by {
                if j > 0 {
                    assert(r[j] == rr[j - 1]);
                    assert(rr.subrange(0, m - 1)[j - 1] == rest.subrange(0, m - 1)[j - 1]);
                }
            }
        }
    }
}

/// Replacing `from` by a text of the same length that starts with the same character,
/// where that character stands nowhere else in either, leaves no `from` behind.
pub proof fn lemma_replace_removes(s: Seq<char>, from: Seq<char>, to: Seq<char>)
    requires
        from.len() > 0,
        to.len() == from.len(),
        to != from,
        to[0] == from[0],
        forall|j: int| 0 < j < from.len() ==> #[trigger] from[j] != from[0],
        forall|j: int| 0 < j < to.len() ==> #[trigger] to[j] != from[0],
    ensures
        !occurs_in(replace_spec(s, from, to), from),
    decreases s.len(),
{
    let r = replace_spec(s, from, to);
    let n = from.len() as int;
    if s.len() < from.len() {
    } else if s.subrange(0, n) == from {
        let rest = s.skip(n);
        let rr = replace_spec(rest, from, to);
        lemma_replace_removes(rest, from, to);
        assert(r == to + rr);
        assert forall|k: int| !occurs_at(r, from, k) by {
            if occurs_at(r, from, k) {
                if k == 0 {
                    assert(r.subrange(0, n) =~= to);
                } else if k < n {
                    assert(r.subrange(k, k + n)[0] == r[k]);
                    assert(r[k] == to[k]);
                } else {
                    assert(r.subrange(k, k + n) =~= rr.subrange(k - n, k - n + n));
                    assert(occurs_at(rr, from, k - n));
                }
            }
        }
    } else {
        let rest = s.drop_first();
        let rr = replace_spec(rest, from, to);
        lemma_replace_removes(rest, from, to);
        assert(r == seq![s[0]] + rr);
        assert forall|k: int| !occurs_at(r, from, k) by {
            if occurs_at(r, from, k) {
                if k == 0 {
                    assert forall|j: int| 0 <= j < n - 1 implies rr[j] != from[0] by {
                        assert(r.subrange(0, n)[j + 1] == from[j + 1]);
                        assert(r[j + 1] == rr[j]);
                    }
                    lemma_replace_prefix(rest, from, to, n - 1);
                    assert forall|j: int| 0 <= j < n implies s[j] == from[j] by {
                        assert(r.subrange(0, n)[j] == from[j]);
                        if j > 0 {
                            assert(r[j] == rr[j - 1]);
                            assert(rr.subrange(0, n - 1)[j - 1] == rest.subrange(0, n - 1)[j - 1]);
                        }
                    }
                    assert(s.subrange(0, n) =~= from);
                } else {
                    assert(r.subrange(k, k + n) =~= rr.subrange(k - 1, k - 1 + n));
                    assert(occurs_at(rr, from, k - 1));
                }
            }
        }
    }
}

/// `str::replace` with a non-empty string pattern.
pub fn replace_literal(s: &str, from: &str, to: &str) -> (r: String)
    requires
        from@.len() > 0,
    ensures
        r@ == replace_spec(s@, from@, to@),
{
    let a = chars_of(s);
    let b = chars_of(from);
    let mut out = String::new();
    let mut i: usize = 0;
    assert(a@.skip(0) =~= a@);
    while i < a.len()
        invariant
            a@ == s@,
            b@ == from@,
            b@.len() > 0,
            a@.len() == a.len(),
            0 <= i <= a@.len(),
            out@ + replace_spec(a@.skip(i as int), b@, to@) == replace_spec(a@, b@, to@),
        decreases a.len() - i,
    {
        let ghost rest = a@.skip(i as int);
        let ghost before = out@;
        if b.len() <= a.len() - i && matches_at(&a, &b, i) {
            assert(rest.subrange(0, b@.len() as int) =~= a@.subrange(i as int, i + b@.len()));
            assert(rest.skip(b@.len() as int) =~= a@.skip(i + b@.len()));
            out.append(to);
            i += b.len();
            assert(out@ + replace_spec(a@.skip(i as int), b@, to@) =~= before + replace_spec(rest, b@, to@));
        } else {
            if b.len() <= a.len() - i {
                assert(rest.subrange(0, b@.len() as int) =~= a@.subrange(i as int, i + b@.len()));
            }
            assert(rest.drop_first() =~= a@.skip(i + 1));
            assert(rest[0] == a@[i as int]);
            push_char(&mut out, a[i]);
            i += 1;
            assert(out@ + replace_spec(a@.skip(i as int), b@, to@) =~= before + replace_spec(rest, b@, to@));
        }
    }
    assert(a@.skip(a.len() as int) =~= Seq::<char>::empty());
    out
}

} // verus!
