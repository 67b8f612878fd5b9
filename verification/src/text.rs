//! Text primitives: what the string operations of this crate mean on sequences of characters.

use vstd::prelude::*;
use vstd::utf8::*;

verus! {

/// `String::push` appends one character.
pub assume_specification[ std::string::String::push ](s: &mut std::string::String, ch: char)
    ensures
        final(s)@ == old(s)@.push(ch),
;

/// How `{:?}` writes a text.
pub uninterp spec fn debug_notation(s: Seq<char>) -> Seq<char>;

/// `format!` with `{:?}` writes a text in quotes, with escapes.
#[verifier::external_body]
pub(crate) fn quoted(s: &str) -> (r: String)
    ensures
        r@ == debug_notation(s@),
{
    format!("{s:?}")
}

/// `std::str::from_utf8` accepts exactly the byte sequences that are UTF-8, and decodes them.
#[verifier::external_body]
pub(crate) fn utf8_text(bytes: &[u8]) -> (r: Option<String>)
    ensures
        r.deep_view() == utf8_decoded(bytes@),
{
    std::str::from_utf8(bytes).ok().map(str::to_owned)
}

/// `String::from_utf16` accepts exactly the sequences of code units in which every surrogate
/// belongs to a pair, high before low, and decodes them.
#[verifier::external_body]
pub(crate) fn utf16_text(units: &[u16]) -> (r: Option<String>)
    ensures
        r.deep_view() == utf16_decoded(units@),
{
    String::from_utf16(units).ok()
}

pub open spec fn utf8_decoded(bytes: Seq<u8>) -> Option<Seq<char>> {
    if valid_utf8(bytes) {
        Some(decode_utf8(bytes))
    } else {
        None
    }
}

pub open spec fn is_high_surrogate(unit: u16) -> bool {
    0xd800 <= unit < 0xdc00
}

pub open spec fn is_low_surrogate(unit: u16) -> bool {
    0xdc00 <= unit < 0xe000
}

/// The text that UTF-16 code units stand for, or nothing where a surrogate stands alone.
pub open spec fn utf16_decoded(units: Seq<u16>) -> Option<Seq<char>>
    decreases units.len(),
{
    if units.len() == 0 {
        Some(Seq::empty())
    } else if !is_high_surrogate(units[0]) && !is_low_surrogate(units[0]) {
        match utf16_decoded(units.skip(1)) {
            Some(rest) => Some(seq![units[0] as char] + rest),
            None => None,
        }
    } else if is_high_surrogate(units[0]) && units.len() > 1 && is_low_surrogate(units[1]) {
        match utf16_decoded(units.skip(2)) {
            Some(rest) => Some(
                seq![
                    (0x10000 + (units[0] - 0xd800) * 0x400 + (units[1] - 0xdc00)) as char,
                ] + rest,
            ),
            None => None,
        }
    } else {
        None
    }
}

/// A result with a message as its error, by views.
pub open spec fn outcome<T: DeepView>(r: Result<T, String>) -> Result<T::V, Seq<char>> {
    match r {
        Ok(value) => Ok(value.deep_view()),
        Err(message) => Err(message@),
    }
}

/// The characters that `str::trim` removes: the Unicode `White_Space` property.
pub open spec fn white_space(c: char) -> bool {
    ||| '\u{9}' <= c <= '\u{d}'
    ||| c == ' '
    ||| c == '\u{85}'
    ||| c == '\u{a0}'
    ||| c == '\u{1680}'
    ||| '\u{2000}' <= c <= '\u{200a}'
    ||| c == '\u{2028}'
    ||| c == '\u{2029}'
    ||| c == '\u{202f}'
    ||| c == '\u{205f}'
    ||| c == '\u{3000}'
}

pub fn is_white_space(c: char) -> (r: bool)
    ensures
        r == white_space(c),
{
    ('\u{9}' <= c && c <= '\u{d}') || c == ' ' || c == '\u{85}' || c == '\u{a0}' || c == '\u{1680}'
        || ('\u{2000}' <= c && c <= '\u{200a}') || c == '\u{2028}' || c == '\u{2029}'
        || c == '\u{202f}' || c == '\u{205f}' || c == '\u{3000}'
}

/// The characters of a text, indexable.
pub fn chars_of(text: &str) -> (r: Vec<char>)
    ensures
        r@ == text@,
{
    let mut out: Vec<char> = Vec::new();
    for c in it: text.chars()
        invariant
            out@ == text@.take(it.index()),
            it.seq() == text@,
    {
        out.push(c);
    }
    out
}

/// The text made of the characters `from..to`.
pub fn text_between(chars: &Vec<char>, from: usize, to: usize) -> (r: String)
    requires
        from <= to <= chars@.len(),
    ensures
        r@ == chars@.subrange(from as int, to as int),
{
    let mut out = String::new();
    let mut i: usize = from;
    while i < to
        invariant
            from <= i <= to <= chars@.len(),
            out@ == chars@.subrange(from as int, i as int),
        decreases to - i,
    {
        out.push(chars[i]);
        i = i + 1;
    }
    out
}

/// Equality of texts.
pub fn same(a: &str, b: &str) -> (r: bool)
    ensures
        r == (a@ == b@),
{
    let x = a.as_bytes();
    let y = b.as_bytes();
    proof {
        encode_utf8_decode_utf8(a@);
        encode_utf8_decode_utf8(b@);
    }
    if x.len() != y.len() {
        return false;
    }
    let mut i: usize = 0;
    while i < x.len()
        invariant
            i <= x@.len() == y@.len(),
            x@ == encode_utf8(a@),
            y@ == encode_utf8(b@),
            forall|k: int| 0 <= k < i ==> x@[k] == y@[k],
        decreases x@.len() - i,
    {
        if x[i] != y[i] {
            return false;
        }
        i = i + 1;
    }
    assert(x@ =~= y@);
    true
}

/// A copy of a text; the copy has the same characters.
pub fn copy(text: &str) -> (r: String)
    ensures
        r@ == text@,
{
    text.to_owned()
}

pub open spec fn trim_start(s: Seq<char>) -> Seq<char>
    decreases s.len(),
{
    if s.len() > 0 && white_space(s[0]) {
        trim_start(s.skip(1))
    } else {
        s
    }
}

pub open spec fn trim_end(s: Seq<char>) -> Seq<char>
    decreases s.len(),
{
    if s.len() > 0 && white_space(s.last()) {
        trim_end(s.drop_last())
    } else {
        s
    }
}

/// The text without the white space at its two ends.
pub open spec fn trim(s: Seq<char>) -> Seq<char> {
    trim_end(trim_start(s))
}

fn skip_white_space(chars: &Vec<char>) -> (from: usize)
    ensures
        from <= chars@.len(),
        trim_start(chars@) == chars@.skip(from as int),
{
    let mut from: usize = 0;
    assert(chars@.skip(0) =~= chars@);
    while from < chars.len() && is_white_space(chars[from])
        invariant
            from <= chars@.len(),
            trim_start(chars@) == trim_start(chars@.skip(from as int)),
        decreases chars@.len() - from,
    {
        assert(chars@.skip(from as int).skip(1) =~= chars@.skip(from + 1));
        from = from + 1;
    }
    from
}

/// `str::trim`.
pub fn trimmed(text: &str) -> (r: String)
    ensures
        r@ == trim(text@),
{
    let chars = chars_of(text);
    let from = skip_white_space(&chars);
    let mut to: usize = chars.len();
    while to > from && is_white_space(chars[to - 1])
        invariant
            from <= to <= chars@.len(),
            trim_end(chars@.skip(from as int)) == trim_end(chars@.subrange(from as int, to as int)),
        decreases to - from,
    {
        assert(chars@.subrange(from as int, to as int).drop_last() =~= chars@.subrange(
            from as int,
            to - 1,
        ));
        to = to - 1;
    }
    text_between(&chars, from, to)
}

/// `str::trim_start`.
pub fn trimmed_start(text: &str) -> (r: String)
    ensures
        r@ == trim_start(text@),
{
    let chars = chars_of(text);
    let from = skip_white_space(&chars);
    text_between(&chars, from, chars.len())
}

/// Whether nothing but white space is in the text.
pub fn is_blank(text: &str) -> (r: bool)
    ensures
        r == (trim(text@).len() == 0),
{
    let text = trimmed(text);
    text.as_str().is_empty()
}

pub open spec fn first_index(s: Seq<char>, c: char) -> int
    decreases s.len(),
{
    if s.len() == 0 || s[0] == c {
        0
    } else {
        1 + first_index(s.skip(1), c)
    }
}

pub open spec fn last_index(s: Seq<char>, c: char) -> int
    decreases s.len(),
{
    if s.len() == 0 {
        -1
    } else if s.last() == c {
        s.len() - 1
    } else {
        last_index(s.drop_last(), c)
    }
}

/// What stands before and after the first `c`, where there is one.
pub open spec fn split_first(s: Seq<char>, c: char) -> Option<(Seq<char>, Seq<char>)> {
    let i = first_index(s, c);
    if i < s.len() {
        Some((s.take(i), s.skip(i + 1)))
    } else {
        None
    }
}

/// What stands before and after the last `c`, where there is one.
pub open spec fn split_last(s: Seq<char>, c: char) -> Option<(Seq<char>, Seq<char>)> {
    let i = last_index(s, c);
    if i >= 0 {
        Some((s.take(i), s.skip(i + 1)))
    } else {
        None
    }
}

pub proof fn lemma_first_index(s: Seq<char>, c: char, i: int)
    requires
        0 <= i <= s.len(),
        forall|k: int| 0 <= k < i ==> s[k] != c,
        i == s.len() || s[i] == c,
    ensures
        first_index(s, c) == i,
    decreases s.len(),
{
    if s.len() > 0 && s[0] != c {
        assert forall|k: int| 0 <= k < i - 1 implies s.skip(1)[k] != c by {
            assert(s.skip(1)[k] == s[k + 1]);
        }
        lemma_first_index(s.skip(1), c, i - 1);
    }
}

pub proof fn lemma_last_index(s: Seq<char>, c: char, i: int)
    requires
        -1 <= i < s.len(),
        forall|k: int| i < k < s.len() ==> s[k] != c,
        i == -1 || s[i] == c,
    ensures
        last_index(s, c) == i,
    decreases s.len(),
{
    if s.len() > 0 && s.last() != c {
        lemma_last_index(s.drop_last(), c, i);
    }
}

fn find_from(chars: &Vec<char>, c: char, from: usize) -> (i: usize)
    requires
        from <= chars@.len(),
    ensures
        from <= i <= chars@.len(),
        i == from + first_index(chars@.skip(from as int), c),
        i < chars@.len() ==> chars@[i as int] == c,
        forall|k: int| from <= k < i ==> chars@[k] != c,
{
    let mut i: usize = from;
    while i < chars.len() && chars[i] != c
        invariant
            from <= i <= chars@.len(),
            forall|k: int| from <= k < i ==> chars@[k] != c,
        decreases chars@.len() - i,
    {
        i = i + 1;
    }
    proof {
        let rest = chars@.skip(from as int);
        assert forall|k: int| 0 <= k < i - from implies rest[k] != c by {
            assert(rest[k] == chars@[from + k]);
        }
        lemma_first_index(rest, c, i - from);
    }
    i
}

/// `str::split_once` at a character.
pub fn split_once(text: &str, c: char) -> (r: Option<(String, String)>)
    ensures
        r.deep_view() == split_first(text@, c),
{
    let chars = chars_of(text);
    assert(chars@.skip(0) =~= chars@);
    let i = find_from(&chars, c, 0);
    if i < chars.len() {
        let before = text_between(&chars, 0, i);
        let after = text_between(&chars, i + 1, chars.len());
        assert(before@ =~= text@.take(i as int));
        assert(after@ =~= text@.skip(i + 1));
        Some((before, after))
    } else {
        None
    }
}

/// `str::rsplit_once` at a character.
pub fn rsplit_once(text: &str, c: char) -> (r: Option<(String, String)>)
    ensures
        r.deep_view() == split_last(text@, c),
{
    let chars = chars_of(text);
    let mut i: usize = chars.len();
    while i > 0 && chars[i - 1] != c
        invariant
            i <= chars@.len(),
            forall|k: int| i <= k < chars@.len() ==> chars@[k] != c,
        decreases i,
    {
        i = i - 1;
    }
    proof {
        lemma_last_index(chars@, c, i - 1);
    }
    if i > 0 {
        let before = text_between(&chars, 0, i - 1);
        let after = text_between(&chars, i, chars.len());
        assert(before@ =~= text@.take(i - 1));
        assert(after@ =~= text@.skip(i as int));
        Some((before, after))
    } else {
        None
    }
}

/// The pieces between the occurrences of `c`; there is one more piece than there are occurrences.
pub open spec fn pieces(s: Seq<char>, c: char) -> Seq<Seq<char>>
    decreases s.len(),
{
    let i = first_index(s, c);
    if 0 <= i < s.len() {
        seq![s.take(i)] + pieces(s.skip(i + 1), c)
    } else {
        seq![s]
    }
}

/// `str::split` at a character.
pub fn split(text: &str, c: char) -> (r: Vec<String>)
    ensures
        r.deep_view() == pieces(text@, c),
{
    let chars = chars_of(text);
    let mut out: Vec<String> = Vec::new();
    let mut from: usize = 0;
    assert(chars@.skip(0) =~= chars@);
    assert(out.deep_view() + pieces(chars@, c) =~= pieces(chars@, c));
    loop
        invariant_except_break
            from <= chars@.len(),
            out.deep_view() + pieces(chars@.skip(from as int), c) == pieces(chars@, c),
        ensures
            out.deep_view() == pieces(chars@, c),
        decreases chars@.len() + 1 - from,
    {
        let i = find_from(&chars, c, from);
        let piece = text_between(&chars, from, i);
        let ghost before = out.deep_view();
        let ghost rest = chars@.skip(from as int);
        out.push(piece);
        assert(out.deep_view() =~= before.push(piece@));
        if i < chars.len() {
            assert(piece@ =~= rest.take(i - from));
            assert(chars@.skip(i + 1) =~= rest.skip(i - from + 1));
            assert(out.deep_view() + pieces(chars@.skip(i + 1), c) =~= before + pieces(rest, c));
            from = i + 1;
        } else {
            assert(piece@ =~= rest);
            assert(out.deep_view() =~= before + pieces(rest, c));
            break;
        }
    }
    out
}

pub open spec fn strip_start(s: Seq<char>, c: char) -> Seq<char>
    decreases s.len(),
{
    if s.len() > 0 && s[0] == c {
        strip_start(s.skip(1), c)
    } else {
        s
    }
}

pub open spec fn strip_end(s: Seq<char>, c: char) -> Seq<char>
    decreases s.len(),
{
    if s.len() > 0 && s.last() == c {
        strip_end(s.drop_last(), c)
    } else {
        s
    }
}

/// `str::trim_matches` with a character.
pub fn stripped(text: &str, c: char) -> (r: String)
    ensures
        r@ == strip_end(strip_start(text@, c), c),
{
    let chars = chars_of(text);
    let mut from: usize = 0;
    assert(chars@.skip(0) =~= chars@);
    while from < chars.len() && chars[from] == c
        invariant
            from <= chars@.len(),
            strip_start(chars@, c) == strip_start(chars@.skip(from as int), c),
        decreases chars@.len() - from,
    {
        assert(chars@.skip(from as int).skip(1) =~= chars@.skip(from + 1));
        from = from + 1;
    }
    let mut to: usize = chars.len();
    while to > from && chars[to - 1] == c
        invariant
            from <= to <= chars@.len(),
            strip_end(chars@.skip(from as int), c) == strip_end(
                chars@.subrange(from as int, to as int),
                c,
            ),
        decreases to - from,
    {
        assert(chars@.subrange(from as int, to as int).drop_last() =~= chars@.subrange(
            from as int,
            to - 1,
        ));
        to = to - 1;
    }
    text_between(&chars, from, to)
}

pub open spec fn ascii_lower(c: char) -> char {
    if 'A' <= c <= 'Z' {
        (c as u32 + 32) as char
    } else {
        c
    }
}

/// Equality up to the case of the letters `A` to `Z`.
pub open spec fn same_ignoring_case(a: Seq<char>, b: Seq<char>) -> bool {
    &&& a.len() == b.len()
    &&& forall|i: int| 0 <= i < a.len() ==> ascii_lower(#[trigger] a[i]) == ascii_lower(b[i])
}

fn lower(c: char) -> (r: char)
    ensures
        r == ascii_lower(c),
{
    if 'A' <= c && c <= 'Z' {
        ((c as u8) + 32) as char
    } else {
        c
    }
}

/// `str::eq_ignore_ascii_case`.
pub fn equals_ignoring_case(a: &str, b: &str) -> (r: bool)
    ensures
        r == same_ignoring_case(a@, b@),
{
    let x = chars_of(a);
    let y = chars_of(b);
    if x.len() != y.len() {
        return false;
    }
    let mut i: usize = 0;
    while i < x.len()
        invariant
            i <= x@.len() == y@.len(),
            x@ == a@,
            y@ == b@,
            forall|k: int| 0 <= k < i ==> ascii_lower(#[trigger] x@[k]) == ascii_lower(y@[k]),
        decreases x@.len() - i,
    {
        if lower(x[i]) != lower(y[i]) {
            return false;
        }
        i = i + 1;
    }
    true
}

pub open spec fn occurs_at(s: Seq<char>, part: Seq<char>, i: int) -> bool {
    0 <= i && i + part.len() <= s.len() && s.subrange(i, i + part.len()) == part
}

/// Whether `part` is a part of `s`.
pub open spec fn occurs_in(s: Seq<char>, part: Seq<char>) -> bool {
    exists|i: int| occurs_at(s, part, i)
}

fn matches_at(chars: &Vec<char>, part: &Vec<char>, at: usize) -> (r: bool)
    requires
        at + part@.len() <= chars@.len(),
    ensures
        r == occurs_at(chars@, part@, at as int),
{
    let mut i: usize = 0;
    let n: usize = chars.len();
    while i < part.len()
        invariant
            i <= part@.len(),
            at + part@.len() <= chars@.len() == n,
            forall|k: int| 0 <= k < i ==> chars@[at + k] == part@[k],
        decreases part@.len() - i,
    {
        if chars[at + i] != part[i] {
            assert(chars@.subrange(at as int, at + part@.len())[i as int] != part@[i as int]);
            return false;
        }
        i = i + 1;
    }
    assert(chars@.subrange(at as int, at + part@.len()) =~= part@);
    true
}

/// `str::contains` with a text.
pub fn contains(text: &str, part: &str) -> (r: bool)
    ensures
        r == occurs_in(text@, part@),
{
    let chars = chars_of(text);
    let wanted = chars_of(part);
    if wanted.len() > chars.len() {
        return false;
    }
    let last: usize = chars.len() - wanted.len();
    let mut i: usize = 0;
    loop
        invariant
            i <= last,
            last + wanted@.len() == chars@.len(),
            chars@ == text@,
            wanted@ == part@,
            forall|k: int| 0 <= k < i ==> !occurs_at(chars@, wanted@, k),
        decreases last - i,
    {
        if matches_at(&chars, &wanted, i) {
            return true;
        }
        if i == last {
            return false;
        }
        i = i + 1;
    }
}

} // verus!
