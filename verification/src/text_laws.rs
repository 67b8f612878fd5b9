//! What the notations of texts, numbers and paths mean.

use crate::adapter;
use crate::adapter::OutputView;
use crate::adapter_polls;
use crate::dap;
use crate::dap::{FrameView, HeaderView};
use crate::debug_server::PingTimings;
use crate::info_base;
use crate::info_base::{ConnectionArgumentsView, InfoBaseTargetView};
use crate::json;
use crate::json::JsonView;
use crate::metadata;
use crate::number;
use crate::platform;
use crate::platform::{NotificationView, WaitView};
use crate::reading;
use crate::source_tree;
use crate::text;
use crate::xml;
use vstd::prelude::*;
use vstd::utf8::*;

verus! {

/// Decimal notation: the digits of a number are those of its tenth, followed by its last digit; a
/// negative number has a minus before it.
pub proof fn numbers_are_written_digit_by_digit(n: nat, d: int)
    requires
        0 <= d < 10,
    ensures
        number::decimal(d) == seq![('0' as int + d) as char],
        n > 0 ==> number::decimal(10 * n + d) == number::decimal(n as int).push(
            ('0' as int + d) as char,
        ),
        n > 0 ==> number::decimal(-(n as int)) == seq!['-'] + number::decimal(n as int),
{
    assert(number::digit(d) == ('0' as int + d) as char);
    if n > 0 {
        let m = (10 * n + d) as nat;
        assert(m / 10 == n && m % 10 == d);
    }
}

/// A number is read from its digits, with or without a sign, where it lies between the bounds; a
/// text with anything else in it is no number.
pub proof fn numbers_are_read_from_digits(s: Seq<char>, d: char, min: int, max: int, k: int)
    requires
        min <= 0 <= max,
    ensures
        '0' <= d <= '9' && number::all_digits(s) ==> number::digits_value(s.push(d)) == 10
            * number::digits_value(s) + (d as int - '0' as int),
        number::all_digits(s) && min <= number::digits_value(s) <= max ==> number::parsed(
            s,
            min,
            max,
        ) == Some(number::digits_value(s)) && number::parsed(seq!['+'] + s, min, max) == Some(
            number::digits_value(s),
        ),
        number::all_digits(s) && (number::digits_value(s) < min || number::digits_value(s) > max)
            ==> number::parsed(s, min, max) is None,
        number::all_digits(s) && min < 0 && min <= -number::digits_value(s) <= max
            ==> number::parsed(seq!['-'] + s, min, max) == Some(-number::digits_value(s)),
        number::all_digits(s) && min == 0 ==> number::parsed(seq!['-'] + s, min, max) is None,
        number::parsed(Seq::empty(), min, max) is None,
        1 <= k < s.len() && !('0' <= s[k] <= '9') ==> number::parsed(s, min, max) is None,
        s.len() > 0 && !('0' <= s[0] <= '9') && s[0] != '+' && s[0] != '-' ==> number::parsed(
            s,
            min,
            max,
        ) is None,
        s.len() == 1 && !('0' <= s[0] <= '9') ==> number::parsed(s, min, max) is None,
{
    assert(s.push(d).drop_last() =~= s);
    assert((seq!['+'] + s).skip(1) =~= s);
    assert((seq!['-'] + s).skip(1) =~= s);
    assert(!number::is_digit((seq!['+'] + s)[0]));
    assert(!number::is_digit((seq!['-'] + s)[0]));
    if 1 <= k < s.len() && !('0' <= s[k] <= '9') {
        assert(!number::is_digit(s[k]));
        assert(s.skip(1)[k - 1] == s[k]);
    }
    if s.len() > 0 && !('0' <= s[0] <= '9') {
        assert(!number::is_digit(s[0]));
    }
}

/// Each character that markup uses is escaped by its entity, any other stands for itself, and a
/// text is escaped character by character.
pub proof fn markup_is_escaped_by_entities(a: Seq<char>, b: Seq<char>, c: char)
    ensures
        xml::escaped(seq!['&']) == "&amp;"@,
        xml::escaped(seq!['<']) == "&lt;"@,
        xml::escaped(seq!['>']) == "&gt;"@,
        xml::escaped(seq!['"']) == "&quot;"@,
        xml::escaped(seq!['\'']) == "&apos;"@,
        c != '&' && c != '<' && c != '>' && c != '"' && c != '\'' ==> xml::escaped(seq![c])
            == seq![c],
        xml::escaped(a + b) == xml::escaped(a) + xml::escaped(b),
        xml::escaped(Seq::empty()) == Seq::<char>::empty(),
    decreases b.len(),
{
    lemma_escaped_one('&');
    lemma_escaped_one('<');
    lemma_escaped_one('>');
    lemma_escaped_one('"');
    lemma_escaped_one('\'');
    lemma_escaped_one(c);
    if b.len() == 0 {
        assert(a + b =~= a);
        assert(xml::escaped(a) + xml::escaped(b) =~= xml::escaped(a));
    } else {
        markup_is_escaped_by_entities(a, b.drop_last(), c);
        assert((a + b).drop_last() =~= a + b.drop_last());
        assert(xml::escaped(a) + xml::escaped(b.drop_last()) + xml::escape_of(b.last())
            =~= xml::escaped(a) + (xml::escaped(b.drop_last()) + xml::escape_of(b.last())));
    }
}

proof fn lemma_escaped_one(c: char)
    ensures
        xml::escaped(seq![c]) == xml::escape_of(c),
{
    assert(seq![c].drop_last() =~= Seq::empty());
    assert(xml::escaped(Seq::empty()) =~= Seq::empty());
    assert(xml::escaped(Seq::empty()) + xml::escape_of(c) =~= xml::escape_of(c));
}

/// The characters that are white space.
pub proof fn white_space_is_what_unicode_says(c: char)
    ensures
        text::white_space(c) <==> (c == '\t' || c == '\n' || c == '\u{b}' || c == '\u{c}' || c
            == '\r' || c == ' ' || c == '\u{85}' || c == '\u{a0}' || c == '\u{1680}' || ('\u{2000}'
            <= c && c <= '\u{200a}') || c == '\u{2028}' || c == '\u{2029}' || c == '\u{202f}' || c
            == '\u{205f}' || c == '\u{3000}'),
{
}

/// White space around a text is trimmed, and nothing else of it.
pub proof fn white_space_around_a_text_is_trimmed(before: Seq<char>, s: Seq<char>, after: Seq<char>)
    requires
        forall|i: int| 0 <= i < before.len() ==> text::white_space(#[trigger] before[i]),
        forall|i: int| 0 <= i < after.len() ==> text::white_space(#[trigger] after[i]),
        s.len() > 0 ==> !text::white_space(s[0]) && !text::white_space(s.last()),
    ensures
        text::trim(before + s + after) == s,
    decreases before.len() + after.len(),
{
    if before.len() > 0 {
        let whole = before + s + after;
        let rest = before.skip(1);
        assert(whole[0] == before[0]);
        assert(whole.skip(1) =~= rest + s + after);
        assert forall|i: int| 0 <= i < rest.len() implies text::white_space(#[trigger] rest[i]) by {
            assert(rest[i] == before[i + 1]);
        }
        white_space_around_a_text_is_trimmed(rest, s, after);
    } else {
        assert(before + s + after =~= s + after);
        if s.len() == 0 {
            assert(s + after =~= after);
            lemma_all_trimmed(after);
        } else {
            assert((s + after)[0] == s[0]);
            assert(text::trim_start(s + after) == s + after);
            lemma_end_trimmed(s, after);
        }
    }
}

proof fn lemma_all_trimmed(s: Seq<char>)
    requires
        forall|i: int| 0 <= i < s.len() ==> text::white_space(#[trigger] s[i]),
    ensures
        text::trim_start(s).len() == 0,
        text::trim(s) == Seq::<char>::empty(),
    decreases s.len(),
{
    if s.len() > 0 {
        assert(text::white_space(s[0]));
        let rest = s.skip(1);
        assert forall|i: int| 0 <= i < rest.len() implies text::white_space(#[trigger] rest[i]) by {
            assert(rest[i] == s[i + 1]);
        }
        lemma_all_trimmed(rest);
    }
}

proof fn lemma_end_trimmed(s: Seq<char>, after: Seq<char>)
    requires
        s.len() > 0,
        !text::white_space(s.last()),
        forall|i: int| 0 <= i < after.len() ==> text::white_space(#[trigger] after[i]),
    ensures
        text::trim_end(s + after) == s,
    decreases after.len(),
{
    if after.len() == 0 {
        assert(s + after =~= s);
    } else {
        let whole = s + after;
        assert(whole.last() == after[after.len() - 1]);
        assert(whole.drop_last() =~= s + after.drop_last());
        lemma_end_trimmed(s, after.drop_last());
    }
}

/// A text is split at the first or at the last place of a character, and not at all where it has
/// none.
pub proof fn texts_are_split_at_a_character(a: Seq<char>, c: char, b: Seq<char>)
    ensures
        !a.contains(c) ==> text::split_first(a + seq![c] + b, c) == Some((a, b)),
        !b.contains(c) ==> text::split_last(a + seq![c] + b, c) == Some((a, b)),
        !a.contains(c) ==> text::split_first(a, c) is None,
        !a.contains(c) ==> text::split_last(a, c) is None,
        !a.contains(c) ==> text::pieces(a, c) == seq![a],
        !a.contains(c) ==> text::pieces(a + seq![c] + b, c) == seq![a] + text::pieces(b, c),
{
    let whole = a + seq![c] + b;
    if !a.contains(c) {
        assert forall|k: int| 0 <= k < a.len() implies whole[k] != c by {
            assert(whole[k] == a[k]);
            assert(a.contains(a[k]));
        }
        text::lemma_first_index(whole, c, a.len() as int);
        assert forall|k: int| 0 <= k < a.len() implies a[k] != c by {
            assert(a.contains(a[k]));
        }
        text::lemma_first_index(a, c, a.len() as int);
        text::lemma_last_index(a, c, -1);
        assert(whole.take(a.len() as int) =~= a);
        assert(whole.skip(1int + a.len()) =~= b);
    }
    if !b.contains(c) {
        assert forall|k: int| a.len() < k < whole.len() implies whole[k] != c by {
            assert(whole[k] == b[k - a.len() - 1]);
            assert(b.contains(b[k - a.len() - 1]));
        }
        text::lemma_last_index(whole, c, a.len() as int);
        assert(whole.take(a.len() as int) =~= a);
        assert(whole.skip(1int + a.len()) =~= b);
    }
}

/// Texts are the same without regard to case where they are of one length and their characters are
/// the same, or the same Latin letter.
pub proof fn case_is_that_of_latin_letters(a: Seq<char>, b: Seq<char>, x: char, y: char)
    ensures
        text::same_ignoring_case(a, a),
        text::same_ignoring_case(a, b) == text::same_ignoring_case(b, a),
        a.len() != b.len() ==> !text::same_ignoring_case(a, b),
        text::same_ignoring_case(a.push(x), b.push(y)) == (text::same_ignoring_case(a, b) && (x == y
            || ('A' <= x && x <= 'Z' && y as int == x as int + 32) || ('A' <= y && y <= 'Z'
            && x as int == y as int + 32))),
{
    let p = a.push(x);
    let q = b.push(y);
    if text::same_ignoring_case(p, q) {
        assert forall|i: int| 0 <= i < a.len() implies text::ascii_lower(#[trigger] a[i])
            == text::ascii_lower(b[i]) by {
            assert(p[i] == a[i] && q[i] == b[i]);
        }
        assert(text::ascii_lower(p[a.len() as int]) == text::ascii_lower(q[a.len() as int]));
    }
    if text::same_ignoring_case(a, b) && text::ascii_lower(x) == text::ascii_lower(y) {
        assert forall|i: int| 0 <= i < p.len() implies text::ascii_lower(#[trigger] p[i])
            == text::ascii_lower(q[i]) by {
            if i < a.len() {
                assert(p[i] == a[i] && q[i] == b[i]);
            }
        }
    }
    if text::same_ignoring_case(a, b) {
        assert forall|i: int| 0 <= i < b.len() implies text::ascii_lower(#[trigger] b[i])
            == text::ascii_lower(a[i]) by {
            assert(text::ascii_lower(a[i]) == text::ascii_lower(b[i]));
        }
    }
    if text::same_ignoring_case(b, a) {
        assert forall|i: int| 0 <= i < a.len() implies text::ascii_lower(#[trigger] a[i])
            == text::ascii_lower(b[i]) by {
            assert(text::ascii_lower(b[i]) == text::ascii_lower(a[i]));
        }
    }
}

/// The extension of a file name stands behind its last dot, and its stem before it; a name that
/// begins with its only dot, or has none, has no extension.
pub proof fn file_names_have_a_stem_and_an_extension(stem: Seq<char>, extension: Seq<char>)
    requires
        !extension.contains('.'),
    ensures
        stem.len() > 0 ==> source_tree::extension(stem + seq!['.'] + extension) == Some(extension),
        stem.len() > 0 ==> source_tree::stem(stem + seq!['.'] + extension) == stem,
        source_tree::extension(extension) is None,
        source_tree::stem(extension) == extension,
        source_tree::extension(seq!['.'] + extension) is None,
        source_tree::stem(seq!['.'] + extension) == seq!['.'] + extension,
{
    texts_are_split_at_a_character(stem, '.', extension);
    texts_are_split_at_a_character(extension, '.', Seq::empty());
    texts_are_split_at_a_character(Seq::empty(), '.', extension);
    assert(Seq::<char>::empty() + seq!['.'] + extension =~= seq!['.'] + extension);
}

/// The local name of an element stands behind its prefix, where it has one.
pub proof fn local_names_have_no_prefix(prefix: Seq<char>, name: Seq<char>)
    requires
        !prefix.contains(':'),
    ensures
        xml::local(prefix + seq![':'] + name) == name,
        xml::local(prefix) == prefix,
{
    texts_are_split_at_a_character(prefix, ':', name);
}

/// A name is put behind a directory with one separator between them; an empty directory, or one
/// that ends with the separator, gets none. On Windows a slash separates too, and a bare drive
/// needs no separator.
pub proof fn paths_are_joined_by_one_separator(base: Seq<char>, name: Seq<char>, drive: char)
    ensures
        metadata::joined_path(Seq::empty(), '/', name) == name,
        base.len() > 0 && base.last() == '/' ==> metadata::joined_path(base, '/', name) == base
            + name,
        base.len() > 0 && base.last() != '/' ==> metadata::joined_path(base, '/', name) == base
            + seq!['/'] + name,
        !metadata::is_verbatim(base) && base.len() > 0 && (base.last() == '\\' || base.last() == '/')
            ==> metadata::joined_path(base, '\\', name) == base + name,
        !metadata::is_verbatim(base) && base.len() > 2 && base.last() != '\\' && base.last() != '/'
            ==> metadata::joined_path(base, '\\', name) == base + seq!['\\'] + name,
        'A' <= drive <= 'Z' ==> metadata::joined_path(seq![drive, ':'], '\\', name) == seq![
            drive,
            ':',
        ] + name,
{
    assert(Seq::<char>::empty() + name =~= name);
    assert(base.push('/') + name =~= base + seq!['/'] + name);
    assert(base.push('\\') + name =~= base + seq!['\\'] + name);
}

/// A message is sent behind a header that tells its length in bytes, and an empty line.
pub proof fn frames_tell_their_length(payload: Seq<u8>)
    ensures
        dap::framed(payload) == encode_utf8(
            "Content-Length: "@ + number::decimal(payload.len() as int) + "\r\n\r\n"@,
        ) + payload,
{
}

/// Input that ends before anything of a message was read ends the conversation; input that is not
/// there yet is waited for.
pub proof fn input_is_waited_for_until_it_ends()
    ensures
        dap::first_frame(Seq::empty(), true) is End,
        dap::first_frame(Seq::empty(), false) is Incomplete,
{
    assert(dap::headers(Seq::empty(), true, None, false) is End);
    assert(dap::headers(Seq::empty(), false, None, false) is Incomplete);
}

/// The bytes of a code unit come low first, or high first.
pub proof fn code_units_have_two_bytes(low: u8, high: u8)
    ensures
        platform::code_unit(low, high, true) == high * 256 + low,
        platform::code_unit(high, low, false) == high * 256 + low,
{
}

/// The byte order mark tells how a notification is encoded; without one it is UTF-8.
pub proof fn notifications_tell_their_encoding(bytes: Seq<u8>)
    ensures
        platform::notification_text(seq![0xffu8, 0xfeu8] + bytes) == platform::utf16_notification(
            bytes,
            true,
        ),
        platform::notification_text(seq![0xfeu8, 0xffu8] + bytes) == platform::utf16_notification(
            bytes,
            false,
        ),
        bytes.len() < 2 || bytes[0] < 0xfe ==> platform::notification_text(bytes) == match text::utf8_decoded(
            bytes,
        ) {
            Some(decoded) => Ok::<Seq<char>, Seq<char>>(decoded),
            None => Err("1C debug server notification is not valid UTF-8"@),
        },
        bytes.len() % 2 == 1 ==> platform::utf16_notification(bytes, true) is Err
            && platform::utf16_notification(bytes, false) is Err,
{
    assert((seq![0xffu8, 0xfeu8] + bytes).skip(2) =~= bytes);
    assert((seq![0xfeu8, 0xffu8] + bytes).skip(2) =~= bytes);
}

/// In UTF-16 a code unit outside the surrogates is a character, and a high surrogate with a low one
/// behind it is a character beyond the first plane; any other surrogate is none.
pub proof fn surrogates_come_in_pairs(unit: u16, low: u16, rest: Seq<u16>, decoded: Seq<char>)
    requires
        text::utf16_decoded(rest) == Some(decoded),
    ensures
        unit < 0xd800 || unit >= 0xe000 ==> text::utf16_decoded(seq![unit] + rest) == Some(
            seq![unit as char] + decoded,
        ),
        0xd800 <= unit < 0xdc00 && 0xdc00 <= low < 0xe000 ==> text::utf16_decoded(
            seq![unit, low] + rest,
        ) == Some(
            seq![(0x10000 + (unit - 0xd800) * 0x400 + (low - 0xdc00)) as char] + decoded,
        ),
        0xdc00 <= unit < 0xe000 ==> text::utf16_decoded(seq![unit] + rest) is None,
        0xd800 <= unit < 0xdc00 && !(0xdc00 <= low < 0xe000) ==> text::utf16_decoded(
            seq![unit, low] + rest,
        ) is None,
        0xd800 <= unit < 0xdc00 ==> text::utf16_decoded(seq![unit]) is None,
{
    assert((seq![unit] + rest).skip(1) =~= rest);
    assert((seq![unit, low] + rest).skip(2) =~= rest);
}

/// The port of a notification stands behind its last colon, with white space around the whole.
pub proof fn ports_stand_behind_the_last_colon(host: Seq<char>, port: u16)
    requires
        host.len() > 0,
        !text::white_space(host[0]),
    ensures
        port > 0 ==> platform::port_in(host + seq![':'] + number::decimal(port as int)) == Ok::<
            u16,
            Seq<char>,
        >(port),
        platform::port_in(host + seq![':'] + number::decimal(0)) == Err::<u16, Seq<char>>(
            "1C debug server notification contains port 0"@,
        ),
        !host.contains(':') && !text::white_space(host.last()) ==> platform::port_in(host) == Err::<
            u16,
            Seq<char>,
        >("1C debug server notification does not contain a port"@),
{
    lemma_port(host, port as int);
    lemma_port(host, 0);
    texts_are_split_at_a_character(host, ':', Seq::empty());
    if !text::white_space(host.last()) {
        white_space_around_a_text_is_trimmed(Seq::empty(), host, Seq::empty());
        assert(Seq::<char>::empty() + host + Seq::empty() =~= host);
    }
}

proof fn lemma_port(host: Seq<char>, port: int)
    requires
        host.len() > 0,
        !text::white_space(host[0]),
        0 <= port <= u16::MAX,
    ensures
        ({
            let notification = host + seq![':'] + number::decimal(port);
            &&& text::split_last(text::trim(notification), ':') == Some(
                (host, number::decimal(port)),
            )
            &&& number::parsed(number::decimal(port), 0, u16::MAX as int) == Some(port)
        }),
{
    let digits = number::decimal(port);
    number::lemma_digits_round_trip(port as nat);
    number::decimal_round_trip(port, 0, u16::MAX as int);
    let notification = host + seq![':'] + digits;
    assert(notification.last() == digits.last());
    assert(number::is_digit(digits[digits.len() - 1]));
    assert(!text::white_space(notification.last()));
    assert(notification[0] == host[0]);
    white_space_around_a_text_is_trimmed(Seq::empty(), notification, Seq::empty());
    assert(Seq::<char>::empty() + notification + Seq::empty() =~= notification);
    assert(!digits.contains(':')) by {
        if digits.contains(':') {
            let k = choose|k: int| 0 <= k < digits.len() && digits[k] == ':';
            assert(number::is_digit(digits[k]));
        }
    }
    texts_are_split_at_a_character(host, ':', digits);
}

/// The port of a debug server is taken as soon as its notification tells it. Before that the debug
/// server is waited for, until it exits or the time is over; a notification that cannot be read
/// ends the wait.
pub proof fn ports_are_waited_for(bytes: Seq<u8>, exited: Option<Seq<char>>, overdue: bool)
    ensures
        platform::port_in_bytes(bytes) is Ok ==> platform::waited(
            NotificationView::Written(bytes),
            exited,
            overdue,
        ) == WaitView::Port(platform::port_in_bytes(bytes)->Ok_0),
        platform::port_in_bytes(bytes) is Err && overdue ==> platform::waited(
            NotificationView::Written(bytes),
            exited,
            true,
        ) == WaitView::Fail(platform::port_in_bytes(bytes)->Err_0),
        platform::port_in_bytes(bytes) is Err && exited is None ==> platform::waited(
            NotificationView::Written(bytes),
            None,
            false,
        ) is Again,
        platform::waited(NotificationView::Missing, None, false) is Again,
        platform::waited(NotificationView::Missing, None, true) == WaitView::Fail(
            "timed out waiting for 1C debug server to report its port"@,
        ),
        exited is Some ==> platform::waited(NotificationView::Missing, exited, overdue)
            == WaitView::Fail("1C debug server exited before it reported a port: "@ + exited->0),
        platform::waited(NotificationView::Unreadable, exited, overdue) == WaitView::Fail(
            "cannot read 1C debug server notification"@,
        ),
{
}

/// Versions are ordered by the first number in which they differ; one that goes on behind another
/// is newer.
pub proof fn versions_are_ordered_by_their_numbers(front: Seq<u32>, x: u32, y: u32, a: Seq<u32>, b: Seq<u32>)
    requires
        x < y,
    ensures
        platform::older(front + seq![x] + a, front + seq![y] + b),
        !platform::older(front + seq![y] + b, front + seq![x] + a),
        platform::older(front, front + seq![x] + a),
        !platform::older(front + seq![x] + a, front),
{
    let p = front + seq![x] + a;
    let q = front + seq![y] + b;
    let n = front.len() as int;
    assert(platform::falls_below(p, q, n)) by {
        assert forall|i: int| 0 <= i < n implies p[i] == #[trigger] q[i] by {}
    }
    if platform::older(q, p) {
        let k = choose|k: int| platform::falls_below(q, p, k);
        if k < n {
            assert(q[k] == front[k] && p[k] == front[k]);
        } else if k > n {
            assert(q[n] == p[n]);
        }
    }
    assert(platform::falls_below(front, p, n)) by {
        assert forall|i: int| 0 <= i < n implies front[i] == #[trigger] p[i] by {}
    }
    if platform::older(p, front) {
        let k = choose|k: int| platform::falls_below(p, front, k);
        assert(p[k] == front[k]);
    }
}

/// The latest version is one of the names, and is a version.
pub proof fn the_latest_version_is_listed(names: Seq<Seq<char>>)
    ensures
        platform::latest(names) matches Some(name) ==> names.contains(name) && platform::version(
            name,
        ) is Some,
    decreases names.len(),
{
    if names.len() > 0 {
        let front = names.drop_last();
        the_latest_version_is_listed(front);
        if platform::latest(front) is Some {
            let k = choose|k: int| 0 <= k < front.len() && front[k] == platform::latest(front)->0;
            assert(names[k] == front[k]);
        }
        assert(names[names.len() - 1] == names.last());
    }
}

/// A name is a version where it is made of numbers with dots between them.
pub proof fn versions_are_numbers_with_dots(n: u32)
    ensures
        platform::version(number::decimal(n as int)) == Some(seq![n]),
        platform::version(Seq::empty()) is None,
{
    let digits = number::decimal(n as int);
    number::lemma_digits_round_trip(n as nat);
    number::decimal_round_trip(n as int, 0, u32::MAX as int);
    assert(!digits.contains('.')) by {
        if digits.contains('.') {
            let k = choose|k: int| 0 <= k < digits.len() && digits[k] == '.';
            assert(number::is_digit(digits[k]));
        }
    }
    texts_are_split_at_a_character(digits, '.', Seq::empty());
    texts_are_split_at_a_character(Seq::empty(), '.', Seq::empty());
    let one = seq![digits];
    assert(one.drop_last() =~= Seq::empty());
    assert(platform::version_numbers(Seq::empty()) == Some(Seq::<u32>::empty()));
    assert(Seq::<u32>::empty().push(n) =~= seq![n]);
    let none = seq![Seq::<char>::empty()];
    assert(none.drop_last() =~= Seq::empty());
    assert(none.last() == Seq::<char>::empty());
}

/// The members of a record.
pub open spec fn recorded(output: OutputView, ts_ms: u64, name: Seq<char>) -> JsonView {
    json::field(adapter::traced(ts_ms, output->Trace_0), name)
}

/// A record tells the version of its form, the time, and what it is a record of.
pub proof fn records_tell_what_they_are_of(event: Seq<char>, thread_id: i64, target_id: Seq<char>, poll: u64, ts_ms: u64, timeout: Option<u64>, count: int, timings: PingTimings)
    ensures
        ({
            let record = adapter::thread_record(event, thread_id, target_id);
            &&& record is Trace
            &&& recorded(record, ts_ms, "schemaVersion"@) == JsonView::Integer(1)
            &&& recorded(record, ts_ms, "tsMs"@) == JsonView::Integer(ts_ms as int)
            &&& recorded(record, ts_ms, "event"@) == JsonView::Str(event)
            &&& recorded(record, ts_ms, "threadId"@) == JsonView::Integer(thread_id as int)
            &&& recorded(record, ts_ms, "targetId"@) == JsonView::Str(target_id)
        }),
        ({
            let record = adapter::result_record(event, target_id);
            &&& record is Trace
            &&& recorded(record, ts_ms, "event"@) == JsonView::Str(event)
            &&& recorded(record, ts_ms, "traceId"@) == JsonView::Str(target_id)
        }),
        ({
            let record = adapter::poll_record(event, poll);
            &&& record is Trace
            &&& recorded(record, ts_ms, "event"@) == JsonView::Str(event)
            &&& recorded(record, ts_ms, "pollId"@) == JsonView::Integer(poll as int)
        }),
        ({
            let record = adapter_polls::poll_begin_record(poll, timeout);
            &&& record is Trace
            &&& recorded(record, ts_ms, "event"@) == JsonView::Str("rdbg.poll.worker_spawned"@)
            &&& recorded(record, ts_ms, "pollId"@) == JsonView::Integer(poll as int)
            &&& recorded(record, ts_ms, "mode"@) == JsonView::Str(
                if timeout is Some {
                    "step-priority"@
                } else {
                    "long"@
                },
            )
        }),
        ({
            let record = adapter_polls::poll_events_record(poll, count, timings);
            &&& record is Trace
            &&& recorded(record, ts_ms, "event"@) == JsonView::Str("rdbg.poll.response"@)
            &&& recorded(record, ts_ms, "pollId"@) == JsonView::Integer(poll as int)
            &&& recorded(record, ts_ms, "events"@) == JsonView::Integer(count)
            &&& recorded(record, ts_ms, "httpMs"@) == JsonView::Integer(
                timings.http_elapsed as int,
            )
            &&& recorded(record, ts_ms, "parseMs"@) == JsonView::Integer(
                timings.parse_elapsed as int,
            )
        }),
{
    reading::lemma_names();
    let thread = adapter::traced(
        ts_ms,
        adapter::thread_record(event, thread_id, target_id)->Trace_0,
    )->Object_0;
    reading::lemma_field(thread, 0);
    reading::lemma_field(thread, 1);
    reading::lemma_field(thread, 2);
    reading::lemma_field(thread, 3);
    reading::lemma_field(thread, 4);
    let result = adapter::traced(
        ts_ms,
        adapter::result_record(event, target_id)->Trace_0,
    )->Object_0;
    reading::lemma_field(result, 2);
    reading::lemma_field(result, 3);
    let polled = adapter::traced(ts_ms, adapter::poll_record(event, poll)->Trace_0)->Object_0;
    reading::lemma_field(polled, 2);
    reading::lemma_field(polled, 3);
    let begun = adapter::traced(
        ts_ms,
        adapter_polls::poll_begin_record(poll, timeout)->Trace_0,
    )->Object_0;
    reading::lemma_field(begun, 2);
    reading::lemma_field(begun, 3);
    reading::lemma_field(begun, 4);
    let ended = adapter::traced(
        ts_ms,
        adapter_polls::poll_events_record(poll, count, timings)->Trace_0,
    )->Object_0;
    reading::lemma_field(ended, 2);
    reading::lemma_field(ended, 3);
    reading::lemma_field(ended, 4);
    reading::lemma_field(ended, 5);
    reading::lemma_field(ended, 6);
}

proof fn lemma_strip_start(s: Seq<char>, c: char)
    ensures
        text::strip_start(seq![c] + s, c) == text::strip_start(s, c),
        s.len() > 0 && s[0] != c ==> text::strip_start(s, c) == s,
        text::strip_start(Seq::empty(), c) == Seq::<char>::empty(),
{
    assert((seq![c] + s).skip(1) =~= s);
}

proof fn lemma_strip_end(s: Seq<char>, c: char)
    ensures
        text::strip_end(s + seq![c], c) == text::strip_end(s, c),
        s.len() > 0 && s.last() != c ==> text::strip_end(s, c) == s,
        text::strip_end(Seq::empty(), c) == Seq::<char>::empty(),
{
    assert((s + seq![c]).drop_last() =~= s);
}

proof fn lemma_unquoted(value: Seq<char>)
    requires
        value.len() > 0 ==> value[0] != '"' && value.last() != '"',
    ensures
        ({
            let quoted = seq!['"'] + value + seq!['"'];
            text::strip_end(text::strip_start(text::trim(quoted), '"'), '"') == value
        }),
{
    let quoted = seq!['"'] + value + seq!['"'];
    let rest = value + seq!['"'];
    assert(quoted[0] == '"' && quoted.last() == '"');
    assert(text::trim(quoted) == quoted) by {
        white_space_around_a_text_is_trimmed(Seq::empty(), quoted, Seq::empty());
        assert(Seq::<char>::empty() + quoted + Seq::empty() =~= quoted);
    }
    assert(quoted =~= seq!['"'] + rest);
    lemma_strip_start(rest, '"');
    if value.len() == 0 {
        assert(rest =~= seq!['"'] + Seq::<char>::empty());
        lemma_strip_start(Seq::empty(), '"');
        lemma_strip_end(Seq::empty(), '"');
        assert(value =~= Seq::empty());
    } else {
        assert(rest[0] == value[0]);
        lemma_strip_end(value, '"');
    }
}

proof fn lemma_without(a: Seq<char>, b: Seq<char>, c: char)
    requires
        !a.contains(c),
        !b.contains(c),
    ensures
        !(a + b).contains(c),
{
    if (a + b).contains(c) {
        let k = choose|k: int| 0 <= k < (a + b).len() && (a + b)[k] == c;
        if k < a.len() {
            assert(a[k] == c);
        } else {
            assert(b[k - a.len()] == c);
        }
    }
}

/// A property of a connection is the value behind its name and the sign, without quotes around it,
/// in whatever case the name is written; properties are separated by semicolons.
pub proof fn properties_stand_behind_their_name(key: Seq<char>, value: Seq<char>, property: Seq<char>, rest: Seq<char>)
    requires
        !key.contains('=') && !key.contains(';'),
        !value.contains(';'),
        value.len() > 0 ==> value[0] != '"' && value.last() != '"',
    ensures
        text::same_ignoring_case(text::trim(key), property) ==> info_base::connection_property(
            key + seq!['='] + (seq!['"'] + value + seq!['"']) + seq![';'] + rest,
            property,
        ) == Some(value),
        !text::same_ignoring_case(text::trim(key), property) ==> info_base::connection_property(
            key + seq!['='] + (seq!['"'] + value + seq!['"']) + seq![';'] + rest,
            property,
        ) == info_base::connection_property(rest, property),
{
    let quoted = seq!['"'] + value + seq!['"'];
    lemma_unquoted(value);
    let first = key + seq!['='] + quoted;
    lemma_without(seq!['"'], value, ';');
    lemma_without(seq!['"'] + value, seq!['"'], ';');
    lemma_without(key, seq!['='], ';');
    lemma_without(key + seq!['='], quoted, ';');
    texts_are_split_at_a_character(first, ';', rest);
    texts_are_split_at_a_character(key, '=', quoted);
    let parts = seq![first] + text::pieces(rest, ';');
    assert(parts[0] == first);
    assert(parts.skip(1) =~= text::pieces(rest, ';'));
}

/// A connection to files names a file infobase, with the fixed alias; any other names the infobase
/// of its reference.
pub proof fn connections_name_their_infobase(connection: Seq<char>, alias: Seq<char>)
    ensures
        connection.len() >= 5 && !text::white_space(connection[0]) && text::same_ignoring_case(
            connection.take(5),
            "file="@,
        ) ==> info_base::connected(connection) == Some(
            InfoBaseTargetView { alias: "DefAlias"@, is_file: true, direct_file_path: None },
        ),
        !info_base::is_file_connection(connection) && info_base::connection_property(
            connection,
            "Ref"@,
        ) == Some(alias) ==> info_base::connected(connection) == Some(
            InfoBaseTargetView { alias, is_file: false, direct_file_path: None },
        ),
        !info_base::is_file_connection(connection) && info_base::connection_property(
            connection,
            "Ref"@,
        ) is None ==> info_base::connected(connection) is None,
{
}

/// In a list of the launcher, the connection of an infobase is the first one below the section with
/// its name, in whatever case that is written; other sections are passed over.
pub proof fn infobases_are_found_by_their_section(section: Seq<char>, name: Seq<char>, key: Seq<char>, connection: Seq<char>, other: Seq<char>, rest: Seq<Seq<char>>, selected: bool)
    requires
        !key.contains('='),
        key.len() > 0 && key[0] != '[' && !text::white_space(key[0]),
        connection.len() > 0 && !text::white_space(connection.last()),
        other.len() > 0 && other[0] != '[' && !other.contains('=') && !text::white_space(other[0])
            && !text::white_space(other.last()),
    ensures
        info_base::launched_among(seq![seq!['['] + section + seq![']']] + rest, name, selected)
            == info_base::launched_among(rest, name, text::same_ignoring_case(section, name)),
        text::same_ignoring_case(text::trim(key), "Connect"@) ==> info_base::launched_among(
            seq![key + seq!['='] + connection] + rest,
            name,
            true,
        ) == info_base::connected(connection),
        info_base::launched_among(seq![key + seq!['='] + connection] + rest, name, false)
            == info_base::launched_among(rest, name, false),
        info_base::launched_among(seq![other] + rest, name, selected) == info_base::launched_among(
            rest,
            name,
            selected,
        ),
        info_base::launched_among(Seq::empty(), name, selected) is None,
{
    let header = seq!['['] + section + seq![']'];
    assert(header[0] == '[' && header.last() == ']');
    white_space_around_a_text_is_trimmed(Seq::empty(), header, Seq::empty());
    assert(Seq::<char>::empty() + header + Seq::empty() =~= header);
    assert(header.subrange(1, header.len() - 1) =~= section);
    let line = key + seq!['='] + connection;
    assert(line[0] == key[0] && line.last() == connection.last());
    white_space_around_a_text_is_trimmed(Seq::empty(), line, Seq::empty());
    assert(Seq::<char>::empty() + line + Seq::empty() =~= line);
    texts_are_split_at_a_character(key, '=', connection);
    white_space_around_a_text_is_trimmed(Seq::empty(), other, Seq::empty());
    assert(Seq::<char>::empty() + other + Seq::empty() =~= other);
    texts_are_split_at_a_character(other, '=', Seq::empty());
    assert((seq![header] + rest).skip(1) =~= rest);
    assert((seq![line] + rest).skip(1) =~= rest);
    assert((seq![other] + rest).skip(1) =~= rest);
}

/// The infobase of a connection: a directory is a file infobase at that place; else the first list
/// of the launcher that knows the name tells what it is; else the name is the alias.
pub proof fn infobases_are_found_in_the_lists(arguments: ConnectionArgumentsView, name: Seq<char>, first: Seq<char>, rest: Seq<Seq<char>>)
    requires
        arguments.info_base == Some(name),
    ensures
        info_base::target_of(arguments, true, seq![first] + rest) == Ok::<
            InfoBaseTargetView,
            Seq<char>,
        >(
            InfoBaseTargetView {
                alias: "DefAlias"@,
                is_file: true,
                direct_file_path: Some(info_base::file_candidate(name)),
            },
        ),
        info_base::launched(first, name) matches Some(known) && known.is_file && known.alias
            == "DefAlias"@ ==> info_base::target_of(arguments, false, seq![first] + rest) == Ok::<
            InfoBaseTargetView,
            Seq<char>,
        >(InfoBaseTargetView { alias: "DefAlias"@, is_file: true, direct_file_path: None }),
        info_base::launched(first, name) is Some && !info_base::launched(first, name)->0.is_file
            && arguments.info_base_alias is None ==> info_base::target_of(
            arguments,
            false,
            seq![first] + rest,
        ) == Ok::<InfoBaseTargetView, Seq<char>>(
            InfoBaseTargetView {
                alias: info_base::launched(first, name)->0.alias,
                is_file: false,
                direct_file_path: None,
            },
        ),
        info_base::launched(first, name) is None ==> info_base::launched_in(
            seq![first] + rest,
            name,
        ) == info_base::launched_in(rest, name),
        arguments.info_base_alias is None ==> info_base::target_of(arguments, false, Seq::empty())
            == Ok::<InfoBaseTargetView, Seq<char>>(
            InfoBaseTargetView { alias: name, is_file: false, direct_file_path: None },
        ),
{
    assert((seq![first] + rest).skip(1) =~= rest);
    assert((seq![first] + rest)[0] == first);
}

/// Where an infobase may lie as files: at the path of its connection, or at its own name.
pub proof fn file_candidates_are_paths(name: Seq<char>)
    ensures
        info_base::connection_property(name, "File"@) is Some ==> info_base::file_candidate(name)
            == info_base::connection_property(name, "File"@)->0,
        info_base::connection_property(name, "File"@) is None ==> info_base::file_candidate(name)
            == text::trim(name),
{
}

/// The list of the launcher lies below the directory of its settings.
pub proof fn launcher_lists_have_their_place(base: Seq<char>)
    requires
        base.len() > 2,
        base.last() != '/' && base.last() != '\\',
        !metadata::is_verbatim(base),
    ensures
        info_base::launcher_lists(true, Some(base), '\\').len() == 1,
        info_base::launcher_lists(false, Some(base), '/').len() == 2,
        info_base::launcher_lists(false, None, '/').len() == 0,
        info_base::launcher_lists(true, None, '\\').len() == 0,
        info_base::launcher_list(base, '/') == base + "/1C/1CEStart/ibases.v8i"@,
        info_base::launcher_lists(false, Some(base), '/')[0] == base
            + "/.1cv8/1C/1CEStart/ibases.v8i"@,
        info_base::launcher_lists(false, Some(base), '/')[1] == base
            + "/Library/Application Support/1C/1CEStart/ibases.v8i"@,
{
    reveal_strlit("1C");
    reveal_strlit("1CEStart");
    reveal_strlit("ibases.v8i");
    reveal_strlit(".1cv8");
    reveal_strlit("Library");
    reveal_strlit("Application Support");
    reveal_strlit("/1C/1CEStart/ibases.v8i");
    reveal_strlit("/.1cv8/1C/1CEStart/ibases.v8i");
    reveal_strlit("/Library/Application Support/1C/1CEStart/ibases.v8i");
    lemma_list_place(base);
    let hidden = metadata::joined_path(base, '/', ".1cv8"@);
    assert(hidden.last() == '8');
    lemma_list_place(hidden);
    assert(hidden + "/1C/1CEStart/ibases.v8i"@ =~= base + "/.1cv8/1C/1CEStart/ibases.v8i"@);
    let library = metadata::joined_path(base, '/', "Library"@);
    assert(library.last() == 'y');
    let support = metadata::joined_path(library, '/', "Application Support"@);
    assert(support.last() == 't');
    lemma_list_place(support);
    assert(support + "/1C/1CEStart/ibases.v8i"@ =~= base
        + "/Library/Application Support/1C/1CEStart/ibases.v8i"@);
}

proof fn lemma_list_place(base: Seq<char>)
    requires
        base.len() > 0,
        base.last() != '/',
    ensures
        info_base::launcher_list(base, '/') == base + "/1C/1CEStart/ibases.v8i"@,
{
    reveal_strlit("1C");
    reveal_strlit("1CEStart");
    reveal_strlit("ibases.v8i");
    reveal_strlit("/1C/1CEStart/ibases.v8i");
    let a = metadata::joined_path(base, '/', "1C"@);
    assert(a =~= base + seq!['/'] + "1C"@);
    assert(a.last() == 'C');
    let b = metadata::joined_path(a, '/', "1CEStart"@);
    assert(b.last() == 't');
    let c = metadata::joined_path(b, '/', "ibases.v8i"@);
    assert(c =~= base + "/1C/1CEStart/ibases.v8i"@);
}

/// A trace goes to the file that is named, or below the project, where it is asked for.
pub proof fn traces_have_their_place(arguments: ConnectionArgumentsView, path: Seq<char>, root: Seq<char>)
    requires
        arguments.trace == Some(true),
    ensures
        arguments.trace_file == Some(path) ==> info_base::trace_path(arguments, '/') == Some(path),
        arguments.trace_file is None && arguments.root_project == Some(root) && root.len() > 0
            && root.last() != '/' ==> info_base::trace_path(arguments, '/') == Some(
            root + "/.vscode/onec-debug-latency.jsonl"@,
        ),
        arguments.trace_file is None && arguments.root_project is None ==> info_base::trace_path(
            arguments,
            '/',
        ) is None,
{
    reveal_strlit(".vscode");
    reveal_strlit("onec-debug-latency.jsonl");
    reveal_strlit("/.vscode/onec-debug-latency.jsonl");
    let directory = metadata::joined_path(root, '/', ".vscode"@);
    assert(directory.last() == 'e');
    assert(metadata::joined_path(directory, '/', "onec-debug-latency.jsonl"@) =~= if root.len() > 0
        && root.last() != '/' {
        root + "/.vscode/onec-debug-latency.jsonl"@
    } else {
        metadata::joined_path(directory, '/', "onec-debug-latency.jsonl"@)
    });
}

proof fn lemma_pieces_end(a: Seq<char>, c: char, b: Seq<char>)
    requires
        !b.contains(c),
    ensures
        text::pieces(a + seq![c] + b, c) == text::pieces(a, c).push(b),
    decreases a.len(),
{
    if !a.contains(c) {
        texts_are_split_at_a_character(a, c, b);
        texts_are_split_at_a_character(b, c, Seq::empty());
        assert(seq![a] + seq![b] =~= seq![a].push(b));
    } else {
        let i = text::first_index(a, c);
        lemma_first_place(a, c);
        let front = a.take(i);
        let rest = a.skip(i + 1);
        assert(!front.contains(c)) by {
            if front.contains(c) {
                let k = choose|k: int| 0 <= k < front.len() && front[k] == c;
                assert(a[k] == c);
            }
        }
        assert(a =~= front + seq![c] + rest);
        texts_are_split_at_a_character(front, c, rest);
        lemma_pieces_end(rest, c, b);
        texts_are_split_at_a_character(front, c, rest + seq![c] + b);
        assert(a + seq![c] + b =~= front + seq![c] + (rest + seq![c] + b));
        assert(seq![front] + text::pieces(rest, c).push(b) =~= (seq![front] + text::pieces(rest, c))
            .push(b));
    }
}

proof fn lemma_first_place(a: Seq<char>, c: char)
    requires
        a.contains(c),
    ensures
        0 <= text::first_index(a, c) < a.len(),
        a[text::first_index(a, c)] == c,
        forall|k: int| 0 <= k < text::first_index(a, c) ==> a[k] != c,
    decreases a.len(),
{
    if a[0] != c {
        let rest = a.skip(1);
        let k = choose|k: int| 0 <= k < a.len() && a[k] == c;
        assert(rest[k - 1] == c);
        lemma_first_place(rest, c);
        let n = text::first_index(rest, c);
        assert(a[n + 1] == rest[n]);
        assert forall|k: int| 0 <= k < n + 1 implies a[k] != c by {
            if k > 0 {
                assert(rest[k - 1] == a[k]);
            }
        }
    }
}

/// A version goes on with a number behind a dot; with anything else behind it, it is none.
pub proof fn versions_go_on_behind_a_dot(front: Seq<char>, n: u32, wrong: Seq<char>)
    requires
        !wrong.contains('.'),
        number::parsed(wrong, 0, u32::MAX as int) is None,
    ensures
        platform::version(front) is Some ==> platform::version(
            front + seq!['.'] + number::decimal(n as int),
        ) == Some(platform::version(front)->0.push(n)),
        platform::version(front) is None ==> platform::version(
            front + seq!['.'] + number::decimal(n as int),
        ) is None,
        platform::version(front + seq!['.'] + wrong) is None,
{
    let digits = number::decimal(n as int);
    number::lemma_digits_round_trip(n as nat);
    number::decimal_round_trip(n as int, 0, u32::MAX as int);
    assert(!digits.contains('.')) by {
        if digits.contains('.') {
            let k = choose|k: int| 0 <= k < digits.len() && digits[k] == '.';
            assert(number::is_digit(digits[k]));
        }
    }
    let parts = text::pieces(front, '.');
    lemma_pieces_end(front, '.', digits);
    lemma_pieces_end(front, '.', wrong);
    assert(parts.push(digits).drop_last() =~= parts);
    assert(parts.push(wrong).drop_last() =~= parts);
}

/// A header line is read as a name and a value with a colon between them; the length is told by the
/// header of its name in any case, other headers are passed over, and a line that is empty but for
/// its end ends the headers.
pub proof fn header_lines_are_names_and_values(name: Seq<char>, value: Seq<char>, bytes: Seq<u8>, plain: Seq<char>, other: Seq<u8>)
    requires
        text::utf8_decoded(bytes) == Some(name + seq![':'] + value + seq!['\r', '\n']),
        !name.contains(':'),
        value.len() > 0 && value.last() != '\r' && value.last() != '\n',
        text::utf8_decoded(other) == Some(plain + seq!['\r', '\n']),
        !plain.contains(':'),
        plain.len() > 0 && plain.last() != '\r' && plain.last() != '\n',
    ensures
        ({
            let read = dap::header_line(bytes);
            let told = number::parsed(text::trim(value), 0, usize::MAX as int);
            let own = text::same_ignoring_case(name, "Content-Length"@);
            &&& own && told is Some ==> read == dap::LineView::Length(told->0)
            &&& own && told is None ==> read == dap::LineView::Invalid("invalid Content-Length"@)
            &&& !own ==> read is Other
        }),
        dap::header_line(other) == dap::LineView::Invalid(
            "invalid DAP header (expected `Name: value`)"@,
        ),
{
    let line = name + seq![':'] + value;
    lemma_line_end(line);
    assert(name + seq![':'] + value + seq!['\r', '\n'] =~= line + seq!['\r', '\n']);
    texts_are_split_at_a_character(name, ':', value);
    lemma_line_end(plain);
    texts_are_split_at_a_character(plain, ':', Seq::empty());
}

proof fn lemma_line_end(line: Seq<char>)
    requires
        line.len() > 0 && line.last() != '\r' && line.last() != '\n',
    ensures
        dap::without_line_end(line + seq!['\r', '\n']) == line,
{
    let whole = line + seq!['\r', '\n'];
    assert(whole.drop_last() =~= line + seq!['\r']);
    assert((line + seq!['\r']).drop_last() =~= line);
    assert(dap::without_line_end(whole) == dap::without_line_end(line + seq!['\r']));
    assert(dap::without_line_end(line + seq!['\r']) == dap::without_line_end(line));
}

/// Input that breaks off within a message, or is no message, is told of.
pub proof fn broken_messages_are_told_of(input: Seq<u8>, ended: bool, length: Option<int>, rest: Seq<u8>, size: int, message: Seq<char>)
    ensures
        text::utf8_decoded(input) is None ==> dap::header_line(input) == dap::LineView::Invalid(
            "stream did not contain valid UTF-8"@,
        ),
        dap::headers(Seq::empty(), true, length, true) == HeaderView::Invalid(
            "unexpected end of input in DAP headers"@,
        ),
        dap::headers(input, ended, None, false) == HeaderView::Complete(None, rest)
            ==> dap::first_frame(input, ended) == FrameView::Invalid(
            "DAP message has no Content-Length header"@,
        ),
        dap::headers(input, ended, None, false) == HeaderView::Complete(Some(size), rest) && size
            > rest.len() ==> dap::first_frame(input, ended) == if ended {
            FrameView::Invalid("failed to fill whole buffer"@)
        } else {
            FrameView::Incomplete
        },
        dap::headers(input, ended, None, false) == HeaderView::Complete(Some(size), rest) && 0
            <= size <= rest.len() ==> dap::first_frame(input, ended) == FrameView::Payload(
            rest.take(size),
            rest.skip(size),
        ),
        dap::headers(input, ended, None, false) == HeaderView::Invalid(message)
            ==> dap::first_frame(input, ended) == FrameView::Invalid(message),
{
}

/// A notification without a port that can be used is told of.
pub proof fn ports_that_cannot_be_used_are_told_of(host: Seq<char>, wrong: Seq<char>, bytes: Seq<u8>)
    requires
        host.len() > 0 && !text::white_space(host[0]),
        wrong.len() > 0 && !text::white_space(wrong.last()) && !wrong.contains(':'),
        number::parsed(wrong, 0, u16::MAX as int) is None,
    ensures
        platform::port_in(host + seq![':'] + wrong) == Err::<u16, Seq<char>>(
            "1C debug server notification contains an invalid port"@,
        ),
        bytes.len() % 2 == 1 ==> platform::utf16_notification(bytes, true) == Err::<
            Seq<char>,
            Seq<char>,
        >("1C debug server notification contains incomplete UTF-16 data"@),
        bytes.len() % 2 == 0 && text::utf16_decoded(platform::code_units(bytes, true)) is None
            ==> platform::utf16_notification(bytes, true) == Err::<Seq<char>, Seq<char>>(
            "1C debug server notification is not valid UTF-16"@,
        ),
        bytes.len() % 2 == 0 && text::utf16_decoded(platform::code_units(bytes, false)) is Some
            ==> platform::utf16_notification(bytes, false) == Ok::<Seq<char>, Seq<char>>(
            text::utf16_decoded(platform::code_units(bytes, false))->0,
        ),
        platform::code_units(bytes, true).len() == bytes.len() / 2,
        bytes.len() >= 2 ==> platform::code_units(bytes, true)[0] == bytes[1] * 256 + bytes[0],
        bytes.len() >= 2 ==> platform::code_units(bytes, false)[0] == bytes[0] * 256 + bytes[1],
{
    let notification = host + seq![':'] + wrong;
    assert(notification.last() == wrong.last() && notification[0] == host[0]);
    white_space_around_a_text_is_trimmed(Seq::empty(), notification, Seq::empty());
    assert(Seq::<char>::empty() + notification + Seq::empty() =~= notification);
    texts_are_split_at_a_character(host, ':', wrong);
}

/// Behind a path without the rules of Windows a slash in a name becomes a backslash, and no other
/// separator counts.
pub proof fn verbatim_paths_have_backslashes(base: Seq<char>, name: Seq<char>, drive: char)
    requires
        base.len() >= 4,
        base[0] == '\\' && base[1] == '\\' && base[2] == '?' && base[3] == '\\',
        !name.contains('/'),
    ensures
        metadata::is_verbatim(base),
        base.last() != '\\' ==> metadata::joined_path(base, '\\', name) == base + seq!['\\'] + name,
        base.last() == '\\' ==> metadata::joined_path(base, '\\', name) == base + name,
        metadata::joined_path(base, '\\', seq!['/']) == if base.last() == '\\' {
            base + seq!['\\']
        } else {
            base + seq!['\\', '\\']
        },
        metadata::is_bare_drive(seq![drive, ':']) == ('a' <= drive <= 'z' || 'A' <= drive <= 'Z'),
        !metadata::is_bare_drive(base),
{
    let f = |c: char|
        if c == '/' {
            '\\'
        } else {
            c
        };
    assert(name.map_values(f) =~= name) by {
        assert forall|i: int| 0 <= i < name.len() implies name.map_values(f)[i] == name[i] by {
            assert(name.contains(name[i]));
        }
    }
    assert(seq!['/'].map_values(f) =~= seq!['\\']);
    assert(base.push('\\') + name =~= base + seq!['\\'] + name);
    assert(base.push('\\') + seq!['\\'] =~= base + seq!['\\', '\\']);
}

/// An address of the debug server without the usual end is taken as it is.
pub proof fn other_addresses_are_taken_as_they_are(endpoint: Seq<char>, address: Seq<char>)
    ensures
        endpoint.len() < 8 ==> platform::debugger_address(endpoint) == endpoint,
        endpoint.len() > 0 && endpoint.last() != 'g' ==> platform::debugger_address(endpoint)
            == endpoint,
        platform::debugger_address(address + "/e1crdbg"@) == address,
{
    reveal_strlit("/e1crdbg");
    let suffix = "/e1crdbg"@;
    assert(suffix.len() == 8 && suffix[7] == 'g');
    if endpoint.len() >= 8 && endpoint.skip(endpoint.len() - 8) == suffix {
        assert(endpoint.skip(endpoint.len() - 8)[7] == endpoint.last());
    }
    let whole = address + suffix;
    assert(whole.skip(whole.len() - 8) =~= suffix);
    assert(whole.take(whole.len() - 8) =~= address);
}

/// Headers are read line by line: the last length counts, and the payload stands behind the empty
/// line.
pub proof fn headers_are_read_line_by_line(line: Seq<u8>, rest: Seq<u8>, ended: bool, length: Option<int>, begun: bool)
    requires
        line.len() > 0,
        line.last() == 10,
        forall|i: int| 0 <= i < line.len() - 1 ==> line[i] != 10,
    ensures
        ({
            let read = dap::headers(line + rest, ended, length, begun);
            match dap::header_line(line) {
                dap::LineView::End => read == HeaderView::Complete(length, rest),
                dap::LineView::Length(n) => read == dap::headers(rest, ended, Some(n), true),
                dap::LineView::Other => read == dap::headers(rest, ended, length, true),
                dap::LineView::Invalid(message) => read == HeaderView::Invalid(message),
            }
        }),
{
    let input = line + rest;
    lemma_line_feed(input, line.len() - 1);
    assert(input.take(line.len() as int) =~= line);
    assert(input.skip(line.len() as int) =~= rest);
}

proof fn lemma_line_feed(input: Seq<u8>, at: int)
    requires
        0 <= at < input.len(),
        input[at] == 10,
        forall|k: int| 0 <= k < at ==> input[k] != 10,
    ensures
        dap::line_feed(input) == at,
    decreases at,
{
    if at > 0 {
        let rest = input.skip(1);
        assert(rest[at - 1] == input[at]);
        assert forall|k: int| 0 <= k < at - 1 implies rest[k] != 10 by {
            assert(rest[k] == input[k + 1]);
        }
        lemma_line_feed(rest, at - 1);
    }
}

} // verus!
