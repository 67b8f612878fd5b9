//! The transport of the Debug Adapter Protocol: frames, responses and events.

use crate::json;
use crate::json::{duplicate_optional, object, pair, string, Json, JsonView};
use crate::number;
use crate::number::{decimal_u64, parse_integer};
use crate::text;
use crate::text::{chars_of, copy, equals_ignoring_case, split_once, text_between, trimmed, utf8_text};
use vstd::prelude::*;
use vstd::utf8::*;

verus! {

/// One JSON message framed according to the DAP base protocol.
#[derive(Debug, PartialEq, Eq)]
pub struct Message(pub Json);

/// What is at the beginning of the input.
#[derive(Debug, PartialEq, Eq)]
pub enum Frame {
    /// The frame is not complete yet.
    Incomplete,
    /// The input ended cleanly before a frame.
    End,
    /// The payload of a frame.
    Payload(Vec<u8>),
    /// The input is not a frame.
    Invalid(String),
}

/// What the header lines at the beginning of the input say.
#[verifier::ext_equal]
pub enum HeaderView {
    Incomplete,
    End,
    /// The length of the payload, where a header gives one, and the input behind the headers.
    Complete(Option<int>, Seq<u8>),
    Invalid(Seq<char>),
}

#[verifier::ext_equal]
pub enum FrameView {
    Incomplete,
    End,
    /// The payload, and the input behind it.
    Payload(Seq<u8>, Seq<u8>),
    Invalid(Seq<char>),
}

/// The position of the first line feed, or the length of the input.
pub open spec fn line_feed(input: Seq<u8>) -> int
    decreases input.len(),
{
    if input.len() == 0 || input[0] == 10 {
        0
    } else {
        1 + line_feed(input.skip(1))
    }
}

/// A line without the carriage returns and line feeds at its end.
pub open spec fn without_line_end(line: Seq<char>) -> Seq<char>
    decreases line.len(),
{
    if line.len() > 0 && (line.last() == '\r' || line.last() == '\n') {
        without_line_end(line.drop_last())
    } else {
        line
    }
}

/// What a header line says.
#[verifier::ext_equal]
pub enum LineView {
    /// The empty line that ends the headers.
    End,
    /// A header that gives the length of the payload.
    Length(int),
    /// Another header.
    Other,
    Invalid(Seq<char>),
}

pub open spec fn header_line(line: Seq<u8>) -> LineView {
    match text::utf8_decoded(line) {
        None => LineView::Invalid("stream did not contain valid UTF-8"@),
        Some(line) => {
            let line = without_line_end(line);
            if line.len() == 0 {
                LineView::End
            } else {
                match text::split_first(line, ':') {
                    None => LineView::Invalid("invalid DAP header (expected `Name: value`)"@),
                    Some((name, value)) => if text::same_ignoring_case(name, "Content-Length"@) {
                        match number::parsed(text::trim(value), 0, usize::MAX as int) {
                            Some(length) => LineView::Length(length),
                            None => LineView::Invalid("invalid Content-Length"@),
                        }
                    } else {
                        LineView::Other
                    },
                }
            }
        },
    }
}

/// Reads the header lines of a frame. `ended` tells that no more input will come, `length` what
/// the lines so far said of the payload, and `begun` whether there were such lines.
pub open spec fn headers(input: Seq<u8>, ended: bool, length: Option<int>, begun: bool) -> HeaderView
    decreases input.len(),
{
    let end = line_feed(input);
    if end >= input.len() && !ended {
        HeaderView::Incomplete
    } else if input.len() == 0 {
        if begun {
            HeaderView::Invalid("unexpected end of input in DAP headers"@)
        } else {
            HeaderView::End
        }
    } else {
        let size = if end < input.len() {
            end + 1
        } else {
            input.len() as int
        };
        if !(0 < size <= input.len()) {
            HeaderView::Incomplete
        } else {
            match header_line(input.take(size)) {
                LineView::Invalid(message) => HeaderView::Invalid(message),
                LineView::End => HeaderView::Complete(length, input.skip(size)),
                LineView::Length(n) => headers(input.skip(size), ended, Some(n), true),
                LineView::Other => headers(input.skip(size), ended, length, true),
            }
        }
    }
}

/// What is at the beginning of the input.
pub open spec fn first_frame(input: Seq<u8>, ended: bool) -> FrameView {
    match headers(input, ended, None, false) {
        HeaderView::Incomplete => FrameView::Incomplete,
        HeaderView::End => FrameView::End,
        HeaderView::Invalid(message) => FrameView::Invalid(message),
        HeaderView::Complete(None, _) => FrameView::Invalid(
            "DAP message has no Content-Length header"@,
        ),
        HeaderView::Complete(Some(length), rest) => if 0 <= length <= rest.len() {
            FrameView::Payload(rest.take(length), rest.skip(length))
        } else if ended {
            FrameView::Invalid("failed to fill whole buffer"@)
        } else {
            FrameView::Incomplete
        },
    }
}

/// The bytes of a frame with a payload.
pub open spec fn framed(payload: Seq<u8>) -> Seq<u8> {
    encode_utf8("Content-Length: "@ + number::decimal(payload.len() as int) + "\r\n\r\n"@) + payload
}

enum Headers {
    Incomplete,
    End,
    Complete(Option<usize>, usize),
    Invalid(String),
}

enum Line {
    End,
    Length(usize),
    Other,
    Invalid(String),
}

fn strip_line_end(line: &str) -> (r: String)
    ensures
        r@ == without_line_end(line@),
{
    let chars = chars_of(line);
    let mut to: usize = chars.len();
    assert(chars@.subrange(0, to as int) =~= chars@);
    while to > 0 && (chars[to - 1] == '\r' || chars[to - 1] == '\n')
        invariant
            to <= chars@.len(),
            without_line_end(chars@) == without_line_end(chars@.subrange(0, to as int)),
        decreases to,
    {
        assert(chars@.subrange(0, to as int).drop_last() =~= chars@.subrange(0, to - 1));
        to = to - 1;
    }
    text_between(&chars, 0, to)
}

fn read_line(line: &[u8]) -> (r: Line)
    ensures
        match r {
            Line::End => header_line(line@) == LineView::End,
            Line::Length(n) => header_line(line@) == LineView::Length(n as int),
            Line::Other => header_line(line@) == LineView::Other,
            Line::Invalid(message) => header_line(line@) == LineView::Invalid(message@),
        },
{
    let line = match utf8_text(line) {
        Some(line) => line,
        None => {
            return Line::Invalid(copy("stream did not contain valid UTF-8"));
        },
    };
    let line = strip_line_end(line.as_str());
    if line.as_str().is_empty() {
        return Line::End;
    }
    match split_once(line.as_str(), ':') {
        None => Line::Invalid(copy("invalid DAP header (expected `Name: value`)")),
        Some((name, value)) => if equals_ignoring_case(name.as_str(), "Content-Length") {
            let value = trimmed(value.as_str());
            match parse_integer(value.as_str(), 0, usize::MAX as u64) {
                Some(length) => Line::Length(length as usize),
                None => Line::Invalid(copy("invalid Content-Length")),
            }
        } else {
            Line::Other
        },
    }
}

proof fn lemma_line_feed(input: Seq<u8>, at: int)
    requires
        0 <= at <= input.len(),
        forall|k: int| 0 <= k < at ==> input[k] != 10,
        at == input.len() || input[at] == 10,
    ensures
        line_feed(input) == at,
    decreases input.len(),
{
    if input.len() > 0 && input[0] != 10 {
        assert forall|k: int| 0 <= k < at - 1 implies input.skip(1)[k] != 10 by {
            assert(input.skip(1)[k] == input[k + 1]);
        }
        lemma_line_feed(input.skip(1), at - 1);
    }
}

fn slice_of(bytes: &Vec<u8>, from: usize, to: usize) -> (r: Vec<u8>)
    requires
        from <= to <= bytes@.len(),
    ensures
        r@ == bytes@.subrange(from as int, to as int),
{
    let mut out: Vec<u8> = Vec::new();
    let mut i: usize = from;
    while i < to
        invariant
            from <= i <= to <= bytes@.len(),
            out@ == bytes@.subrange(from as int, i as int),
        decreases to - i,
    {
        out.push(bytes[i]);
        i = i + 1;
    }
    out
}

fn read_headers(input: &Vec<u8>, ended: bool) -> (r: Headers)
    ensures
        match r {
            Headers::Incomplete => headers(input@, ended, None, false) == HeaderView::Incomplete,
            Headers::End => headers(input@, ended, None, false) == HeaderView::End,
            Headers::Complete(length, at) => at <= input@.len() && headers(
                input@,
                ended,
                None,
                false,
            ) == HeaderView::Complete(
                match length {
                    Some(n) => Some(n as int),
                    None => None,
                },
                input@.skip(at as int),
            ),
            Headers::Invalid(message) => headers(input@, ended, None, false)
                == HeaderView::Invalid(message@),
        },
{
    let mut from: usize = 0;
    let mut length: Option<usize> = None;
    let mut begun = false;
    assert(input@.skip(0) =~= input@);
    loop
        invariant
            from <= input@.len(),
            headers(input@, ended, None, false) == headers(
                input@.skip(from as int),
                ended,
                match length {
                    Some(n) => Some(n as int),
                    None => None,
                },
                begun,
            ),
        decreases input@.len() - from,
    {
        let ghost rest = input@.skip(from as int);
        let mut end: usize = from;
        while end < input.len() && input[end] != 10
            invariant
                from <= end <= input@.len(),
                forall|k: int| from <= k < end ==> input@[k] != 10,
            decreases input@.len() - end,
        {
            end = end + 1;
        }
        proof {
            assert forall|k: int| 0 <= k < end - from implies rest[k] != 10 by {
                assert(rest[k] == input@[from + k]);
            }
            lemma_line_feed(rest, end - from);
        }
        if end == input.len() && !ended {
            return Headers::Incomplete;
        }
        if from == input.len() {
            return if begun {
                Headers::Invalid(copy("unexpected end of input in DAP headers"))
            } else {
                Headers::End
            };
        }
        let next: usize = if end < input.len() {
            end + 1
        } else {
            end
        };
        let line = slice_of(input, from, next);
        assert(line@ =~= rest.take(next - from));
        assert(rest.skip(next - from) =~= input@.skip(next as int));
        match read_line(line.as_slice()) {
            Line::Invalid(message) => {
                return Headers::Invalid(message);
            },
            Line::End => {
                return Headers::Complete(length, next);
            },
            Line::Length(n) => {
                length = Some(n);
            },
            Line::Other => {},
        }
        begun = true;
        from = next;
    }
}

/// The receiving side: what was read from the input, and not yet taken as a frame.
pub struct Reader<R> {
    pub input: R,
    pub pending: Vec<u8>,
}

impl<R> Reader<R> {
    /// A reader at the beginning of its input.
    pub fn new(input: R) -> (r: Reader<R>)
        ensures
            r.input == input,
            r.pending@ == Seq::<u8>::empty(),
    {
        Reader { input, pending: Vec::new() }
    }

    /// Takes over bytes that were read from the input.
    pub fn feed(&mut self, bytes: &[u8])
        ensures
            final(self).pending@ == old(self).pending@ + bytes@,
            final(self).input == old(self).input,
    {
        let ghost before = self.pending@;
        let mut i: usize = 0;
        assert(before + bytes@.take(0) =~= before);
        while i < bytes.len()
            invariant
                i <= bytes@.len(),
                self.pending@ == before + bytes@.take(i as int),
                self.input == old(self).input,
            decreases bytes@.len() - i,
        {
            self.pending.push(bytes[i]);
            i = i + 1;
            assert(self.pending@ =~= before + bytes@.take(i as int));
        }
        assert(bytes@.take(i as int) =~= bytes@);
    }

    /// Reads a single frame. `ended` tells that the input has ended.
    pub fn read(&mut self, ended: bool) -> (r: Frame)
        ensures
            final(self).input == old(self).input,
            match r {
                Frame::Incomplete => first_frame(old(self).pending@, ended)
                    == FrameView::Incomplete && final(self).pending@ == old(self).pending@,
                Frame::End => first_frame(old(self).pending@, ended) == FrameView::End
                    && final(self).pending@ == old(self).pending@,
                Frame::Payload(payload) => first_frame(old(self).pending@, ended)
                    == FrameView::Payload(payload@, final(self).pending@),
                Frame::Invalid(message) => first_frame(old(self).pending@, ended)
                    == FrameView::Invalid(message@) && final(self).pending@ == old(self).pending@,
            },
    {
        match read_headers(&self.pending, ended) {
            Headers::Incomplete => Frame::Incomplete,
            Headers::End => Frame::End,
            Headers::Invalid(message) => Frame::Invalid(message),
            Headers::Complete(None, _) => Frame::Invalid(
                copy("DAP message has no Content-Length header"),
            ),
            Headers::Complete(Some(length), at) => {
                let size: usize = self.pending.len();
                if length <= size - at {
                    let payload = slice_of(&self.pending, at, at + length);
                    let rest = slice_of(&self.pending, at + length, size);
                    assert(payload@ =~= self.pending@.skip(at as int).take(length as int));
                    assert(rest@ =~= self.pending@.skip(at as int).skip(length as int));
                    self.pending = rest;
                    Frame::Payload(payload)
                } else if ended {
                    Frame::Invalid(copy("failed to fill whole buffer"))
                } else {
                    Frame::Incomplete
                }
            },
        }
    }
}

/// The sending side.
pub struct Writer<W> {
    pub output: W,
}

impl<W> Writer<W> {
    /// A writer to an output.
    pub fn new(output: W) -> (r: Writer<W>)
        ensures
            r.output == output,
    {
        Writer { output }
    }
}

/// The frame around a payload.
pub fn frame(payload: &[u8]) -> (r: Vec<u8>)
    ensures
        r@ == framed(payload@),
{
    let length = decimal_u64(payload.len() as u64);
    let mut header = copy("Content-Length: ");
    header.append(length.as_str());
    header.append("\r\n\r\n");
    let mut out = header.as_str().as_bytes_vec();
    let ghost before = out@;
    let mut i: usize = 0;
    assert(before + payload@.take(0) =~= before);
    while i < payload.len()
        invariant
            i <= payload@.len(),
            out@ == before + payload@.take(i as int),
        decreases payload@.len() - i,
    {
        out.push(payload[i]);
        i = i + 1;
        assert(out@ =~= before + payload@.take(i as int));
    }
    assert(payload@.take(i as int) =~= payload@);
    out
}

/// A successful response.
pub open spec fn response_to(request: JsonView, sequence: int, body: JsonView) -> JsonView {
    JsonView::Object(
        seq![
            ("seq"@, JsonView::Integer(sequence)),
            ("type"@, JsonView::Str("response"@)),
            ("request_seq"@, json::field(request, "seq"@)),
            ("success"@, JsonView::Bool(true)),
            ("command"@, json::field(request, "command"@)),
            ("body"@, body),
        ],
    )
}

/// A refusal.
pub open spec fn refusal_of(request: JsonView, sequence: int, message: Seq<char>) -> JsonView {
    JsonView::Object(
        seq![
            ("seq"@, JsonView::Integer(sequence)),
            ("type"@, JsonView::Str("response"@)),
            ("request_seq"@, json::field(request, "seq"@)),
            ("success"@, JsonView::Bool(false)),
            ("command"@, json::field(request, "command"@)),
            ("message"@, JsonView::Str(message)),
        ],
    )
}

/// An event.
pub open spec fn event_named(sequence: int, name: Seq<char>, body: JsonView) -> JsonView {
    JsonView::Object(
        seq![
            ("seq"@, JsonView::Integer(sequence)),
            ("type"@, JsonView::Str("event"@)),
            ("event"@, JsonView::Str(name)),
            ("body"@, body),
        ],
    )
}

/// The successful response to a request.
pub fn response(request: &Json, sequence: u64, body: Json) -> (r: Json)
    ensures
        r.deep_view() == response_to(request.deep_view(), sequence as int, body.deep_view()),
{
    let members = vec![
        pair("seq", Json::Unsigned(sequence)),
        pair("type", string("response")),
        pair("request_seq", duplicate_optional(request.get("seq"))),
        pair("success", Json::Bool(true)),
        pair("command", duplicate_optional(request.get("command"))),
        pair("body", body),
    ];
    let ghost expected = response_to(request.deep_view(), sequence as int, body.deep_view());
    assert(members.deep_view() =~= expected->Object_0);
    object(members)
}

/// The response that refuses a request.
pub fn error_response(request: &Json, sequence: u64, message: &str) -> (r: Json)
    ensures
        r.deep_view() == refusal_of(request.deep_view(), sequence as int, message@),
{
    let members = vec![
        pair("seq", Json::Unsigned(sequence)),
        pair("type", string("response")),
        pair("request_seq", duplicate_optional(request.get("seq"))),
        pair("success", Json::Bool(false)),
        pair("command", duplicate_optional(request.get("command"))),
        pair("message", string(message)),
    ];
    let ghost expected = refusal_of(request.deep_view(), sequence as int, message@);
    assert(members.deep_view() =~= expected->Object_0);
    object(members)
}

/// An event.
pub fn event(sequence: u64, name: &str, body: Json) -> (r: Json)
    ensures
        r.deep_view() == event_named(sequence as int, name@, body.deep_view()),
{
    let members = vec![
        pair("seq", Json::Unsigned(sequence)),
        pair("type", string("event")),
        pair("event", string(name)),
        pair("body", body),
    ];
    let ghost expected = event_named(sequence as int, name@, body.deep_view());
    assert(members.deep_view() =~= expected->Object_0);
    object(members)
}

proof fn lemma_ascii_bytes(s: Seq<char>)
    requires
        is_ascii_chars(s),
    ensures
        encode_utf8(s).len() == s.len(),
        forall|i: int| 0 <= i < s.len() ==> #[trigger] encode_utf8(s)[i] == s[i] as u8,
        text::utf8_decoded(encode_utf8(s)) == Some(s),
{
    is_ascii_chars_encode_utf8(s);
    encode_utf8_valid_utf8(s);
    encode_utf8_decode_utf8(s);
}

proof fn lemma_trim_digits(digits: Seq<char>)
    requires
        number::all_digits(digits),
    ensures
        text::trim(seq![' '] + digits) == digits,
{
    let s = seq![' '] + digits;
    assert(s.skip(1) =~= digits);
    assert(text::white_space(s[0]));
    assert(!text::white_space(digits[0]));
    assert(text::trim_start(digits) == digits);
    assert(text::trim_start(s) == text::trim_start(s.skip(1)));
    assert(!text::white_space(digits.last()));
}

proof fn lemma_length_line(n: int)
    requires
        0 <= n <= usize::MAX,
    ensures
        header_line(encode_utf8("Content-Length: "@ + number::decimal(n) + "\r\n"@)) == LineView::Length(n),
{
    let digits = number::decimal(n);
    number::lemma_digits_round_trip(n as nat);
    number::decimal_round_trip(n, 0, usize::MAX as int);
    reveal_strlit("Content-Length: ");
    reveal_strlit("Content-Length");
    reveal_strlit("\r\n");
    let name = "Content-Length"@;
    let value = seq![' '] + digits;
    let line = "Content-Length: "@ + digits + "\r\n"@;
    assert(line.len() == 18 + digits.len());
    assert forall|i: int| 0 <= i < line.len() implies '\0' <= #[trigger] line[i] <= '\u{7f}' by {
        if 16 <= i < 16 + digits.len() {
            assert(line[i] == digits[i - 16]);
        }
    }
    lemma_ascii_bytes(line);
    let bare = "Content-Length: "@ + digits;
    assert(line.drop_last().drop_last() =~= bare);
    assert(number::is_digit(digits.last()));
    assert(bare.last() == digits.last());
    assert(without_line_end(bare) == bare);
    assert(without_line_end(line.drop_last()) == bare);
    assert(without_line_end(line) == bare);
    assert(bare[14] == ':');
    assert forall|k: int| 0 <= k < 14 implies bare[k] != ':' by {}
    text::lemma_first_index(bare, ':', 14);
    assert(bare.take(14) =~= name);
    assert(bare.skip(15) =~= value);
    lemma_trim_digits(digits);
}

proof fn lemma_end_line()
    ensures
        header_line(encode_utf8("\r\n"@)) == LineView::End,
{
    reveal_strlit("\r\n");
    let line = "\r\n"@;
    lemma_ascii_bytes(line);
    assert(line.drop_last().drop_last().len() == 0);
    reveal_with_fuel(without_line_end, 3);
}

/// A reader that gets a frame takes out the payload that the frame was made for, and leaves what
/// follows the frame.
pub proof fn frame_round_trip(payload: Seq<u8>, rest: Seq<u8>, ended: bool)
    requires
        payload.len() <= usize::MAX,
    ensures
        first_frame(framed(payload) + rest, ended) == FrameView::Payload(payload, rest),
{
    let n = payload.len() as int;
    let digits = number::decimal(n);
    number::lemma_digits_round_trip(n as nat);
    reveal_strlit("Content-Length: ");
    reveal_strlit("\r\n");
    reveal_strlit("\r\n\r\n");
    let first = "Content-Length: "@ + digits + "\r\n"@;
    let second = "\r\n"@;
    let header = "Content-Length: "@ + digits + "\r\n\r\n"@;
    assert(header =~= first + second);
    assert forall|i: int| 0 <= i < header.len() implies '\0' <= #[trigger] header[i] <= '\u{7f}' && (header[i] == '\n'
        <==> i == first.len() - 1 || i == first.len() + 1) by {
        if 16 <= i < 16 + digits.len() {
            assert(header[i] == digits[i - 16]);
        }
    }
    lemma_ascii_bytes(header);
    assert forall|i: int| 0 <= i < first.len() implies '\0' <= #[trigger] first[i] <= '\u{7f}' by {
        assert(first[i] == header[i]);
    }
    lemma_ascii_bytes(first);
    lemma_ascii_bytes(second);
    let input = framed(payload) + rest;
    let a = first.len() as int;
    assert forall|k: int| 0 <= k < a - 1 implies input[k] != 10 by {
        assert(input[k] == encode_utf8(header)[k]);
        assert(header[k] != '\n');
    }
    assert(input[a - 1] == encode_utf8(header)[a - 1]);
    assert(header[a - 1] == '\n');
    lemma_line_feed(input, a - 1);
    assert(input.take(a) =~= encode_utf8(first)) by {
        assert forall|k: int| 0 <= k < a implies input[k] == encode_utf8(first)[k] by {
            assert(input[k] == encode_utf8(header)[k]);
            assert(header[k] == first[k]);
        }
    }
    lemma_length_line(n);
    let after = input.skip(a);
    assert(after[0] == encode_utf8(header)[a]);
    assert(after[1] == encode_utf8(header)[a + 1]);
    assert(header[a] == '\r' && header[a + 1] == '\n');
    lemma_line_feed(after, 1);
    assert(after.take(2) =~= encode_utf8(second)) by {
        assert(encode_utf8(second)[0] == second[0] as u8);
        assert(encode_utf8(second)[1] == second[1] as u8);
    }
    lemma_end_line();
    assert(after.skip(2) =~= payload + rest);
    assert(headers(after, ended, Some(n), true) == HeaderView::Complete(Some(n), after.skip(2)));
    assert(headers(input, ended, None, false) == headers(after, ended, Some(n), true));
    assert((payload + rest).take(n) =~= payload);
    assert((payload + rest).skip(n) =~= rest);
}

/// A message carries its number, and its type.
pub open spec fn is_message(message: JsonView, sequence: int, kind: Seq<char>) -> bool {
    &&& json::field(message, "seq"@) == JsonView::Integer(sequence)
    &&& json::field(message, "type"@) == JsonView::Str(kind)
}

/// A message answers a request: it repeats the number and the command of the request, and tells
/// whether the request succeeded.
pub open spec fn is_answer(message: JsonView, request: JsonView, success: bool) -> bool {
    &&& json::field(message, "type"@) == JsonView::Str("response"@)
    &&& json::field(message, "request_seq"@) == json::field(request, "seq"@)
    &&& json::field(message, "command"@) == json::field(request, "command"@)
    &&& json::field(message, "success"@) == JsonView::Bool(success)
}

proof fn lemma_answer_members(message: JsonView, request: JsonView, sequence: int, success: bool)
    requires
        message is Object,
        message->Object_0.len() == 6,
        message->Object_0[0] == ("seq"@, JsonView::Integer(sequence)),
        message->Object_0[1] == ("type"@, JsonView::Str("response"@)),
        message->Object_0[2] == ("request_seq"@, json::field(request, "seq"@)),
        message->Object_0[3] == ("success"@, JsonView::Bool(success)),
        message->Object_0[4] == ("command"@, json::field(request, "command"@)),
    ensures
        is_message(message, sequence, "response"@),
        is_answer(message, request, success),
{
    let members = message->Object_0;
    reveal_strlit("seq");
    reveal_strlit("type");
    reveal_strlit("request_seq");
    reveal_strlit("success");
    reveal_strlit("command");
    assert("seq"@.len() == 3 && "type"@.len() == 4 && "request_seq"@.len() == 11);
    assert("success"@.len() == 7 && "command"@.len() == 7 && "success"@[0] != "command"@[0]);
    json::lemma_member_at(members, "seq"@, 0);
    json::lemma_member_at(members, "type"@, 1);
    json::lemma_member_at(members, "request_seq"@, 2);
    json::lemma_member_at(members, "success"@, 3);
    json::lemma_member_at(members, "command"@, 4);
}

/// A response has its own number, and names the request that it answers with success.
pub proof fn response_names_its_request(request: JsonView, sequence: int, body: JsonView)
    ensures
        is_message(response_to(request, sequence, body), sequence, "response"@),
        is_answer(response_to(request, sequence, body), request, true),
{
    lemma_answer_members(response_to(request, sequence, body), request, sequence, true);
}

/// A refusal has its own number, and names the request that it answers without success.
pub proof fn refusal_names_its_request(request: JsonView, sequence: int, message: Seq<char>)
    ensures
        is_message(refusal_of(request, sequence, message), sequence, "response"@),
        is_answer(refusal_of(request, sequence, message), request, false),
{
    lemma_answer_members(refusal_of(request, sequence, message), request, sequence, false);
}

/// An event has its own number, and answers nothing.
pub proof fn event_answers_nothing(sequence: int, name: Seq<char>, body: JsonView)
    ensures
        is_message(event_named(sequence, name, body), sequence, "event"@),
        json::field(event_named(sequence, name, body), "event"@) == JsonView::Str(name),
        "event"@ != "response"@,
{
    let members = event_named(sequence, name, body)->Object_0;
    reveal_strlit("seq");
    reveal_strlit("type");
    reveal_strlit("event");
    reveal_strlit("response");
    assert("seq"@.len() == 3 && "type"@.len() == 4 && "event"@.len() == 5 && "response"@.len() == 8);
    json::lemma_member_at(members, "seq"@, 0);
    json::lemma_member_at(members, "type"@, 1);
    json::lemma_member_at(members, "event"@, 2);
}

} // verus!
