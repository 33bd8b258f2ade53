//! The framing of messages on the wire: a header section of ASCII lines that
//! gives the length of the body, a blank line, then the body.

use vstd::prelude::*;
use vstd::string::is_ascii_spec_bytes;
use vstd::utf8::is_ascii_chars;

verus! {

/// The bytes of a sequence of ASCII characters.
pub open spec fn ascii(chars: Seq<char>) -> Seq<u8> {
    Seq::new(chars.len(), |i: int| chars[i] as u8)
}

/// The start of the header line that gives the length of the body.
pub open spec fn length_prefix() -> Seq<u8> {
    ascii("Content-Length: "@)
}

/// The end of a line.
pub open spec fn line_end() -> Seq<u8> {
    ascii("\r\n"@)
}

/// The digit that spells a number below ten.
pub open spec fn digit(n: nat) -> u8 {
    (48 + n) as u8
}

/// The decimal digits of a number, the most significant first.
pub open spec fn decimal(n: nat) -> Seq<u8>
    decreases n,
{
    if n < 10 {
        seq![digit(n)]
    } else {
        decimal(n / 10).push(digit(n % 10))
    }
}

/// A message on the wire: the header line with the length of the body, the
/// blank line, the body.
pub open spec fn frame(body: Seq<u8>) -> Seq<u8> {
    length_prefix() + decimal(body.len()) + line_end() + line_end() + body
}

/// The bytes of a string slice of ASCII characters.
fn ascii_bytes(text: &str) -> (bytes: &[u8])
    requires
        is_ascii_chars(text@),
    ensures
        bytes@ == ascii(text@),
{
    let bytes = text.as_bytes();
    proof {
        is_ascii_spec_bytes(text);
    }
    bytes
}

/// Appends the decimal digits of a number.
fn push_decimal(out: &mut Vec<u8>, n: usize)
    ensures
        final(out)@ == old(out)@ + decimal(n as nat),
    decreases n,
{
    if n >= 10 {
        push_decimal(out, n / 10);
    }
    out.push(48 + (n % 10) as u8);
}

/// Frames a body for the wire.
pub fn encode(body: &[u8]) -> (message: Vec<u8>)
    ensures
        message@ == frame(body@),
{
    proof {
        reveal_strlit("Content-Length: ");
        reveal_strlit("\r\n");
    }
    let mut message: Vec<u8> = Vec::new();
    message.extend_from_slice(ascii_bytes("Content-Length: "));
    push_decimal(&mut message, body.len());
    message.extend_from_slice(ascii_bytes("\r\n"));
    message.extend_from_slice(ascii_bytes("\r\n"));
    message.extend_from_slice(body);
    message
}

/// Why a message cannot be taken from the input.
#[derive(Debug, Clone, Copy, PartialEq, Eq, Structural)]
pub enum FrameError {
    /// The input ends in the middle of a message.
    Eof,
    /// A header line is not `name: value` in ASCII with its line end, or its
    /// length is no number that a body can have.
    MalformedHeader,
    /// The header section gives no length.
    MissingContentLength,
    /// The header section names a content type other than JSON-RPC.
    UnsupportedContentType,
}

/// What a header line says.
#[derive(Debug, Clone, Copy, PartialEq, Eq, Structural)]
pub enum Header {
    /// The blank line that ends the header section.
    Blank,
    /// The length of the body.
    Length(usize),
    /// Anything that does not bear on the framing.
    Other,
}

/// Where the body of a message stands in the input: from `start` up to `end`,
/// which is also the number of bytes that the message takes.
#[derive(Debug, Clone, Copy, PartialEq, Eq, Structural)]
pub struct Frame {
    /// Where the body starts: the length of the header section.
    pub start: usize,
    /// Where the body ends, and the next message starts.
    pub end: usize,
}

/// The start of the header line that gives the type of the body.
pub open spec fn type_prefix() -> Seq<u8> {
    ascii("Content-Type: "@)
}

/// The start of every content type that is accepted.
pub open spec fn media_type() -> Seq<u8> {
    ascii("application/vscode-jsonrpc"@)
}

/// Whether a byte is a decimal digit.
pub open spec fn is_digit(byte: u8) -> bool {
    48 <= byte <= 57
}

/// Whether all bytes are decimal digits.
pub open spec fn all_digits(bytes: Seq<u8>) -> bool {
    forall|i: int| 0 <= i < bytes.len() ==> is_digit(#[trigger] bytes[i])
}

/// The number that decimal digits spell, the most significant first.
pub open spec fn digits_value(digits: Seq<u8>) -> nat
    decreases digits.len(),
{
    if digits.len() == 0 {
        0
    } else {
        digits_value(digits.drop_last()) * 10 + (digits.last() - 48) as nat
    }
}

/// The number that a header value spells: one or more decimal digits and
/// nothing else.
pub open spec fn decimal_value(bytes: Seq<u8>) -> Option<nat> {
    if bytes.len() > 0 && all_digits(bytes) {
        Some(digits_value(bytes))
    } else {
        None
    }
}

/// Whether all bytes are ASCII.
pub open spec fn all_ascii(bytes: Seq<u8>) -> bool {
    forall|i: int| 0 <= i < bytes.len() ==> #[trigger] bytes[i] < 128
}

/// Whether a colon and a space stand at the given place of a line.
pub open spec fn separator_at(line: Seq<u8>, i: int) -> bool {
    0 <= i && i + 1 < line.len() && line[i] == 58 && line[i + 1] == 32
}

/// Whether a line holds a colon and a space, which part name and value.
pub open spec fn has_separator(line: Seq<u8>) -> bool {
    exists|i: int| separator_at(line, i)
}

/// What a header line says, given without its line end.
///
/// The blank line ends the section. Any other line is ASCII and parts name
/// and value by a colon and a space. Names are matched letter for letter.
/// The value of `Content-Length` is a decimal number that a length can hold;
/// the value of `Content-Type` begins with `application/vscode-jsonrpc`;
/// other headers are passed over.
pub open spec fn header(line: Seq<u8>) -> Result<Header, FrameError> {
    if line.len() == 0 {
        Ok(Header::Blank)
    } else if !all_ascii(line) || !has_separator(line) {
        Err(FrameError::MalformedHeader)
    } else if length_prefix().is_prefix_of(line) {
        match decimal_value(line.skip(length_prefix().len() as int)) {
            Some(n) if n <= usize::MAX => Ok(Header::Length(n as usize)),
            _ => Err(FrameError::MalformedHeader),
        }
    } else if type_prefix().is_prefix_of(line) {
        if media_type().is_prefix_of(line.skip(type_prefix().len() as int)) {
            Ok(Header::Other)
        } else {
            Err(FrameError::UnsupportedContentType)
        }
    } else {
        Ok(Header::Other)
    }
}

/// Where the first line feed at or after `from` stands; the length of the
/// input where there is none.
pub open spec fn line_feed(input: Seq<u8>, from: int) -> int
    decreases input.len() - from,
{
    if from < 0 || from >= input.len() {
        input.len() as int
    } else if input[from] == 10 {
        from
    } else {
        line_feed(input, from + 1)
    }
}

/// The message at the head of the input, read from the header line that
/// starts at `from`, with the length that the lines before it gave.
///
/// Each line ends with a carriage return and a line feed. After the blank
/// line the body follows, as long as the last length given says. `Ok(None)`
/// says that the input ends before the message does.
pub open spec fn parse_headers(input: Seq<u8>, from: int, length: Option<usize>) -> Result<
    Option<Frame>,
    FrameError,
>
    decreases input.len() - from,
    via parse_headers_decreases
{
    let lf = line_feed(input, from);
    if from < 0 || lf >= input.len() {
        Ok(None)
    } else if lf == from || input[lf - 1] != 13 {
        Err(FrameError::MalformedHeader)
    } else {
        match header(input.subrange(from, lf - 1)) {
            Err(error) => Err(error),
            Ok(Header::Blank) => match length {
                None => Err(FrameError::MissingContentLength),
                Some(n) => if lf + 1 + n <= input.len() {
                    Ok(Some(Frame { start: (lf + 1) as usize, end: (lf + 1 + n) as usize }))
                } else {
                    Ok(None)
                },
            },
            Ok(Header::Length(n)) => parse_headers(input, lf + 1, Some(n)),
            Ok(Header::Other) => parse_headers(input, lf + 1, length),
        }
    }
}

#[via_fn]
proof fn parse_headers_decreases(input: Seq<u8>, from: int, length: Option<usize>) {
    if 0 <= from <= input.len() {
        lemma_line_feed(input, from);
    }
}

/// The message at the head of the input.
pub open spec fn parse(input: Seq<u8>) -> Result<Option<Frame>, FrameError> {
    parse_headers(input, 0, None)
}

/// The message at the head of an input that has ended: no input at all is a
/// clean end, and input that ends before its message does is an error.
pub open spec fn parse_at_eof(input: Seq<u8>) -> Result<Option<Frame>, FrameError> {
    if input.len() == 0 {
        Ok(None)
    } else {
        match parse(input) {
            Ok(None) => Err(FrameError::Eof),
            other => other,
        }
    }
}

/// The first line feed at or after `from` stands at or after `from`, within
/// the input or at its end, and no line feed stands before it.
pub proof fn lemma_line_feed(input: Seq<u8>, from: int)
    requires
        0 <= from <= input.len(),
    ensures
        from <= line_feed(input, from) <= input.len(),
        line_feed(input, from) < input.len() ==> input[line_feed(input, from)] == 10,
        forall|i: int| from <= i < line_feed(input, from) ==> input[i] != 10,
    decreases input.len() - from,
{
    if from < input.len() && input[from] != 10 {
        lemma_line_feed(input, from + 1);
    }
}

/// The number that a run of digits spells is no less than the number that
/// any of its prefixes spells.
pub proof fn lemma_digits_value_grows(digits: Seq<u8>, k: int)
    requires
        all_digits(digits),
        0 <= k <= digits.len(),
    ensures
        digits_value(digits.take(k)) <= digits_value(digits),
    decreases digits.len() - k,
{
    if k < digits.len() {
        let longer = digits.take(k + 1);
        assert(longer.drop_last() =~= digits.take(k));
        lemma_digits_value_grows(digits, k + 1);
    } else {
        assert(digits.take(k) =~= digits);
    }
}

/// Whether the bytes begin with the given prefix.
pub fn starts_with(bytes: &[u8], prefix: &[u8]) -> (yes: bool)
    ensures
        yes == prefix@.is_prefix_of(bytes@),
{
    if prefix.len() > bytes.len() {
        return false;
    }
    let mut i: usize = 0;
    while i < prefix.len()
        invariant
            prefix@.len() <= bytes@.len(),
            i <= prefix@.len(),
            forall|k: int| 0 <= k < i ==> prefix@[k] == bytes@[k],
        decreases prefix@.len() - i,
    {
        if prefix[i] != bytes[i] {
            return false;
        }
        i += 1;
    }
    true
}

/// Reads a decimal number: one or more digits and nothing else. There is no
/// number where a byte is no digit, and none where the digits spell more
/// than a length can hold.
pub fn parse_decimal(bytes: &[u8]) -> (value: Option<usize>)
    ensures
        value == match decimal_value(bytes@) {
            Some(n) if n <= usize::MAX => Some(n as usize),
            _ => None::<usize>,
        },
{
    if bytes.len() == 0 {
        return None;
    }
    let mut value: usize = 0;
    let mut i: usize = 0;
    while i < bytes.len()
        invariant
            i <= bytes@.len(),
            all_digits(bytes@.take(i as int)),
            value == digits_value(bytes@.take(i as int)),
        decreases bytes@.len() - i,
    {
        let byte = bytes[i];
        if byte < 48 || byte > 57 {
            return None;
        }
        let digit = (byte - 48) as usize;
        proof {
            let longer = bytes@.take(i + 1);
            assert(longer.drop_last() =~= bytes@.take(i as int));
            assert(all_digits(longer)) by {
                assert forall|k: int| 0 <= k < longer.len() implies is_digit(
                    #[trigger] longer[k],
                ) by {}
            }
            if all_digits(bytes@) {
                lemma_digits_value_grows(bytes@, i + 1);
            }
        }
        if value > (usize::MAX - digit) / 10 {
            return None;
        }
        value = value * 10 + digit;
        i += 1;
    }
    assert(bytes@.take(i as int) =~= bytes@);
    Some(value)
}

/// Whether all bytes of a line are ASCII.
fn is_ascii_line(line: &[u8]) -> (yes: bool)
    ensures
        yes == all_ascii(line@),
{
    let mut i: usize = 0;
    while i < line.len()
        invariant
            i <= line@.len(),
            forall|k: int| 0 <= k < i ==> #[trigger] line@[k] < 128,
        decreases line@.len() - i,
    {
        if line[i] >= 128 {
            return false;
        }
        i += 1;
    }
    true
}

/// Whether a colon and a space stand somewhere in a line.
fn finds_separator(line: &[u8]) -> (yes: bool)
    ensures
        yes == has_separator(line@),
{
    let mut i: usize = 0;
    while line.len() - i > 1
        invariant
            i <= line@.len(),
            forall|k: int| 0 <= k < i ==> !separator_at(line@, k),
        decreases line@.len() - i,
    {
        if line[i] == 58 && line[i + 1] == 32 {
            assert(separator_at(line@, i as int));
            return true;
        }
        i += 1;
    }
    assert forall|k: int| !separator_at(line@, k) by {}
    false
}

/// Reads a header line, given without its line end.
pub fn read_header(line: &[u8]) -> (result: Result<Header, FrameError>)
    ensures
        result == header(line@),
{
    proof {
        reveal_strlit("Content-Length: ");
        reveal_strlit("Content-Type: ");
        reveal_strlit("application/vscode-jsonrpc");
    }
    if line.len() == 0 {
        return Ok(Header::Blank);
    }
    if !is_ascii_line(line) || !finds_separator(line) {
        return Err(FrameError::MalformedHeader);
    }
    let length_start = ascii_bytes("Content-Length: ");
    let type_start = ascii_bytes("Content-Type: ");
    if starts_with(line, length_start) {
        let value = vstd::slice::slice_subrange(line, length_start.len(), line.len());
        match parse_decimal(value) {
            Some(n) => Ok(Header::Length(n)),
            None => Err(FrameError::MalformedHeader),
        }
    } else if starts_with(line, type_start) {
        let value = vstd::slice::slice_subrange(line, type_start.len(), line.len());
        if starts_with(value, ascii_bytes("application/vscode-jsonrpc")) {
            Ok(Header::Other)
        } else {
            Err(FrameError::UnsupportedContentType)
        }
    } else {
        Ok(Header::Other)
    }
}

/// Finds the first line feed at or after `from`.
fn find_line_feed(input: &[u8], from: usize) -> (at: usize)
    requires
        from <= input@.len(),
    ensures
        at == line_feed(input@, from as int),
{
    let mut at: usize = from;
    while at < input.len() && input[at] != 10
        invariant
            from <= at <= input@.len(),
            line_feed(input@, from as int) == line_feed(input@, at as int),
        decreases input@.len() - at,
    {
        at += 1;
    }
    at
}

/// Takes the message at the head of the input.
///
/// `Ok(Some(frame))` says where its body stands and how many bytes the
/// message takes; `Ok(None)` that the input ends before the message does, so
/// that more input is needed; `Err` that no message can be taken, whatever
/// follows.
pub fn decode(input: &[u8]) -> (result: Result<Option<Frame>, FrameError>)
    ensures
        result == parse(input@),
{
    let mut from: usize = 0;
    let mut length: Option<usize> = None;
    loop
        invariant
            from <= input@.len(),
            parse(input@) == parse_headers(input@, from as int, length),
        decreases input@.len() - from,
    {
        let lf = find_line_feed(input, from);
        proof {
            lemma_line_feed(input@, from as int);
        }
        if lf >= input.len() {
            return Ok(None);
        }
        if lf == from || input[lf - 1] != 13 {
            return Err(FrameError::MalformedHeader);
        }
        let line = vstd::slice::slice_subrange(input, from, lf - 1);
        match read_header(line) {
            Err(error) => {
                return Err(error);
            },
            Ok(Header::Blank) => {
                return match length {
                    None => Err(FrameError::MissingContentLength),
                    Some(n) => if n <= input.len() - (lf + 1) {
                        Ok(Some(Frame { start: lf + 1, end: lf + 1 + n }))
                    } else {
                        Ok(None)
                    },
                };
            },
            Ok(Header::Length(n)) => {
                length = Some(n);
            },
            Ok(Header::Other) => {},
        }
        from = lf + 1;
    }
}

/// Takes the message at the head of an input that has ended.
///
/// `Ok(None)` says that the input ended cleanly: nothing is left of it. Input
/// that ends before its message does is refused with `Eof`.
pub fn decode_at_eof(input: &[u8]) -> (result: Result<Option<Frame>, FrameError>)
    ensures
        result == parse_at_eof(input@),
{
    if input.len() == 0 {
        return Ok(None);
    }
    match decode(input) {
        Ok(None) => Err(FrameError::Eof),
        other => other,
    }
}

} // verus!
