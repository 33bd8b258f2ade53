//! What holds of the framing for every body and every input.

use vstd::prelude::*;
use crate::codec::{
    all_ascii, all_digits, decimal, decimal_value, digits_value, frame, header, is_digit,
    lemma_line_feed, length_prefix, line_end, line_feed, parse, parse_at_eof, parse_headers,
    separator_at, Frame, FrameError, Header,
};

verus! {

/// The length of the header section that `frame` writes before a body of `n`
/// bytes.
pub open spec fn header_len(n: nat) -> nat {
    length_prefix().len() + decimal(n).len() + 2 * line_end().len()
}

/// The digits written for a number spell that number: reading them gives it
/// back.
pub proof fn lemma_decimal_round_trip(n: nat)
    ensures
        decimal(n).len() > 0,
        all_digits(decimal(n)),
        digits_value(decimal(n)) == n,
        decimal_value(decimal(n)) == Some(n),
    decreases n,
{
    if n < 10 {
        assert(digits_value(decimal(n).drop_last()) == 0);
    } else {
        lemma_decimal_round_trip(n / 10);
        assert(decimal(n).drop_last() =~= decimal(n / 10));
        assert forall|i: int| 0 <= i < decimal(n).len() implies is_digit(
            #[trigger] decimal(n)[i],
        ) by {}
    }
}

/// The first line feed at or after `from` is the one at `at` where no line
/// feed stands between the two.
pub proof fn lemma_line_feed_at(input: Seq<u8>, from: int, at: int)
    requires
        0 <= from <= at < input.len(),
        input[at] == 10,
        forall|i: int| from <= i < at ==> input[i] != 10,
    ensures
        line_feed(input, from) == at,
    decreases at - from,
{
    if from < at {
        lemma_line_feed_at(input, from + 1, at);
    }
}

/// Framing round trip: what is read from a framed body, whatever follows it
/// on the wire, is that body, and the bytes taken are those of the message
/// and no more.
pub proof fn lemma_frame_round_trip(body: Seq<u8>, rest: Seq<u8>)
    requires
        frame(body).len() + rest.len() <= usize::MAX,
    ensures
        frame(body).len() == header_len(body.len()) + body.len(),
        parse(frame(body) + rest) == Ok::<Option<Frame>, FrameError>(
            Some(
                Frame {
                    start: header_len(body.len()) as usize,
                    end: frame(body).len() as usize,
                },
            ),
        ),
        (frame(body) + rest).subrange(header_len(body.len()) as int, frame(body).len() as int)
            == body,
{
    reveal_strlit("Content-Length: ");
    reveal_strlit("\r\n");
    let n = body.len();
    let name = length_prefix();
    let digits = decimal(n);
    let input = frame(body) + rest;
    lemma_decimal_round_trip(n);

    // The first line: the name, the digits, the line end.
    let cr = 16 + digits.len() as int;
    let lf = cr + 1;
    assert forall|i: int| 0 <= i < lf implies input[i] != 10 by {}
    lemma_line_feed_at(input, 0, lf);
    let line = input.subrange(0, lf - 1);
    assert(all_ascii(line));
    assert(separator_at(line, 14));
    assert(line.skip(16) =~= digits);

    // The second line: blank.
    lemma_line_feed_at(input, lf + 1, lf + 2);
    assert(parse_headers(input, lf + 1, Some(n as usize)) == Ok::<Option<Frame>, FrameError>(
        Some(Frame { start: (lf + 3) as usize, end: (lf + 3 + n) as usize }),
    ));
}

/// What is read from a framed body and nothing else at the end of the input
/// is that body.
pub proof fn lemma_frame_round_trip_at_eof(body: Seq<u8>)
    requires
        frame(body).len() <= usize::MAX,
    ensures
        parse_at_eof(frame(body)) == Ok::<Option<Frame>, FrameError>(
            Some(
                Frame {
                    start: header_len(body.len()) as usize,
                    end: frame(body).len() as usize,
                },
            ),
        ),
        frame(body).subrange(header_len(body.len()) as int, frame(body).len() as int) == body,
{
    lemma_frame_round_trip(body, Seq::empty());
}

/// A message or an error that was read from the head of the input stands,
/// whatever input follows: only `Ok(None)` waits for more.
pub proof fn lemma_verdict_stands(input: Seq<u8>, more: Seq<u8>)
    requires
        parse(input) != Ok::<Option<Frame>, FrameError>(None),
    ensures
        parse(input + more) == parse(input),
{
    lemma_headers_verdict_stands(input, more, 0, None);
}

/// The same, from any header line on.
pub proof fn lemma_headers_verdict_stands(
    input: Seq<u8>,
    more: Seq<u8>,
    from: int,
    length: Option<usize>,
)
    requires
        0 <= from <= input.len(),
        parse_headers(input, from, length) != Ok::<Option<Frame>, FrameError>(None),
    ensures
        parse_headers(input + more, from, length) == parse_headers(input, from, length),
    decreases input.len() - from,
{
    let longer = input + more;
    let lf = line_feed(input, from);
    lemma_line_feed(input, from);
    assert forall|i: int| from <= i < lf implies longer[i] != 10 by {}
    lemma_line_feed_at(longer, from, lf);
    if lf != from && input[lf - 1] == 13 {
        assert(longer.subrange(from, lf - 1) =~= input.subrange(from, lf - 1));
        match header(input.subrange(from, lf - 1)) {
            Ok(Header::Length(n)) => {
                lemma_headers_verdict_stands(input, more, lf + 1, Some(n));
            },
            Ok(Header::Other) => {
                lemma_headers_verdict_stands(input, more, lf + 1, length);
            },
            _ => {},
        }
    }
}

/// Whether a line is a header that does not bear on the framing: it holds no
/// line feed and is read as such a header.
pub open spec fn passed_over(line: Seq<u8>) -> bool {
    &&& forall|k: int| 0 <= k < line.len() ==> line[k] != 10
    &&& header(line) == Ok::<Header, FrameError>(Header::Other)
}

/// A header section on the wire: its lines, each with its line end, then
/// the blank line.
pub open spec fn header_section(lines: Seq<Seq<u8>>) -> Seq<u8>
    decreases lines.len(),
{
    if lines.len() == 0 {
        line_end()
    } else {
        lines[0] + line_end() + header_section(lines.drop_first())
    }
}

/// A header section that gives no length is refused, whatever its other
/// headers say and whatever follows it.
pub proof fn lemma_missing_length_is_refused(lines: Seq<Seq<u8>>, rest: Seq<u8>)
    requires
        forall|i: int| 0 <= i < lines.len() ==> passed_over(#[trigger] lines[i]),
    ensures
        parse(header_section(lines) + rest) == Err::<Option<Frame>, FrameError>(
            FrameError::MissingContentLength,
        ),
{
    lemma_headers_without_length(Seq::empty(), lines, rest);
}

/// The same, for a header section that stands anywhere in the input.
proof fn lemma_headers_without_length(before: Seq<u8>, lines: Seq<Seq<u8>>, rest: Seq<u8>)
    requires
        forall|i: int| 0 <= i < lines.len() ==> passed_over(#[trigger] lines[i]),
    ensures
        parse_headers(before + header_section(lines) + rest, before.len() as int, None) == Err::<
            Option<Frame>,
            FrameError,
        >(FrameError::MissingContentLength),
    decreases lines.len(),
{
    reveal_strlit("\r\n");
    let input = before + header_section(lines) + rest;
    let from = before.len() as int;
    if lines.len() == 0 {
        lemma_line_feed_at(input, from, from + 1);
    } else {
        let line = lines[0];
        let others = lines.drop_first();
        let cr = from + line.len();
        assert forall|i: int| from <= i < cr + 1 implies input[i] != 10 by {}
        lemma_line_feed_at(input, from, cr + 1);
        assert(input.subrange(from, cr) =~= line);
        assert forall|i: int| 0 <= i < others.len() implies passed_over(#[trigger] others[i]) by {}
        let taken = before + line + line_end();
        lemma_headers_without_length(taken, others, rest);
        assert(taken + header_section(others) + rest =~= input);
    }
}

/// A body that is shorter than its header says is not taken: more input is
/// awaited, and the end of the input is an error.
pub proof fn lemma_short_body_is_refused(body: Seq<u8>, cut: int)
    requires
        frame(body).len() <= usize::MAX,
        0 < cut < frame(body).len(),
    ensures
        parse(frame(body).take(cut)) == Ok::<Option<Frame>, FrameError>(None),
        parse_at_eof(frame(body).take(cut)) == Err::<Option<Frame>, FrameError>(FrameError::Eof),
{
    let short = frame(body).take(cut);
    let lost = frame(body).skip(cut);
    assert(short + lost =~= frame(body));
    lemma_frame_round_trip(body, Seq::empty());
    if parse(short) != Ok::<Option<Frame>, FrameError>(None) {
        lemma_verdict_stands(short, lost);
        // The verdict on the whole message is its frame, which ends beyond
        // the cut: it cannot have been read from the part before the cut.
        lemma_frame_within_input(short, 0, None);
    }
}

/// A message that is read lies within the input.
pub proof fn lemma_frame_within_input(input: Seq<u8>, from: int, length: Option<usize>)
    requires
        0 <= from <= input.len(),
        input.len() <= usize::MAX,
    ensures
        parse_headers(input, from, length) matches Ok(Some(f)) ==> from < f.start <= f.end
            <= input.len(),
    decreases input.len() - from,
{
    let lf = line_feed(input, from);
    lemma_line_feed(input, from);
    if lf < input.len() && lf != from && input[lf - 1] == 13 {
        match header(input.subrange(from, lf - 1)) {
            Ok(Header::Length(n)) => {
                lemma_frame_within_input(input, lf + 1, Some(n));
            },
            Ok(Header::Other) => {
                lemma_frame_within_input(input, lf + 1, length);
            },
            _ => {},
        }
    }
}

} // verus!
