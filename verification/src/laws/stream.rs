//! Laws of reading an event stream.

use vstd::prelude::*;
#[allow(unused_imports)]
use vstd::utf8::{
    decode_utf8, encode_utf8, encode_utf8_decode_utf8, encode_utf8_first_scalar, encode_utf8_valid_utf8,
};

#[allow(unused_imports)]
use crate::proxy::sse::{
    all_payloads, framed, is_end_marker, lemma_framed_append, lemma_line_length, lemma_line_length_is, line_length,
    lines_spell_decodings, payload, read_payload, read_text_payload, spells_decoding, stream_bytes, text_payload,
    EventBuffer,
};
#[allow(unused_imports)]
use crate::text::{is_white_space, lossy_text, texts, trimmed, trimmed_end, trimmed_start};

verus! {

/// Of the ASCII characters, white space is the space, the tab, the two ways to
/// end a line, and the vertical tab and form feed between them.
pub proof fn lemma_ascii_white_space(c: char)
    requires
        c <= '\u{7f}',
    ensures
        is_white_space(c) <==> c == ' ' || c == '\t' || c == '\n' || c == '\u{b}' || c == '\u{c}' || c == '\r',
{
}

/// Whether a text is nothing but white space.
pub open spec fn is_blank(s: Seq<char>) -> bool {
    forall|i: int| 0 <= i < s.len() ==> is_white_space(#[trigger] s[i])
}

/// Whether a text has something in it and no white space at either end.
pub open spec fn is_bare(s: Seq<char>) -> bool {
    s.len() > 0 && !is_white_space(s[0]) && !is_white_space(s[s.len() - 1])
}

proof fn lemma_trimmed_start(before: Seq<char>, rest: Seq<char>)
    requires
        is_blank(before),
        rest.len() == 0 || !is_white_space(rest[0]),
    ensures
        trimmed_start(before + rest) == rest,
    decreases before.len(),
{
    if before.len() == 0 {
        assert(before + rest =~= rest);
    } else {
        assert(is_white_space(before[0]));
        assert((before + rest).drop_first() =~= before.drop_first() + rest);
        lemma_trimmed_start(before.drop_first(), rest);
    }
}

proof fn lemma_trimmed_end(rest: Seq<char>, after: Seq<char>)
    requires
        is_blank(after),
        rest.len() == 0 || !is_white_space(rest[rest.len() - 1]),
    ensures
        trimmed_end(rest + after) == rest,
    decreases after.len(),
{
    if after.len() == 0 {
        assert(rest + after =~= rest);
    } else {
        assert(is_white_space(after[after.len() - 1]));
        assert((rest + after).drop_last() =~= rest + after.drop_last());
        lemma_trimmed_end(rest, after.drop_last());
    }
}

/// Trimming takes off the white space at both ends, and nothing else.
pub proof fn lemma_trimmed(before: Seq<char>, inner: Seq<char>, after: Seq<char>)
    requires
        is_blank(before),
        is_blank(after),
        is_bare(inner),
    ensures
        trimmed(before + inner + after) == inner,
        trimmed(before + after).len() == 0,
{
    assert(before + inner + after =~= before + (inner + after));
    lemma_trimmed_start(before, inner + after);
    lemma_trimmed_end(inner, after);
    let blank = before + after;
    let none = Seq::<char>::empty();
    assert(blank + none =~= blank);
    lemma_trimmed_start(blank, none);
}

proof fn lemma_bare_is_trimmed(inner: Seq<char>)
    requires
        is_bare(inner),
    ensures
        trimmed(inner) == inner,
{
    let none = Seq::<char>::empty();
    assert(none + inner + none =~= inner);
    lemma_trimmed(none, inner, none);
}

/// The payload behind `data: ` is read as it stands: whatever it is, as long as
/// it has no white space at its ends.
pub proof fn lemma_payload_is_what_follows(data: Seq<char>)
    requires
        is_bare(data),
    ensures
        text_payload("data: "@ + data) == Some(data),
{
    let none = Seq::<char>::empty();
    assert(none + "data: "@ + none + data + none =~= "data: "@ + data);
    lemma_payload_in_white_space(none, none, data, none);
}

/// White space in front of the line, behind it, and in front of the payload
/// makes no difference to what is read.
pub proof fn lemma_payload_in_white_space(before: Seq<char>, between: Seq<char>, data: Seq<char>, after: Seq<char>)
    requires
        is_blank(before),
        is_blank(between),
        is_bare(data),
        is_blank(after),
    ensures
        text_payload(before + "data: "@ + between + data + after) == Some(data),
{
    reveal_strlit("data: ");
    let inner = "data: "@ + between + data;
    assert(inner[0] == 'd');
    assert(inner[inner.len() - 1] == data[data.len() - 1]);
    assert(before + "data: "@ + between + data + after =~= before + inner + after);
    lemma_trimmed(before, inner, after);
    assert("data: "@.is_prefix_of(inner));
    let none = Seq::<char>::empty();
    assert(inner.skip(6) =~= between + data + none);
    lemma_trimmed(between, data, none);
}

/// A line has a payload if and only if, but for the white space around it, it
/// starts with `data: `.
pub proof fn lemma_who_has_a_payload(before: Seq<char>, inner: Seq<char>, after: Seq<char>)
    requires
        is_blank(before),
        is_bare(inner),
        is_blank(after),
    ensures
        text_payload(before + inner + after) is Some <==> inner.len() >= 6 && inner.take(6) == seq![
            'd',
            'a',
            't',
            'a',
            ':',
            ' ',
        ],
{
    reveal_strlit("data: ");
    lemma_trimmed(before, inner, after);
    let field = seq!['d', 'a', 't', 'a', ':', ' '];
    assert("data: "@ =~= field);
    if inner.len() >= 6 && inner.take(6) == field {
        assert(field.is_prefix_of(inner));
    }
    if field.is_prefix_of(inner) {
        assert(inner.take(6) =~= field);
    }
}

/// A blank line has no payload, and a field without a value has none.
pub proof fn lemma_no_payload(before: Seq<char>, after: Seq<char>)
    requires
        is_blank(before),
        is_blank(after),
    ensures
        text_payload(before + after) is None,
        text_payload(before + "data:"@ + after) is None,
{
    reveal_strlit("data: ");
    reveal_strlit("data:");
    let field = "data:"@;
    assert(is_bare(field));
    lemma_trimmed(before, field, after);
}

/// What is read of the text of a line: its payload, whatever white space stands
/// around it.
pub proof fn lemma_text_read(
    text: &str,
    before: Seq<char>,
    between: Seq<char>,
    data: Seq<char>,
    after: Seq<char>,
    read: Option<String>,
)
    requires
        call_ensures(read_text_payload, (text,), read),
        text@ == before + "data: "@ + between + data + after,
        is_blank(before),
        is_blank(between),
        is_bare(data),
        is_blank(after),
    ensures
        read matches Some(given) && given@ == data,
{
    lemma_payload_in_white_space(before, between, data, after);
}

/// Nothing is read of the text of a line if and only if, but for the white
/// space around it, it does not start with `data: `.
pub proof fn lemma_text_not_read(
    text: &str,
    before: Seq<char>,
    inner: Seq<char>,
    after: Seq<char>,
    read: Option<String>,
)
    requires
        call_ensures(read_text_payload, (text,), read),
        text@ == before + inner + after,
        is_blank(before),
        inner.len() == 0 || is_bare(inner),
        is_blank(after),
    ensures
        read is None <==> !(inner.len() >= 6 && inner.take(6) == seq!['d', 'a', 't', 'a', ':', ' ']),
{
    if inner.len() == 0 {
        assert(before + inner + after =~= before + after);
        lemma_no_payload(before, after);
    } else {
        lemma_who_has_a_payload(before, inner, after);
    }
}

/// The bytes that spell a payload behind `data: ` are read as that payload,
/// whatever white space stands around it.
pub proof fn lemma_line_read(
    line: &[u8],
    before: Seq<char>,
    between: Seq<char>,
    data: Seq<char>,
    after: Seq<char>,
    read: Option<String>,
)
    requires
        call_ensures(read_payload, (line,), read),
        line@ == encode_utf8(before + "data: "@ + between + data + after),
        is_blank(before),
        is_blank(between),
        is_bare(data),
        is_blank(after),
    ensures
        read matches Some(given) && given@ == data,
{
    let text = before + "data: "@ + between + data + after;
    encode_utf8_valid_utf8(text);
    encode_utf8_decode_utf8(text);
    lemma_payload_in_white_space(before, between, data, after);
}

/// Nothing is read of the bytes of a line if and only if, but for the white
/// space around it, the text that they spell does not start with `data: `.
pub proof fn lemma_line_not_read(
    line: &[u8],
    before: Seq<char>,
    inner: Seq<char>,
    after: Seq<char>,
    read: Option<String>,
)
    requires
        call_ensures(read_payload, (line,), read),
        line@ == encode_utf8(before + inner + after),
        is_blank(before),
        inner.len() == 0 || is_bare(inner),
        is_blank(after),
    ensures
        read is None <==> !(inner.len() >= 6 && inner.take(6) == seq!['d', 'a', 't', 'a', ':', ' ']),
{
    encode_utf8_valid_utf8(before + inner + after);
    encode_utf8_decode_utf8(before + inner + after);
    if inner.len() == 0 {
        assert(before + inner + after =~= before + after);
        lemma_no_payload(before, after);
    } else {
        lemma_who_has_a_payload(before, inner, after);
    }
}

/// Whether no newline is among the bytes.
pub open spec fn is_one_line(bytes: Seq<u8>) -> bool {
    forall|i: int| 0 <= i < bytes.len() ==> #[trigger] bytes[i] != 10
}

proof fn lemma_first_line(line: Seq<u8>, more: Seq<u8>)
    requires
        is_one_line(line),
    ensures
        line_length(line) == line.len(),
        line_length(line + seq![10u8] + more) == line.len(),
        (line + seq![10u8] + more).take(line.len() as int) == line,
        (line + seq![10u8] + more).skip((line.len() + 1) as int) == more,
{
    let buffer = line + seq![10u8] + more;
    lemma_line_length_is(line, line.len());
    assert forall|i: int| 0 <= i < line.len() implies #[trigger] buffer[i] != 10 by {
        assert(buffer[i] == line[i]);
    }
    lemma_line_length_is(buffer, line.len());
    assert(buffer.take(line.len() as int) =~= line);
    assert(buffer.skip((line.len() + 1) as int) =~= more);
}

/// Nothing is read of a line before its newline has arrived, and nothing of it
/// is lost.
pub proof fn lemma_unfinished_line_waits(line: Seq<u8>)
    requires
        is_one_line(line),
    ensures
        framed(line).payloads.len() == 0,
        framed(line).rest == line,
        !framed(line).stopped,
        all_payloads(line).len() == 0,
{
    lemma_line_length_is(line, line.len());
}

/// A line that carries a payload, with its newline and more behind it: the
/// payload comes first, and the others follow.
pub proof fn lemma_data_line(
    line: Seq<u8>,
    before: Seq<char>,
    between: Seq<char>,
    data: Seq<char>,
    after: Seq<char>,
    more: Seq<u8>,
)
    requires
        is_one_line(line),
        lossy_text(line) == before + "data: "@ + between + data + after,
        is_blank(before),
        is_blank(between),
        is_bare(data),
        is_blank(after),
        data != "[DONE]"@,
    ensures
        framed(line + seq![10u8] + more).payloads == seq![data] + framed(more).payloads,
        framed(line + seq![10u8] + more).rest == framed(more).rest,
        framed(line + seq![10u8] + more).stopped == framed(more).stopped,
        all_payloads(line + seq![10u8] + more) == seq![data] + all_payloads(more),
{
    lemma_first_line(line, more);
    lemma_payload_in_white_space(before, between, data, after);
}

/// A line that says `[DONE]` is not handed out; reading stops behind it, and
/// what follows is kept.
pub proof fn lemma_end_line(line: Seq<u8>, before: Seq<char>, between: Seq<char>, after: Seq<char>, more: Seq<u8>)
    requires
        is_one_line(line),
        lossy_text(line) == before + "data: "@ + between + "[DONE]"@ + after,
        is_blank(before),
        is_blank(between),
        is_blank(after),
    ensures
        framed(line + seq![10u8] + more).payloads.len() == 0,
        framed(line + seq![10u8] + more).rest == more,
        framed(line + seq![10u8] + more).stopped,
        all_payloads(line + seq![10u8] + more) == all_payloads(more),
{
    lemma_first_line(line, more);
    reveal_strlit("[DONE]");
    lemma_payload_in_white_space(before, between, "[DONE]"@, after);
}

/// A line that is blank, a comment or another field is passed over.
pub proof fn lemma_other_line(line: Seq<u8>, before: Seq<char>, inner: Seq<char>, after: Seq<char>, more: Seq<u8>)
    requires
        is_one_line(line),
        lossy_text(line) == before + inner + after,
        is_blank(before),
        is_blank(after),
        inner.len() == 0 || is_bare(inner),
        inner.len() < 6 || inner.take(6) != seq!['d', 'a', 't', 'a', ':', ' '],
    ensures
        framed(line + seq![10u8] + more) == framed(more),
        all_payloads(line + seq![10u8] + more) == all_payloads(more),
{
    lemma_first_line(line, more);
    if inner.len() == 0 {
        assert(before + inner + after =~= before + after);
        lemma_no_payload(before, after);
    } else {
        lemma_who_has_a_payload(before, inner, after);
    }
}

/// What reading leaves is the end of what there was, and holds no newline
/// unless reading stopped at an end marker.
pub proof fn lemma_rest_is_the_end(buffer: Seq<u8>)
    ensures
        framed(buffer).rest.len() <= buffer.len(),
        framed(buffer).rest == buffer.skip(buffer.len() - framed(buffer).rest.len()),
        !framed(buffer).stopped ==> is_one_line(framed(buffer).rest),
    decreases buffer.len(),
{
    let end = line_length(buffer);
    lemma_line_length(buffer);
    if end < buffer.len() {
        let tail = buffer.skip((end + 1) as int);
        lemma_rest_is_the_end(tail);
        let rest = framed(buffer).rest;
        assert(rest =~= buffer.skip(buffer.len() - rest.len()));
    } else {
        assert(buffer.skip(0) =~= buffer);
    }
}

/// A piece that completes no line changes nothing but what is waiting.
pub proof fn lemma_piece_without_newline(pending: Seq<u8>, piece: Seq<u8>)
    requires
        is_one_line(pending),
        is_one_line(piece),
    ensures
        framed(pending + piece).payloads.len() == 0,
        framed(pending + piece).rest == pending + piece,
{
    assert(is_one_line(pending + piece));
    lemma_unfinished_line_waits(pending + piece);
}

/// Reading a buffer and then more bytes is reading them together, as long as
/// the buffer holds no end marker.
pub proof fn lemma_reading_goes_on(buffer: Seq<u8>, more: Seq<u8>)
    requires
        !framed(buffer).stopped,
    ensures
        framed(buffer + more).payloads == framed(buffer).payloads + framed(framed(buffer).rest + more).payloads,
        framed(buffer + more).rest == framed(framed(buffer).rest + more).rest,
{
    lemma_framed_append(buffer, more);
}

/// No newline comes of writing text that has none.
pub proof fn lemma_written_on_one_line(s: Seq<char>)
    requires
        forall|i: int| 0 <= i < s.len() ==> #[trigger] s[i] != '\n',
    ensures
        is_one_line(encode_utf8(s)),
    decreases s.len(),
{
    if s.len() > 0 {
        let bytes = encode_utf8(s);
        let later = encode_utf8(s.drop_first());
        let width = vstd::utf8::encode_scalar(s[0] as u32).len();
        lemma_written_on_one_line(s.drop_first());
        encode_utf8_first_scalar(s);
        assert(10u8 & 0x7f == 10) by (bit_vector);
        assert(s[0] != '\n');
        assert(bytes =~= bytes.take(width as int) + later);
        if bytes[0] == 10 {
            let first = vstd::utf8::decode_first_scalar(bytes);
            assert(first == 10);
            vstd::utf8::char_u32_cast(s[0], first);
            assert(first as char == '\n');
        }
        assert forall|i: int| 0 <= i < bytes.len() implies #[trigger] bytes[i] != 10 by {
            if i >= width {
                assert(bytes[i] == later[i - width]);
            }
        }
    }
}

/// The bytes of a stream that sends these payloads, each as an event: a line,
/// and an empty line behind it.
pub open spec fn event_stream(data: Seq<Seq<char>>) -> Seq<u8>
    decreases data.len(),
{
    if data.len() == 0 {
        seq![]
    } else {
        encode_utf8("data: "@ + data.first()) + seq![10u8, 10u8] + event_stream(data.drop_first())
    }
}

/// Whether a payload can be sent on a line of its own and be read as a payload.
pub open spec fn can_be_sent(data: Seq<char>) -> bool {
    &&& is_bare(data)
    &&& forall|i: int| 0 <= i < data.len() ==> #[trigger] data[i] != '\n'
    &&& data != "[DONE]"@
}

proof fn lemma_one_event(data: Seq<char>, more: Seq<u8>)
    requires
        can_be_sent(data),
        lines_spell_decodings(encode_utf8("data: "@ + data) + seq![10u8, 10u8] + more),
    ensures
        ({
            let buffer = encode_utf8("data: "@ + data) + seq![10u8, 10u8] + more;
            &&& framed(buffer).payloads == seq![data] + framed(more).payloads
            &&& framed(buffer).rest == framed(more).rest
            &&& framed(buffer).stopped == framed(more).stopped
            &&& lines_spell_decodings(more)
        }),
{
    reveal_strlit("data: ");
    let text = "data: "@ + data;
    let line = encode_utf8(text);
    let none = Seq::<u8>::empty();
    let tail = none + seq![10u8] + more;
    let buffer = line + seq![10u8] + tail;
    assert(line + seq![10u8, 10u8] + more =~= buffer);
    lemma_written_on_one_line(text);
    lemma_first_line(line, tail);
    lemma_first_line(none, more);
    encode_utf8_valid_utf8(text);
    encode_utf8_decode_utf8(text);
    lemma_payload_is_what_follows(data);
    assert(spells_decoding(line));
    assert(!is_end_marker(line));
    assert(lines_spell_decodings(tail));
    assert(spells_decoding(none));
    let blank = Seq::<char>::empty();
    assert(decode_utf8(none) =~= blank);
    assert(blank + blank =~= blank);
    lemma_no_payload(blank, blank);
    assert(blank + blank + blank =~= blank);
    assert(blank + "data: "@ + blank + data + blank =~= text);
    lemma_data_line(line, blank, blank, data, blank, tail);
    lemma_other_line(none, blank, blank, blank, more);
}

/// What was sent is read: of a stream of events the payloads come out as they
/// went in, all of them and in order, and those of the bytes behind it follow.
pub proof fn lemma_events_read_back(data: Seq<Seq<char>>, more: Seq<u8>)
    requires
        forall|i: int| 0 <= i < data.len() ==> can_be_sent(#[trigger] data[i]),
        lines_spell_decodings(event_stream(data) + more),
    ensures
        framed(event_stream(data) + more).payloads == data + framed(more).payloads,
        framed(event_stream(data) + more).rest == framed(more).rest,
        framed(event_stream(data) + more).stopped == framed(more).stopped,
        lines_spell_decodings(more),
    decreases data.len(),
{
    if data.len() == 0 {
        assert(event_stream(data) + more =~= more);
        assert(data + framed(more).payloads =~= framed(more).payloads);
    } else {
        let rest = data.drop_first();
        let tail = event_stream(rest) + more;
        assert(event_stream(data) + more =~= encode_utf8("data: "@ + data.first()) + seq![10u8, 10u8] + tail);
        assert(can_be_sent(data[0]));
        lemma_one_event(data.first(), tail);
        assert forall|i: int| 0 <= i < rest.len() implies can_be_sent(#[trigger] rest[i]) by {
            assert(rest[i] == data[i + 1]);
        }
        lemma_events_read_back(rest, more);
        assert(framed(event_stream(data) + more).payloads =~= data + framed(more).payloads);
    }
}

/// A whole stream: the events, and the marker that ends it. The payloads are
/// those that were sent, and what follows the marker is kept unread.
pub proof fn lemma_whole_stream_read_back(data: Seq<Seq<char>>, more: Seq<u8>)
    requires
        forall|i: int| 0 <= i < data.len() ==> can_be_sent(#[trigger] data[i]),
        lines_spell_decodings(event_stream(data) + (encode_utf8("data: [DONE]"@) + seq![10u8] + more)),
    ensures
        ({
            let framing = framed(event_stream(data) + (encode_utf8("data: [DONE]"@) + seq![10u8] + more));
            &&& framing.payloads == data
            &&& framing.rest == more
            &&& framing.stopped
        }),
{
    let marker = encode_utf8("data: [DONE]"@);
    reveal_strlit("data: [DONE]");
    lemma_events_read_back(data, marker + seq![10u8] + more);
    lemma_written_on_one_line("data: [DONE]"@);
    lemma_first_line(marker, more);
    encode_utf8_valid_utf8("data: [DONE]"@);
    encode_utf8_decode_utf8("data: [DONE]"@);
    assert(spells_decoding(marker));
    reveal_strlit("data: ");
    reveal_strlit("[DONE]");
    let blank = Seq::<char>::empty();
    assert(blank + "data: "@ + blank + "[DONE]"@ + blank =~= "data: [DONE]"@);
    lemma_end_line(marker, blank, blank, blank, more);
    assert(framed(event_stream(data) + (marker + seq![10u8] + more)).payloads =~= data);
}

/// A buffer that events arrive in hands out their payloads, one for one and in
/// order, and keeps what has arrived of the next line.
pub proof fn lemma_events_fed(
    buffer: &mut EventBuffer,
    piece: &[u8],
    payloads: Vec<String>,
    data: Seq<Seq<char>>,
    rest: Seq<u8>,
)
    requires
        call_ensures(EventBuffer::feed, (buffer, piece), payloads),
        old(buffer)@ + piece@ == event_stream(data) + rest,
        forall|i: int| 0 <= i < data.len() ==> can_be_sent(#[trigger] data[i]),
        is_one_line(rest),
    ensures
        payloads@.len() == data.len(),
        forall|i: int| 0 <= i < data.len() ==> (#[trigger] payloads@[i])@ == data[i],
        final(buffer)@ == rest,
{
    lemma_events_read_back(data, rest);
    lemma_unfinished_line_waits(rest);
    assert(data + framed(rest).payloads =~= data);
    assert(texts(payloads@).len() == data.len());
    assert forall|i: int| 0 <= i < data.len() implies (#[trigger] payloads@[i])@ == data[i] by {
        assert(texts(payloads@)[i] == data[i]);
    }
}

/// At the marker that ends a stream a buffer hands out the payloads in front of
/// it, and keeps what is behind it.
pub proof fn lemma_stream_fed(
    buffer: &mut EventBuffer,
    piece: &[u8],
    payloads: Vec<String>,
    data: Seq<Seq<char>>,
    more: Seq<u8>,
)
    requires
        call_ensures(EventBuffer::feed, (buffer, piece), payloads),
        old(buffer)@ + piece@ == event_stream(data) + (encode_utf8("data: [DONE]"@) + seq![10u8] + more),
        forall|i: int| 0 <= i < data.len() ==> can_be_sent(#[trigger] data[i]),
    ensures
        payloads@.len() == data.len(),
        forall|i: int| 0 <= i < data.len() ==> (#[trigger] payloads@[i])@ == data[i],
        final(buffer)@ == more,
{
    lemma_whole_stream_read_back(data, more);
    assert(texts(payloads@).len() == data.len());
    assert forall|i: int| 0 <= i < data.len() implies (#[trigger] payloads@[i])@ == data[i] by {
        assert(texts(payloads@)[i] == data[i]);
    }
}

/// A new buffer holds nothing.
pub proof fn lemma_new_buffer(made: EventBuffer)
    requires
        call_ensures(EventBuffer::new, (), made),
    ensures
        made@.len() == 0,
{
}

/// The bytes of the pieces of a stream are those of the first, and then those of
/// the others.
pub proof fn lemma_stream_bytes(earlier: Seq<Seq<u8>>, later: Seq<Seq<u8>>, piece: Seq<u8>)
    ensures
        stream_bytes(seq![piece]) == piece,
        stream_bytes(earlier + later) == stream_bytes(earlier) + stream_bytes(later),
    decreases earlier.len(),
{
    reveal_with_fuel(stream_bytes, 2);
    assert(seq![piece].drop_first() =~= seq![]);
    assert(stream_bytes(seq![piece]) =~= piece);
    if earlier.len() == 0 {
        assert(earlier + later =~= later);
        assert(stream_bytes(earlier) + stream_bytes(later) =~= stream_bytes(later));
    } else {
        assert((earlier + later).drop_first() =~= earlier.drop_first() + later);
        lemma_stream_bytes(earlier.drop_first(), later, piece);
        assert(stream_bytes(earlier + later) =~= stream_bytes(earlier) + stream_bytes(later));
    }
}

} // verus!
