//! Framing of a server-sent event stream: bytes in pieces of any size, data
//! payloads out.

use vstd::prelude::*;
use vstd::slice::slice_subrange;
#[allow(unused_imports)]
use vstd::utf8::{decode_utf8, valid_utf8};

use crate::text::{after_prefix, decode_lossy, trim};
#[allow(unused_imports)]
use crate::text::{lossy_text, texts, trimmed};

verus! {

/// The number of bytes before the first newline; all of them if there is none.
pub open spec fn line_length(bytes: Seq<u8>) -> nat
    decreases bytes.len(),
{
    if bytes.len() == 0 || bytes.first() == 10 {
        0
    } else {
        1 + line_length(bytes.drop_first())
    }
}

/// The payload of the text of a line: what follows `data: `, trimmed. Blank
/// lines, comments and lines of any other field have none.
pub open spec fn text_payload(text: Seq<char>) -> Option<Seq<char>> {
    let content = trimmed(text);
    if "data: "@.is_prefix_of(content) {
        Some(trimmed(content.skip("data: "@.len() as int)))
    } else {
        None
    }
}

/// The payload of a line: that of the text that it spells.
pub open spec fn payload(line: Seq<u8>) -> Option<Seq<char>> {
    text_payload(lossy_text(line))
}

/// Whether a line is the marker that ends a stream.
pub open spec fn is_end_marker(line: Seq<u8>) -> bool {
    payload(line) == Some("[DONE]"@)
}

/// Whether a line spells its decoding, if it is valid UTF-8.
pub open spec fn spells_decoding(line: Seq<u8>) -> bool {
    valid_utf8(line) ==> lossy_text(line) == decode_utf8(line)
}

/// Whether every complete line of a buffer, up to and with the first end
/// marker, spells its decoding if it is valid UTF-8.
pub open spec fn lines_spell_decodings(buffer: Seq<u8>) -> bool
    decreases buffer.len(),
{
    let end = line_length(buffer);
    if end >= buffer.len() {
        true
    } else {
        let line = buffer.take(end as int);
        spells_decoding(line) && (is_end_marker(line) || lines_spell_decodings(buffer.skip((end + 1) as int)))
    }
}

/// What reading the complete lines of a buffer gives.
pub struct Framing {
    /// The payloads read, in order.
    pub payloads: Seq<Seq<char>>,
    /// The bytes that were not read.
    pub rest: Seq<u8>,
    /// Whether reading stopped at an end marker.
    pub stopped: bool,
}

/// Reads the complete lines of a buffer up to and with the first end marker.
pub open spec fn framed(buffer: Seq<u8>) -> Framing
    decreases buffer.len(),
{
    let end = line_length(buffer);
    if end >= buffer.len() {
        Framing { payloads: seq![], rest: buffer, stopped: false }
    } else {
        let line = buffer.take(end as int);
        let tail = buffer.skip((end + 1) as int);
        if is_end_marker(line) {
            Framing { payloads: seq![], rest: tail, stopped: true }
        } else {
            let after = framed(tail);
            match payload(line) {
                Some(data) => Framing { payloads: seq![data] + after.payloads, ..after },
                None => after,
            }
        }
    }
}

/// The payloads of all the complete lines of a buffer, end markers left out.
pub open spec fn all_payloads(buffer: Seq<u8>) -> Seq<Seq<char>>
    decreases buffer.len(),
{
    let end = line_length(buffer);
    if end >= buffer.len() {
        seq![]
    } else {
        let line = buffer.take(end as int);
        let after = all_payloads(buffer.skip((end + 1) as int));
        match payload(line) {
            Some(data) => if is_end_marker(line) { after } else { seq![data] + after },
            None => after,
        }
    }
}

/// The bytes of the pieces of a stream, put together.
pub open spec fn stream_bytes(pieces: Seq<Seq<u8>>) -> Seq<u8>
    decreases pieces.len(),
{
    if pieces.len() == 0 {
        seq![]
    } else {
        pieces.first() + stream_bytes(pieces.drop_first())
    }
}

/// What reading a stream piece by piece gives, with `pending` left over from
/// before: each piece is put behind what is left over, and the result framed.
pub open spec fn framed_pieces(pending: Seq<u8>, pieces: Seq<Seq<u8>>) -> (Seq<Seq<char>>, Seq<u8>)
    decreases pieces.len(),
{
    if pieces.len() == 0 {
        (seq![], pending)
    } else {
        let now = framed(pending + pieces.first());
        let later = framed_pieces(now.rest, pieces.drop_first());
        (now.payloads + later.0, later.1)
    }
}

pub(crate) proof fn lemma_line_length(bytes: Seq<u8>)
    ensures
        line_length(bytes) <= bytes.len(),
        forall|i: int| 0 <= i < line_length(bytes) ==> #[trigger] bytes[i] != 10,
        line_length(bytes) < bytes.len() ==> bytes[line_length(bytes) as int] == 10,
    decreases bytes.len(),
{
    if bytes.len() > 0 && bytes.first() != 10 {
        let tail = bytes.drop_first();
        lemma_line_length(tail);
        assert forall|i: int| 0 <= i < line_length(bytes) implies #[trigger] bytes[i] != 10 by {
            if i > 0 {
                assert(tail[i - 1] == bytes[i]);
            }
        }
    }
}

/// The first newline of a buffer is where the bytes say it is.
pub(crate) proof fn lemma_line_length_is(bytes: Seq<u8>, end: nat)
    requires
        end <= bytes.len(),
        forall|i: int| 0 <= i < end ==> #[trigger] bytes[i] != 10,
        end < bytes.len() ==> bytes[end as int] == 10,
    ensures
        line_length(bytes) == end,
{
    lemma_line_length(bytes);
    let found = line_length(bytes);
    if found < end {
        assert(bytes[found as int] != 10);
    }
}

/// Bytes behind a buffer with a complete line leave that line as it is.
proof fn lemma_line_length_append(buffer: Seq<u8>, more: Seq<u8>)
    requires
        line_length(buffer) < buffer.len(),
    ensures
        line_length(buffer + more) == line_length(buffer),
        (buffer + more).take(line_length(buffer) as int) == buffer.take(line_length(buffer) as int),
        (buffer + more).skip((line_length(buffer) + 1) as int) == buffer.skip((line_length(buffer) + 1) as int) + more,
{
    let end = line_length(buffer);
    lemma_line_length(buffer);
    assert forall|i: int| 0 <= i < end implies #[trigger] (buffer + more)[i] != 10 by {
        assert(buffer[i] != 10);
    }
    lemma_line_length_is(buffer + more, end);
    assert((buffer + more).take(end as int) =~= buffer.take(end as int));
    assert((buffer + more).skip((end + 1) as int) =~= buffer.skip((end + 1) as int) + more);
}

/// Framing a longer buffer: it goes on where framing the shorter one left off,
/// unless that had stopped at an end marker.
pub(crate) proof fn lemma_framed_append(buffer: Seq<u8>, more: Seq<u8>)
    ensures
        ({
            let first = framed(buffer);
            let both = framed(buffer + more);
            let second = framed(first.rest + more);
            if first.stopped {
                both.payloads == first.payloads && both.rest == first.rest + more && both.stopped
            } else {
                both.payloads == first.payloads + second.payloads && both.rest == second.rest && both.stopped
                    == second.stopped
            }
        }),
    decreases buffer.len(),
{
    let end = line_length(buffer);
    if end < buffer.len() {
        lemma_line_length_append(buffer, more);
        let tail = buffer.skip((end + 1) as int);
        lemma_framed_append(tail, more);
        let first = framed(buffer);
        let second = framed(first.rest + more);
        let both = framed(buffer + more);
        assert(both.payloads =~= if first.stopped {
            first.payloads
        } else {
            first.payloads + second.payloads
        });
    } else {
        assert(framed(buffer).payloads + framed(buffer + more).payloads =~= framed(buffer + more).payloads);
    }
}

/// Of all the payloads, framing reads a first part and leaves the others.
pub(crate) proof fn lemma_all_payloads_append(buffer: Seq<u8>, more: Seq<u8>)
    ensures
        all_payloads(buffer + more) == framed(buffer).payloads + all_payloads(framed(buffer).rest + more),
    decreases buffer.len(),
{
    let end = line_length(buffer);
    if end < buffer.len() {
        lemma_line_length_append(buffer, more);
        let line = buffer.take(end as int);
        let tail = buffer.skip((end + 1) as int);
        if !is_end_marker(line) {
            lemma_all_payloads_append(tail, more);
        }
    }
    assert(all_payloads(buffer + more) =~= framed(buffer).payloads + all_payloads(framed(buffer).rest + more));
}

/// However a stream is cut into pieces, the payloads read are a first part of
/// all its payloads, the others being left unread; and once a piece has arrived
/// they are at least those in front of the first end marker.
pub proof fn lemma_pieces_read_in_order(pending: Seq<u8>, pieces: Seq<Seq<u8>>)
    ensures
        framed_pieces(pending, pieces).0 + all_payloads(framed_pieces(pending, pieces).1) == all_payloads(
            pending + stream_bytes(pieces),
        ),
        pieces.len() > 0 ==> framed(pending + stream_bytes(pieces)).payloads.is_prefix_of(
            framed_pieces(pending, pieces).0,
        ),
    decreases pieces.len(),
{
    let whole = pending + stream_bytes(pieces);
    let (read, rest) = framed_pieces(pending, pieces);
    if pieces.len() == 0 {
        assert(whole =~= pending);
        assert(read + all_payloads(rest) =~= all_payloads(whole));
    } else {
        let buffer = pending + pieces.first();
        let more = stream_bytes(pieces.drop_first());
        let first = framed(buffer);
        assert(whole =~= buffer + more);
        lemma_pieces_read_in_order(first.rest, pieces.drop_first());
        lemma_framed_append(buffer, more);
        lemma_all_payloads_append(buffer, more);
        assert(read + all_payloads(rest) =~= all_payloads(whole));
        if pieces.len() == 1 {
            assert(more =~= seq![]);
            assert(first.rest + more =~= first.rest);
            assert(buffer + more =~= buffer);
        }
    }
}

/// Two ways to cut a stream into pieces give the same payloads: all those of
/// the stream. The stream must not carry a payload behind its first end marker;
/// of one that does, it depends on the pieces whether it is read.
pub proof fn lemma_pieces_immaterial(one: Seq<Seq<u8>>, other: Seq<Seq<u8>>)
    requires
        stream_bytes(one) == stream_bytes(other),
        framed(stream_bytes(one)).payloads == all_payloads(stream_bytes(one)),
    ensures
        framed_pieces(seq![], one).0 == all_payloads(stream_bytes(one)),
        framed_pieces(seq![], other).0 == framed_pieces(seq![], one).0,
{
    lemma_stream_read_whole(one);
    lemma_stream_read_whole(other);
}

proof fn lemma_stream_read_whole(pieces: Seq<Seq<u8>>)
    requires
        framed(stream_bytes(pieces)).payloads == all_payloads(stream_bytes(pieces)),
    ensures
        framed_pieces(seq![], pieces).0 == all_payloads(stream_bytes(pieces)),
{
    let none = Seq::<u8>::empty();
    assert(none + stream_bytes(pieces) =~= stream_bytes(pieces));
    lemma_pieces_read_in_order(none, pieces);
    assert(framed_pieces(none, pieces).0 =~= all_payloads(stream_bytes(pieces)));
}

/// Reads the payload of a line. A line of valid UTF-8 spells its decoding.
pub fn read_payload(line: &[u8]) -> (read: Option<String>)
    ensures
        match read {
            Some(data) => payload(line@) == Some(data@),
            None => payload(line@) is None,
        },
        spells_decoding(line@),
{
    read_text_payload(decode_lossy(line).as_str())
}

/// Reads the payload of the text of a line.
pub fn read_text_payload(text: &str) -> (read: Option<String>)
    ensures
        match read {
            Some(data) => text_payload(text@) == Some(data@),
            None => text_payload(text@) is None,
        },
{
    let content = trim(text);
    match after_prefix(content, "data: ") {
        Some(rest) => {
            proof {
                assert(content@.skip("data: "@.len() as int) =~= rest@);
            }
            Some(trim(rest).to_owned())
        },
        None => None,
    }
}

/// The bytes of an event stream that have arrived and were not read yet.
pub struct EventBuffer {
    pending: Vec<u8>,
}

impl View for EventBuffer {
    type V = Seq<u8>;

    closed spec fn view(&self) -> Seq<u8> {
        self.pending@
    }
}

impl EventBuffer {
    /// A buffer before the stream has started.
    pub fn new() -> (buffer: Self)
        ensures
            buffer@ == Seq::<u8>::empty(),
    {
        EventBuffer { pending: Vec::new() }
    }

    /// Takes in the next piece of the stream and reads the complete lines, up
    /// to and with an end marker. Lines behind an end marker are kept, and read
    /// when a further piece arrives.
    pub fn feed(&mut self, piece: &[u8]) -> (payloads: Vec<String>)
        ensures
            texts(payloads@) == framed(old(self)@ + piece@).payloads,
            final(self)@ == framed(old(self)@ + piece@).rest,
            lines_spell_decodings(old(self)@ + piece@),
    {
        self.pending.extend_from_slice(piece);
        let ghost buffer = old(self)@ + piece@;
        assert(self.pending@ =~= buffer);
        let end_marker = "[DONE]".to_owned();
        let total = self.pending.len();
        let mut payloads: Vec<String> = Vec::new();
        let mut start: usize = 0;
        let mut stopped = false;
        assert(buffer.skip(0) =~= buffer);
        while !stopped
            invariant
                self.pending@ == buffer,
                total == buffer.len(),
                start <= total,
                end_marker@ == "[DONE]"@,
                !stopped ==> framed(buffer).payloads == texts(payloads@) + framed(buffer.skip(start as int)).payloads
                    && framed(buffer).rest == framed(buffer.skip(start as int)).rest && (lines_spell_decodings(
                    buffer.skip(start as int),
                ) ==> lines_spell_decodings(buffer)),
                stopped ==> framed(buffer).payloads == texts(payloads@) && framed(buffer).rest == buffer.skip(
                    start as int,
                ) && lines_spell_decodings(buffer),
            decreases total - start, if stopped { 0int } else { 1int },
        {
            let ghost unread = buffer.skip(start as int);
            let mut end: usize = start;
            while end < total && self.pending[end] != 10
                invariant
                    self.pending@ == buffer,
                    total == buffer.len(),
                    start <= end <= total,
                    forall|i: int| start <= i < end ==> #[trigger] buffer[i] != 10,
                decreases total - end,
            {
                end = end + 1;
            }
            proof {
                lemma_line_length_is(unread, (end - start) as nat);
            }
            if end == total {
                stopped = true;
                assert(texts(payloads@) + Seq::empty() =~= texts(payloads@));
            } else {
                let line = slice_subrange(self.pending.as_slice(), start, end);
                let read = read_payload(line);
                let ghost tail = buffer.skip(end + 1);
                let ghost before = texts(payloads@);
                proof {
                    assert(line@ =~= unread.take(end - start));
                    assert(tail =~= unread.skip(end - start + 1));
                }
                start = end + 1;
                match read {
                    Some(data) => {
                        if data == end_marker {
                            stopped = true;
                            assert(before + Seq::empty() =~= before);
                        } else {
                            let ghost text = data@;
                            payloads.push(data);
                            assert(texts(payloads@) =~= before.push(text));
                            assert(before + (seq![text] + framed(tail).payloads) =~= before.push(text)
                                + framed(tail).payloads);
                        }
                    },
                    None => {},
                }
            }
        }
        let rest = self.pending.split_off(start);
        self.pending = rest;
        assert(self.pending@ =~= buffer.skip(start as int));
        payloads
    }
}

} // verus!
