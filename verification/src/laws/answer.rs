//! Laws of collecting a streamed answer.

use serde_json::Value;
use vstd::prelude::*;
#[allow(unused_imports)]
use vstd::utf8::encode_utf8;

#[allow(unused_imports)]
use crate::clock::now;
#[allow(unused_imports)]
use crate::json::{document, member, Json, JsonNumber};
#[allow(unused_imports)]
use crate::laws::stream::{
    can_be_sent, event_stream, is_one_line, lemma_events_read_back, lemma_unfinished_line_waits,
    lemma_whole_stream_read_back,
};
#[allow(unused_imports)]
use crate::proxy::completion::{
    can_read, can_read_all, chunks_of, chunks_read, collected, collected_pieces, completion, lemma_answer_of_stream,
    lemma_chunks_of_append, lemma_collected, lemma_extended_by_append, reads_as, Answer, Chunk, ChunkModel, Collector,
};
#[allow(unused_imports)]
use crate::proxy::sse::{
    all_payloads, framed, framed_pieces, lemma_all_payloads_append, lines_spell_decodings, stream_bytes,
};
#[allow(unused_imports)]
use crate::text::{decimal, texts};

verus! {

/// What a chunk with a choice adds, the text of the chunk itself, to the letter:
/// its first choice's content and reasoning go to the end, and its id and that
/// choice's finish reason count where none came before.
pub proof fn lemma_chunk_adds(answer: Answer, chunk: Chunk)
    requires
        chunk.choices@.len() > 0,
    ensures
        answer.extended(chunk@).content == answer.content + chunk.choices@[0].delta.content@,
        answer.extended(chunk@).reasoning == answer.reasoning + chunk.choices@[0].delta.reasoning_content@,
        answer.id is None ==> answer.extended(chunk@).id == Some(chunk.id@),
        answer.id is Some ==> answer.extended(chunk@).id == answer.id,
        answer.finish_reason is Some ==> answer.extended(chunk@).finish_reason == answer.finish_reason,
        answer.finish_reason is None ==> (chunk.choices@[0].finish_reason matches Some(reason) ==> answer.extended(
            chunk@,
        ).finish_reason == Some(reason@)),
        answer.finish_reason is None && chunk.choices@[0].finish_reason is None ==> answer.extended(
            chunk@,
        ).finish_reason is None,
{
    assert(chunk@.choices[0] == chunk.choices@[0]@);
}

/// A chunk without choices adds nothing but its id.
pub proof fn lemma_empty_chunk_adds(answer: Answer, chunk: Chunk)
    requires
        chunk.choices@.len() == 0,
    ensures
        answer.extended(chunk@).content == answer.content,
        answer.extended(chunk@).reasoning == answer.reasoning,
        answer.extended(chunk@).finish_reason == answer.finish_reason,
        answer.id is None ==> answer.extended(chunk@).id == Some(chunk.id@),
        answer.id is Some ==> answer.extended(chunk@).id == answer.id,
{
    assert(answer.extended(chunk@).content =~= answer.content);
    assert(answer.extended(chunk@).reasoning =~= answer.reasoning);
}

/// Choices behind the first make no difference.
pub proof fn lemma_first_choice_counts(answer: Answer, one: Chunk, other: Chunk)
    requires
        one.id@ == other.id@,
        one.choices@.len() > 0,
        other.choices@.len() > 0,
        one.choices@[0] == other.choices@[0],
    ensures
        answer.extended(one@) == answer.extended(other@),
{
    assert(one@.choices[0] == one.choices@[0]@);
    assert(other@.choices[0] == other.choices@[0]@);
}

/// Chunks are added one after another.
pub proof fn lemma_chunks_add_in_order(answer: Answer, earlier: Seq<ChunkModel>, chunk: ChunkModel)
    ensures
        answer.extended_by(Seq::empty()) == answer,
        answer.extended_by(earlier.push(chunk)) == answer.extended_by(earlier).extended(chunk),
{
    assert(earlier.push(chunk) =~= earlier + seq![chunk]);
    lemma_extended_by_append(answer, earlier, seq![chunk]);
    reveal_with_fuel(Answer::extended_by, 2);
    assert(seq![chunk].drop_first() =~= seq![]);
}

/// What is collected of chunks, to the letter: nothing of none, and one more
/// chunk adds its first choice's content and reasoning at the end. The id is
/// that of the first chunk, and the finish reason the first that was given.
pub proof fn lemma_collected_to_the_letter(earlier: Seq<ChunkModel>, chunk: Chunk)
    requires
        chunk.choices@.len() > 0,
    ensures
        collected(Seq::empty()).content.len() == 0,
        collected(Seq::empty()).reasoning.len() == 0,
        collected(Seq::empty()).id is None,
        collected(Seq::empty()).finish_reason is None,
        collected(earlier.push(chunk@)).content == collected(earlier).content + chunk.choices@[0].delta.content@,
        collected(earlier.push(chunk@)).reasoning == collected(earlier).reasoning
            + chunk.choices@[0].delta.reasoning_content@,
        earlier.len() > 0 ==> collected(earlier.push(chunk@)).id == collected(earlier).id,
        earlier.len() == 0 ==> collected(earlier.push(chunk@)).id == Some(chunk.id@),
        collected(earlier).finish_reason is Some ==> collected(earlier.push(chunk@)).finish_reason == collected(
            earlier,
        ).finish_reason,
        collected(earlier).finish_reason is None ==> match chunk.choices@[0].finish_reason {
            Some(reason) => collected(earlier.push(chunk@)).finish_reason == Some(reason@),
            None => collected(earlier.push(chunk@)).finish_reason is None,
        },
{
    lemma_collected(earlier);
    lemma_collected(earlier.push(chunk@));
    lemma_chunks_add_in_order(Answer::empty(), earlier, chunk@);
    lemma_chunk_adds(collected(earlier), chunk);
}

/// The first content of an answer is at its start, whatever follows.
pub proof fn lemma_nothing_collected_is_lost(answer: Answer, chunks: Seq<ChunkModel>)
    ensures
        answer.content.is_prefix_of(answer.extended_by(chunks).content),
        answer.reasoning.is_prefix_of(answer.extended_by(chunks).reasoning),
        answer.id is Some ==> answer.extended_by(chunks).id == answer.id,
        answer.finish_reason is Some ==> answer.extended_by(chunks).finish_reason == answer.finish_reason,
    decreases chunks.len(),
{
    if chunks.len() > 0 {
        let next = answer.extended(chunks.first());
        lemma_nothing_collected_is_lost(next, chunks.drop_first());
        assert(answer.content.is_prefix_of(next.content));
        assert(answer.reasoning.is_prefix_of(next.reasoning));
    }
}

/// Of payloads, those that are chunks are read, in order, and the others passed
/// over.
pub proof fn lemma_chunks_of_payloads(
    earlier: Seq<Seq<char>>,
    payload: Seq<char>,
    read: spec_fn(Seq<char>) -> Option<ChunkModel>,
)
    ensures
        chunks_of(Seq::empty(), read).len() == 0,
        read(payload) matches Some(chunk) ==> chunks_of(earlier.push(payload), read) == chunks_of(earlier, read).push(
            chunk,
        ),
        read(payload) is None ==> chunks_of(earlier.push(payload), read) == chunks_of(earlier, read),
{
    assert(earlier.push(payload) =~= earlier + seq![payload]);
    lemma_chunks_of_append(earlier, seq![payload], read);
    reveal_with_fuel(chunks_of, 2);
    assert(seq![payload].drop_first() =~= seq![]);
    if let Some(chunk) = read(payload) {
        assert(chunks_of(earlier.push(payload), read) =~= chunks_of(earlier, read).push(chunk));
    } else {
        assert(chunks_of(earlier.push(payload), read) =~= chunks_of(earlier, read));
    }
}

/// Of the outcomes of reading, the chunks are kept, in order, and the others
/// passed over.
pub proof fn lemma_chunks_of_outcomes(earlier: Seq<Option<Chunk>>, chunk: Chunk)
    ensures
        chunks_read(Seq::empty()).len() == 0,
        chunks_read(earlier.push(Some(chunk))) == chunks_read(earlier).push(chunk@),
        chunks_read(earlier.push(None)) == chunks_read(earlier),
{
    assert(earlier.push(Some(chunk)).drop_last() =~= earlier);
    assert(earlier.push(None).drop_last() =~= earlier);
}

/// What a reader makes of a text is one of the things that can be read of it.
pub proof fn lemma_what_can_be_read<F: Fn(&str) -> Option<Chunk>>(reader: F, text: &str, outcome: Option<Chunk>)
    ensures
        call_ensures(reader, (text,), outcome) ==> can_read(reader, text@, outcome),
        (forall|other: &str| other@ == text@ ==> !#[trigger] call_ensures(reader, (other,), outcome)) ==> !can_read(
            reader,
            text@,
            outcome,
        ),
{
}

/// A reader that gives for a text the chunk that a function says, and nothing
/// where the function says so, reads as that function does; and only such a
/// reader does.
pub proof fn lemma_reader_of_function<F: Fn(&str) -> Option<Chunk>>(
    reader: F,
    read: spec_fn(Seq<char>) -> Option<ChunkModel>,
)
    ensures
        reads_as(reader, read) <==> forall|text: &str, outcome: Option<Chunk>|
            #[trigger] call_ensures(reader, (text,), outcome) ==> match outcome {
                Some(chunk) => read(text@) == Some(chunk@),
                None => read(text@) is None,
            },
{
}

/// What is sent as a stream of events is collected as it was sent, however the
/// stream is cut into pieces.
pub proof fn lemma_sent_answer_is_collected(
    pieces: Seq<Seq<u8>>,
    data: Seq<Seq<char>>,
    more: Seq<u8>,
    read: spec_fn(Seq<char>) -> Option<ChunkModel>,
)
    requires
        forall|i: int| 0 <= i < data.len() ==> can_be_sent(#[trigger] data[i]),
        stream_bytes(pieces) == event_stream(data) + (encode_utf8("data: [DONE]"@) + seq![10u8] + more),
        lines_spell_decodings(stream_bytes(pieces)),
        all_payloads(more).len() == 0,
    ensures
        collected_pieces(seq![], Answer::empty(), pieces, read) == collected(chunks_of(data, read)),
{
    let whole = stream_bytes(pieces);
    lemma_whole_stream_read_back(data, more);
    lemma_all_payloads_append(whole, seq![]);
    assert(whole + Seq::<u8>::empty() =~= whole);
    assert(more + Seq::<u8>::empty() =~= more);
    assert(all_payloads(whole) =~= data);
    lemma_answer_of_stream(pieces, read);
}

/// A collector that absorbs a chunk holds, behind the content it had, the
/// content of the chunk's first choice, to the letter; so too with reasoning.
pub proof fn lemma_chunk_absorbed(collector: &mut Collector, chunk: Chunk)
    requires
        call_ensures(Collector::absorb, (collector, chunk), ()),
    ensures
        chunk.choices@.len() > 0 ==> {
            &&& final(collector).answer().content == old(collector).answer().content
                + chunk.choices@[0].delta.content@
            &&& final(collector).answer().reasoning == old(collector).answer().reasoning
                + chunk.choices@[0].delta.reasoning_content@
        },
        chunk.choices@.len() == 0 ==> {
            &&& final(collector).answer().content == old(collector).answer().content
            &&& final(collector).answer().reasoning == old(collector).answer().reasoning
            &&& final(collector).answer().finish_reason == old(collector).answer().finish_reason
        },
        old(collector).answer().finish_reason is Some ==> final(collector).answer().finish_reason == old(
            collector,
        ).answer().finish_reason,
        old(collector).answer().finish_reason is None && chunk.choices@.len() > 0 ==> match chunk.choices@[0].finish_reason {
            Some(reason) => final(collector).answer().finish_reason == Some(reason@),
            None => final(collector).answer().finish_reason is None,
        },
        old(collector).answer().id is Some ==> final(collector).answer().id == old(collector).answer().id,
        old(collector).answer().id is None ==> final(collector).answer().id == Some(chunk.id@),
        final(collector).pending() == old(collector).pending(),
{
    if chunk.choices@.len() > 0 {
        lemma_chunk_adds(old(collector).answer(), chunk);
    } else {
        lemma_empty_chunk_adds(old(collector).answer(), chunk);
    }
}

/// A new collector holds nothing.
pub proof fn lemma_new_collector(made: Collector)
    requires
        call_ensures(Collector::new, (), made),
    ensures
        made.pending().len() == 0,
        made.answer().id is None,
        made.answer().content.len() == 0,
        made.answer().reasoning.len() == 0,
        made.answer().finish_reason is None,
{
}

/// A collector that events arrive in hands out their payloads, one for one and
/// in order, keeps what has arrived of the next line, and leaves the answer as
/// it is.
pub proof fn lemma_collector_fed(
    collector: &mut Collector,
    piece: &[u8],
    payloads: Vec<String>,
    data: Seq<Seq<char>>,
    rest: Seq<u8>,
)
    requires
        call_ensures(Collector::feed, (collector, piece), payloads),
        old(collector).pending() + piece@ == event_stream(data) + rest,
        forall|i: int| 0 <= i < data.len() ==> can_be_sent(#[trigger] data[i]),
        is_one_line(rest),
    ensures
        payloads@.len() == data.len(),
        forall|i: int| 0 <= i < data.len() ==> (#[trigger] payloads@[i])@ == data[i],
        final(collector).pending() == rest,
        final(collector).answer() == old(collector).answer(),
{
    lemma_events_read_back(data, rest);
    lemma_unfinished_line_waits(rest);
    assert(data + framed(rest).payloads =~= data);
    assert(texts(payloads@).len() == data.len());
    assert forall|i: int| 0 <= i < data.len() implies (#[trigger] payloads@[i])@ == data[i] by {
        assert(texts(payloads@)[i] == data[i]);
    }
}

/// A collector that takes in events adds the chunks that the reader makes of
/// them, each of its payloads read once and in order.
pub proof fn lemma_events_taken_in<F: Fn(&str) -> Option<Chunk>>(
    collector: &mut Collector,
    piece: &[u8],
    reader: F,
    data: Seq<Seq<char>>,
    chunks: Seq<Option<Chunk>>,
    rest: Seq<u8>,
)
    requires
        call_ensures(Collector::take_in::<F>, (collector, piece, reader), ()),
        old(collector).pending() + piece@ == event_stream(data) + rest,
        forall|i: int| 0 <= i < data.len() ==> can_be_sent(#[trigger] data[i]),
        is_one_line(rest),
        chunks.len() == data.len(),
        forall|i: int, text: &str, outcome: Option<Chunk>|
            0 <= i < data.len() && text@ == data[i] && #[trigger] call_ensures(reader, (text,), outcome) ==> outcome
                == #[trigger] chunks[i],
    ensures
        final(collector).pending() == rest,
        final(collector).answer() == old(collector).answer().extended_by(chunks_read(chunks)),
{
    lemma_events_read_back(data, rest);
    lemma_unfinished_line_waits(rest);
    let payloads = framed(old(collector).pending() + piece@).payloads;
    assert(payloads =~= data);
    let outcomes = choose|outcomes: Seq<Option<Chunk>>|
        can_read_all(reader, payloads, outcomes) && final(collector).answer() == old(collector).answer().extended_by(
            #[trigger] chunks_read(outcomes),
        );
    assert forall|i: int| 0 <= i < outcomes.len() implies #[trigger] outcomes[i] == chunks[i] by {
        assert(can_read(reader, payloads[i], outcomes[i]));
        let text = choose|text: &str| text@ == payloads[i] && #[trigger] call_ensures(reader, (text,), outcomes[i]);
        assert(call_ensures(reader, (text,), outcomes[i]));
    }
    assert(outcomes =~= chunks);
}

/// One event, taken in and read as a chunk: the content and the reasoning of the
/// chunk's first choice go to the end of the answer, to the letter.
pub proof fn lemma_event_taken_in<F: Fn(&str) -> Option<Chunk>>(
    collector: &mut Collector,
    piece: &[u8],
    reader: F,
    data: Seq<char>,
    chunk: Chunk,
    rest: Seq<u8>,
)
    requires
        call_ensures(Collector::take_in::<F>, (collector, piece, reader), ()),
        old(collector).pending() + piece@ == encode_utf8("data: "@ + data) + seq![10u8, 10u8] + rest,
        can_be_sent(data),
        is_one_line(rest),
        forall|text: &str, outcome: Option<Chunk>|
            text@ == data && #[trigger] call_ensures(reader, (text,), outcome) ==> outcome == Some(chunk),
        chunk.choices@.len() > 0,
    ensures
        final(collector).pending() == rest,
        final(collector).answer().content == old(collector).answer().content + chunk.choices@[0].delta.content@,
        final(collector).answer().reasoning == old(collector).answer().reasoning
            + chunk.choices@[0].delta.reasoning_content@,
{
    let none = Seq::<Seq<char>>::empty();
    reveal_with_fuel(event_stream, 2);
    assert(seq![data].drop_first() =~= none);
    assert(event_stream(seq![data]) + rest =~= encode_utf8("data: "@ + data) + seq![10u8, 10u8] + rest);
    lemma_events_taken_in(collector, piece, reader, seq![data], seq![Some(chunk)], rest);
    lemma_chunks_of_outcomes(seq![], chunk);
    assert(seq![Some(chunk)] =~= Seq::<Option<Chunk>>::empty().push(Some(chunk)));
    assert(chunks_read(seq![Some(chunk)]) =~= Seq::<ChunkModel>::empty().push(chunk@));
    lemma_chunks_add_in_order(old(collector).answer(), Seq::empty(), chunk@);
    lemma_chunk_adds(old(collector).answer(), chunk);
}

/// Taking in one more piece: its payloads, with what was waiting in front, are
/// read and added to what there was.
pub proof fn lemma_one_more_piece(
    pending: Seq<u8>,
    answer: Answer,
    piece: Seq<u8>,
    later: Seq<Seq<u8>>,
    read: spec_fn(Seq<char>) -> Option<ChunkModel>,
)
    ensures
        collected_pieces(pending, answer, Seq::empty(), read) == answer,
        collected_pieces(pending, answer, seq![piece] + later, read) == collected_pieces(
            framed(pending + piece).rest,
            answer.extended_by(chunks_of(framed(pending + piece).payloads, read)),
            later,
            read,
        ),
        framed_pieces(pending, Seq::empty()) == (Seq::<Seq<char>>::empty(), pending),
        framed_pieces(pending, seq![piece] + later).0 == framed(pending + piece).payloads + framed_pieces(
            framed(pending + piece).rest,
            later,
        ).0,
        framed_pieces(pending, seq![piece] + later).1 == framed_pieces(framed(pending + piece).rest, later).1,
{
    assert((seq![piece] + later).drop_first() =~= later);
    assert((seq![piece] + later).first() == piece);
}

proof fn lemma_answer_names()
    ensures
        "id"@.len() == 2,
        "object"@.len() == 6,
        "created"@.len() == 7,
        "model"@.len() == 5,
        "choices"@.len() == 7,
        "created"@ != "choices"@,
        "index"@.len() == 5,
        "message"@.len() == 7,
        "finish_reason"@.len() == 13,
        "role"@.len() == 4,
        "content"@.len() == 7,
        "reasoning_content"@.len() == 17,
{
    reveal_strlit("id");
    reveal_strlit("object");
    reveal_strlit("created");
    reveal_strlit("model");
    reveal_strlit("choices");
    reveal_strlit("index");
    reveal_strlit("message");
    reveal_strlit("finish_reason");
    reveal_strlit("role");
    reveal_strlit("content");
    reveal_strlit("reasoning_content");
    assert("created"@[1] == 'r' && "choices"@[1] == 'h');
}

/// Whether a JSON object has exactly the given members' names.
pub open spec fn has_names(json: Json, names: Set<Seq<char>>) -> bool {
    json is Object && forall|name: Seq<char>| #[trigger] member(json, name) is Some <==> names.contains(name)
}

/// The document for an answer, member by member: the content and the reasoning
/// are those collected, to the letter, and reasoning is shown only where there
/// is some.
pub open spec fn tells_answer(json: Json, answer: Answer, model: Seq<char>, created: u64) -> bool {
    &&& has_names(json, set!["id"@, "object"@, "created"@, "model"@, "choices"@])
    &&& answer.id matches Some(id) ==> member(json, "id"@) == Some(Json::Text(id))
    &&& answer.id is None ==> member(json, "id"@) == Some(Json::Text("proxy-"@ + decimal(created as nat)))
    &&& member(json, "object"@) == Some(Json::Text("chat.completion"@))
    &&& member(json, "created"@) == Some(Json::Number(JsonNumber::Integer(created as int)))
    &&& member(json, "model"@) == Some(Json::Text(model))
    &&& member(json, "choices"@) matches Some(Json::Array(choices))
    &&& choices.len() == 1
    &&& has_names(choices[0], set!["index"@, "message"@, "finish_reason"@])
    &&& member(choices[0], "index"@) == Some(Json::Number(JsonNumber::Integer(0)))
    &&& answer.finish_reason matches Some(reason) ==> member(choices[0], "finish_reason"@) == Some(Json::Text(reason))
    &&& answer.finish_reason is None ==> member(choices[0], "finish_reason"@) == Some(Json::Text("stop"@))
    &&& member(choices[0], "message"@) matches Some(message)
    &&& member(message, "role"@) == Some(Json::Text("assistant"@))
    &&& member(message, "content"@) == Some(Json::Text(answer.content))
    &&& answer.reasoning.len() > 0 ==> {
        &&& has_names(message, set!["role"@, "content"@, "reasoning_content"@])
        &&& member(message, "reasoning_content"@) == Some(Json::Text(answer.reasoning))
    }
    &&& answer.reasoning.len() == 0 ==> has_names(message, set!["role"@, "content"@])
}

/// The completion of an answer tells that answer.
pub proof fn lemma_completion_tells_answer(answer: Answer, model: Seq<char>, created: u64)
    ensures
        tells_answer(completion(answer, model, created), answer, model, created),
{
    lemma_answer_names();
    let json = completion(answer, model, created);
    let choices = member(json, "choices"@)->Some_0->Array_0;
    let message = member(choices[0], "message"@)->Some_0;
    assert(has_names(json, set!["id"@, "object"@, "created"@, "model"@, "choices"@]));
    assert(has_names(choices[0], set!["index"@, "message"@, "finish_reason"@]));
    if answer.reasoning.len() > 0 {
        assert(has_names(message, set!["role"@, "content"@, "reasoning_content"@]));
    } else {
        assert(has_names(message, set!["role"@, "content"@]));
    }
}

/// The document that answers the client tells the answer that was collected.
pub proof fn lemma_client_is_told_the_answer(collector: Collector, model: &str, created: u64, given: Value)
    requires
        call_ensures(Collector::complete, (collector, model, created), given),
    ensures
        tells_answer(document(given), collector.answer(), model@, created),
{
    lemma_completion_tells_answer(collector.answer(), model@, created);
}

/// So does the document that is dated now, at a time that the clock can show.
pub proof fn lemma_client_is_told_the_answer_now(collector: Collector, model: &str, given: Value)
    requires
        call_ensures(Collector::complete_now, (collector, model), given),
    ensures
        exists|created: u64| #[trigger]
            call_ensures(now, (), created) && tells_answer(document(given), collector.answer(), model@, created),
{
    let created = choose|created: u64| #[trigger]
        call_ensures(now, (), created) && document(given) == completion(collector.answer(), model@, created);
    lemma_completion_tells_answer(collector.answer(), model@, created);
}

/// Two answers of the same text to the client have the same content and the
/// same reasoning.
pub proof fn lemma_documents_tell_answers_apart(one: Answer, other: Answer, model: Seq<char>, created: u64)
    requires
        completion(one, model, created) == completion(other, model, created),
    ensures
        one.content == other.content,
        one.reasoning == other.reasoning,
{
    lemma_completion_tells_answer(one, model, created);
    lemma_completion_tells_answer(other, model, created);
    lemma_answer_names();
    let choices = member(completion(one, model, created), "choices"@)->Some_0->Array_0;
    let message = member(choices[0], "message"@)->Some_0;
    assert(member(message, "content"@) == Some(Json::Text(one.content)));
    assert(!set!["role"@, "content"@].contains("reasoning_content"@));
    assert(set!["role"@, "content"@, "reasoning_content"@].contains("reasoning_content"@));
    assert(one.reasoning.len() > 0 <==> member(message, "reasoning_content"@) is Some);
    assert(other.reasoning.len() > 0 <==> member(message, "reasoning_content"@) is Some);
    assert(one.reasoning =~= other.reasoning);
}

} // verus!
