//! Collecting a streamed answer into one document.

use serde_json::{Map as JsonMap, Value};
use vstd::prelude::*;

use crate::clock::now;
use crate::json::{array_value, integer_value, object_value, text_value};
#[allow(unused_imports)]
use crate::json::{document, documents, no_members, Json, JsonNumber};
use crate::proxy::sse::EventBuffer;
#[allow(unused_imports)]
use crate::proxy::sse::{
    all_payloads, framed, framed_pieces, lemma_pieces_immaterial, lines_spell_decodings, stream_bytes,
};
use crate::text::write_decimal;
#[allow(unused_imports)]
use crate::text::{decimal, texts};

verus! {

/// What a chunk adds to the answer.
#[derive(Debug)]
pub struct Delta {
    pub content: String,
    pub reasoning_content: String,
}

/// One of the alternatives of a chunk.
#[derive(Debug)]
pub struct Choice {
    pub delta: Delta,
    pub finish_reason: Option<String>,
}

/// One event of a streamed answer.
#[derive(Debug)]
pub struct Chunk {
    pub id: String,
    pub choices: Vec<Choice>,
}

/// The text of an optional string.
pub open spec fn optional_text(string: Option<String>) -> Option<Seq<char>> {
    match string {
        Some(s) => Some(s@),
        None => None,
    }
}

/// A [`Choice`] as a mathematical value.
pub struct ChoiceModel {
    pub content: Seq<char>,
    pub reasoning: Seq<char>,
    pub finish_reason: Option<Seq<char>>,
}

/// A [`Chunk`] as a mathematical value.
pub struct ChunkModel {
    pub id: Seq<char>,
    pub choices: Seq<ChoiceModel>,
}

impl View for Choice {
    type V = ChoiceModel;

    open spec fn view(&self) -> ChoiceModel {
        ChoiceModel {
            content: self.delta.content@,
            reasoning: self.delta.reasoning_content@,
            finish_reason: optional_text(self.finish_reason),
        }
    }
}

impl View for Chunk {
    type V = ChunkModel;

    open spec fn view(&self) -> ChunkModel {
        ChunkModel { id: self.id@, choices: self.choices@.map_values(|choice: Choice| choice@) }
    }
}

impl ChunkModel {
    /// The content that the first choice adds.
    pub open spec fn content(self) -> Seq<char> {
        if self.choices.len() > 0 {
            self.choices[0].content
        } else {
            seq![]
        }
    }

    /// The reasoning that the first choice adds.
    pub open spec fn reasoning(self) -> Seq<char> {
        if self.choices.len() > 0 {
            self.choices[0].reasoning
        } else {
            seq![]
        }
    }

    /// The finish reason of the first choice.
    pub open spec fn finish_reason(self) -> Option<Seq<char>> {
        if self.choices.len() > 0 {
            self.choices[0].finish_reason
        } else {
            None
        }
    }
}

/// What has been collected of an answer.
pub struct Answer {
    pub id: Option<Seq<char>>,
    pub content: Seq<char>,
    pub reasoning: Seq<char>,
    pub finish_reason: Option<Seq<char>>,
}

/// The first of two optional texts that is there.
pub open spec fn first_given(first: Option<Seq<char>>, second: Option<Seq<char>>) -> Option<Seq<char>> {
    match first {
        Some(_) => first,
        None => second,
    }
}

impl Answer {
    /// The answer before anything has been collected.
    pub open spec fn empty() -> Answer {
        Answer { id: None, content: seq![], reasoning: seq![], finish_reason: None }
    }

    /// The answer with one more chunk: its id and its finish reason count where
    /// none came before, and what it adds goes to the end.
    pub open spec fn extended(self, chunk: ChunkModel) -> Answer {
        Answer {
            id: first_given(self.id, Some(chunk.id)),
            content: self.content + chunk.content(),
            reasoning: self.reasoning + chunk.reasoning(),
            finish_reason: first_given(self.finish_reason, chunk.finish_reason()),
        }
    }

    /// The answer with more chunks, one after another.
    pub open spec fn extended_by(self, chunks: Seq<ChunkModel>) -> Answer
        decreases chunks.len(),
    {
        if chunks.len() == 0 {
            self
        } else {
            self.extended(chunks.first()).extended_by(chunks.drop_first())
        }
    }
}

/// The contents of chunks, put together.
pub open spec fn contents(chunks: Seq<ChunkModel>) -> Seq<char>
    decreases chunks.len(),
{
    if chunks.len() == 0 {
        seq![]
    } else {
        chunks.first().content() + contents(chunks.drop_first())
    }
}

/// The reasoning of chunks, put together.
pub open spec fn reasonings(chunks: Seq<ChunkModel>) -> Seq<char>
    decreases chunks.len(),
{
    if chunks.len() == 0 {
        seq![]
    } else {
        chunks.first().reasoning() + reasonings(chunks.drop_first())
    }
}

/// The first finish reason that one of the chunks gives.
pub open spec fn first_reason(chunks: Seq<ChunkModel>) -> Option<Seq<char>>
    decreases chunks.len(),
{
    if chunks.len() == 0 {
        None
    } else {
        first_given(chunks.first().finish_reason(), first_reason(chunks.drop_first()))
    }
}

/// What collecting chunks gives: the id of the first, all the contents and all
/// the reasoning in order, and the first finish reason.
pub open spec fn collected(chunks: Seq<ChunkModel>) -> Answer {
    Answer {
        id: if chunks.len() == 0 {
            None
        } else {
            Some(chunks.first().id)
        },
        content: contents(chunks),
        reasoning: reasonings(chunks),
        finish_reason: first_reason(chunks),
    }
}

proof fn lemma_extended_by(answer: Answer, chunks: Seq<ChunkModel>)
    ensures
        answer.extended_by(chunks).id == first_given(answer.id, collected(chunks).id),
        answer.extended_by(chunks).content == answer.content + contents(chunks),
        answer.extended_by(chunks).reasoning == answer.reasoning + reasonings(chunks),
        answer.extended_by(chunks).finish_reason == first_given(answer.finish_reason, first_reason(chunks)),
    decreases chunks.len(),
{
    if chunks.len() > 0 {
        lemma_extended_by(answer.extended(chunks.first()), chunks.drop_first());
    }
    assert(answer.extended_by(chunks).content =~= answer.content + contents(chunks));
    assert(answer.extended_by(chunks).reasoning =~= answer.reasoning + reasonings(chunks));
}

/// Absorbing chunks one after another gives the id of the first chunk, all the
/// contents and all the reasoning in order, and the first finish reason.
pub proof fn lemma_collected(chunks: Seq<ChunkModel>)
    ensures
        Answer::empty().extended_by(chunks) == collected(chunks),
{
    lemma_extended_by(Answer::empty(), chunks);
    assert(Answer::empty().extended_by(chunks).content =~= contents(chunks));
    assert(Answer::empty().extended_by(chunks).reasoning =~= reasonings(chunks));
}

pub(crate) proof fn lemma_extended_by_append(answer: Answer, earlier: Seq<ChunkModel>, later: Seq<ChunkModel>)
    ensures
        answer.extended_by(earlier + later) == answer.extended_by(earlier).extended_by(later),
    decreases earlier.len(),
{
    if earlier.len() == 0 {
        assert(earlier + later =~= later);
    } else {
        assert((earlier + later).drop_first() =~= earlier.drop_first() + later);
        lemma_extended_by_append(answer.extended(earlier.first()), earlier.drop_first(), later);
    }
}

/// The chunks that payloads spell, where `read` is how a payload is read;
/// payloads that are not chunks are passed over.
pub open spec fn chunks_of(
    payloads: Seq<Seq<char>>,
    read: spec_fn(Seq<char>) -> Option<ChunkModel>,
) -> Seq<ChunkModel>
    decreases payloads.len(),
{
    if payloads.len() == 0 {
        seq![]
    } else {
        let later = chunks_of(payloads.drop_first(), read);
        match read(payloads.first()) {
            Some(chunk) => seq![chunk] + later,
            None => later,
        }
    }
}

pub(crate) proof fn lemma_chunks_of_append(
    earlier: Seq<Seq<char>>,
    later: Seq<Seq<char>>,
    read: spec_fn(Seq<char>) -> Option<ChunkModel>,
)
    ensures
        chunks_of(earlier + later, read) == chunks_of(earlier, read) + chunks_of(later, read),
    decreases earlier.len(),
{
    if earlier.len() == 0 {
        assert(earlier + later =~= later);
    } else {
        assert((earlier + later).drop_first() =~= earlier.drop_first() + later);
        lemma_chunks_of_append(earlier.drop_first(), later, read);
    }
    assert(chunks_of(earlier + later, read) =~= chunks_of(earlier, read) + chunks_of(later, read));
}

/// A chunk that was read, if one was.
pub open spec fn chunk_read(outcome: Option<Chunk>) -> Option<ChunkModel> {
    match outcome {
        Some(chunk) => Some(chunk@),
        None => None,
    }
}

/// The chunks among the outcomes of reading payloads.
pub open spec fn chunks_read(outcomes: Seq<Option<Chunk>>) -> Seq<ChunkModel>
    decreases outcomes.len(),
{
    if outcomes.len() == 0 {
        seq![]
    } else {
        let earlier = chunks_read(outcomes.drop_last());
        match chunk_read(outcomes.last()) {
            Some(chunk) => earlier.push(chunk),
            None => earlier,
        }
    }
}

/// Whether `outcome` can come of reading `payload` with `reader`.
pub open spec fn can_read<F: Fn(&str) -> Option<Chunk>>(
    reader: F,
    payload: Seq<char>,
    outcome: Option<Chunk>,
) -> bool {
    exists|text: &str| text@ == payload && #[trigger] call_ensures(reader, (text,), outcome)
}

/// Whether `outcomes` can come of reading `payloads` with `reader`.
pub open spec fn can_read_all<F: Fn(&str) -> Option<Chunk>>(
    reader: F,
    payloads: Seq<Seq<char>>,
    outcomes: Seq<Option<Chunk>>,
) -> bool {
    &&& outcomes.len() == payloads.len()
    &&& forall|i: int| 0 <= i < payloads.len() ==> can_read(reader, payloads[i], #[trigger] outcomes[i])
}

/// Whether `reader` reads payloads as the function `read` says.
pub open spec fn reads_as<F: Fn(&str) -> Option<Chunk>>(
    reader: F,
    read: spec_fn(Seq<char>) -> Option<ChunkModel>,
) -> bool {
    forall|text: &str, outcome: Option<Chunk>|
        #[trigger] call_ensures(reader, (text,), outcome) ==> chunk_read(outcome) == read(text@)
}

proof fn lemma_chunks_read<F: Fn(&str) -> Option<Chunk>>(
    reader: F,
    read: spec_fn(Seq<char>) -> Option<ChunkModel>,
    payloads: Seq<Seq<char>>,
    outcomes: Seq<Option<Chunk>>,
)
    requires
        reads_as(reader, read),
        can_read_all(reader, payloads, outcomes),
    ensures
        chunks_read(outcomes) == chunks_of(payloads, read),
    decreases payloads.len(),
{
    if payloads.len() > 0 {
        let earlier = payloads.drop_last();
        let last = seq![payloads.last()];
        assert(can_read(reader, payloads.last(), outcomes.last()));
        assert forall|i: int| 0 <= i < earlier.len() implies can_read(
            reader,
            earlier[i],
            #[trigger] outcomes.drop_last()[i],
        ) by {
            assert(outcomes.drop_last()[i] == outcomes[i]);
        }
        lemma_chunks_read(reader, read, earlier, outcomes.drop_last());
        assert(payloads =~= earlier + last);
        lemma_chunks_of_append(earlier, last, read);
        reveal_with_fuel(chunks_of, 2);
        assert(last.drop_first() =~= seq![]);
        assert(chunks_read(outcomes) =~= chunks_of(payloads, read));
    }
}

/// The answer after the pieces of a stream have been taken in, one after
/// another, each framed together with what was left of the one before and its
/// chunks absorbed.
pub open spec fn collected_pieces(
    pending: Seq<u8>,
    answer: Answer,
    pieces: Seq<Seq<u8>>,
    read: spec_fn(Seq<char>) -> Option<ChunkModel>,
) -> Answer
    decreases pieces.len(),
{
    if pieces.len() == 0 {
        answer
    } else {
        let framing = framed(pending + pieces.first());
        collected_pieces(
            framing.rest,
            answer.extended_by(chunks_of(framing.payloads, read)),
            pieces.drop_first(),
            read,
        )
    }
}

proof fn lemma_collected_pieces(
    pending: Seq<u8>,
    answer: Answer,
    pieces: Seq<Seq<u8>>,
    read: spec_fn(Seq<char>) -> Option<ChunkModel>,
)
    ensures
        collected_pieces(pending, answer, pieces, read) == answer.extended_by(
            chunks_of(framed_pieces(pending, pieces).0, read),
        ),
    decreases pieces.len(),
{
    if pieces.len() > 0 {
        let framing = framed(pending + pieces.first());
        let next = answer.extended_by(chunks_of(framing.payloads, read));
        let later = framed_pieces(framing.rest, pieces.drop_first()).0;
        lemma_collected_pieces(framing.rest, next, pieces.drop_first(), read);
        lemma_chunks_of_append(framing.payloads, later, read);
        lemma_extended_by_append(answer, chunks_of(framing.payloads, read), chunks_of(later, read));
    }
}

/// However a stream is cut into pieces, the answer collected from it is what
/// its payloads give. The stream must not carry a payload behind its first end
/// marker; of one that does, it depends on the pieces whether it is read.
pub proof fn lemma_answer_of_stream(pieces: Seq<Seq<u8>>, read: spec_fn(Seq<char>) -> Option<ChunkModel>)
    requires
        framed(stream_bytes(pieces)).payloads == all_payloads(stream_bytes(pieces)),
    ensures
        collected_pieces(seq![], Answer::empty(), pieces, read) == collected(
            chunks_of(all_payloads(stream_bytes(pieces)), read),
        ),
{
    lemma_pieces_immaterial(pieces, pieces);
    lemma_collected_pieces(seq![], Answer::empty(), pieces, read);
    lemma_collected(chunks_of(all_payloads(stream_bytes(pieces)), read));
}

/// The message of a collected answer; reasoning is shown where there is any.
pub open spec fn message_fields(answer: Answer) -> Map<Seq<char>, Json> {
    let plain = no_members().insert("role"@, Json::Text("assistant"@)).insert("content"@, Json::Text(answer.content));
    if answer.reasoning.len() > 0 {
        plain.insert("reasoning_content"@, Json::Text(answer.reasoning))
    } else {
        plain
    }
}

/// The text of an optional text, or another where there is none.
pub open spec fn text_or(given: Option<Seq<char>>, otherwise: Seq<char>) -> Seq<char> {
    match given {
        Some(text) => text,
        None => otherwise,
    }
}

/// The only choice of a collected answer.
pub open spec fn choice_fields(answer: Answer) -> Map<Seq<char>, Json> {
    no_members().insert("index"@, Json::Number(JsonNumber::Integer(0))).insert(
        "message"@,
        Json::Object(message_fields(answer)),
    ).insert("finish_reason"@, Json::Text(text_or(answer.finish_reason, "stop"@)))
}

/// The document that answers the client, for an answer of `model` collected at
/// the time `created`.
pub open spec fn completion(answer: Answer, model: Seq<char>, created: u64) -> Json {
    Json::Object(
        no_members().insert("id"@, Json::Text(text_or(answer.id, "proxy-"@ + decimal(created as nat)))).insert(
            "object"@,
            Json::Text("chat.completion"@),
        ).insert("created"@, Json::Number(JsonNumber::Integer(created as int))).insert("model"@, Json::Text(model)).insert(
            "choices"@,
            Json::Array(seq![Json::Object(choice_fields(answer))]),
        ),
    )
}

/// Collects a streamed answer.
pub struct Collector {
    buffer: EventBuffer,
    id: Option<String>,
    content: String,
    reasoning: String,
    finish_reason: Option<String>,
}

impl Collector {
    /// The bytes that have arrived and were not read yet.
    pub closed spec fn pending(&self) -> Seq<u8> {
        self.buffer@
    }

    /// What has been collected.
    pub closed spec fn answer(&self) -> Answer {
        Answer {
            id: optional_text(self.id),
            content: self.content@,
            reasoning: self.reasoning@,
            finish_reason: optional_text(self.finish_reason),
        }
    }

    /// A collector before the stream has started.
    pub fn new() -> (collector: Self)
        ensures
            collector.pending() == Seq::<u8>::empty(),
            collector.answer() == Answer::empty(),
            collector.answer().id is None,
            collector.answer().content.len() == 0,
            collector.answer().reasoning.len() == 0,
            collector.answer().finish_reason is None,
    {
        Collector {
            buffer: EventBuffer::new(),
            id: None,
            content: String::new(),
            reasoning: String::new(),
            finish_reason: None,
        }
    }

    /// Takes in the next piece of the stream and gives the payloads that it
    /// completes. They are to be read as chunks and absorbed in this order.
    pub fn feed(&mut self, piece: &[u8]) -> (payloads: Vec<String>)
        ensures
            texts(payloads@) == framed(old(self).pending() + piece@).payloads,
            final(self).pending() == framed(old(self).pending() + piece@).rest,
            final(self).answer() == old(self).answer(),
            lines_spell_decodings(old(self).pending() + piece@),
    {
        self.buffer.feed(piece)
    }

    /// Adds a chunk to the answer.
    pub fn absorb(&mut self, chunk: Chunk)
        ensures
            final(self).answer() == old(self).answer().extended(chunk@),
            final(self).pending() == old(self).pending(),
            final(self).answer().id == (match old(self).answer().id {
                Some(id) => Some(id),
                None => Some(chunk.id@),
            }),
            chunk.choices@.len() > 0 ==> {
                let first = chunk.choices@[0];
                &&& final(self).answer().content == old(self).answer().content + first.delta.content@
                &&& final(self).answer().reasoning == old(self).answer().reasoning + first.delta.reasoning_content@
                &&& final(self).answer().finish_reason == (match (old(self).answer().finish_reason, first.finish_reason) {
                    (Some(reason), _) => Some(reason),
                    (None, Some(reason)) => Some(reason@),
                    (None, None) => None,
                })
            },
            chunk.choices@.len() == 0 ==> {
                &&& final(self).answer().content == old(self).answer().content
                &&& final(self).answer().reasoning == old(self).answer().reasoning
                &&& final(self).answer().finish_reason == old(self).answer().finish_reason
            },
    {
        let Chunk { id, choices } = chunk;
        let mut choices = choices;
        if self.id.is_none() {
            self.id = Some(id);
        }
        if choices.len() > 0 {
            let Choice { delta, finish_reason } = choices.remove(0);
            self.content.append(delta.content.as_str());
            self.reasoning.append(delta.reasoning_content.as_str());
            if self.finish_reason.is_none() {
                self.finish_reason = finish_reason;
            }
        }
        assert(self.answer().content =~= old(self).answer().content + chunk@.content());
        assert(self.answer().reasoning =~= old(self).answer().reasoning + chunk@.reasoning());
    }

    /// Takes in the next piece of the stream: the payloads that it completes
    /// are read with `reader`, in order, and those that are chunks absorbed.
    pub fn take_in<F: Fn(&str) -> Option<Chunk>>(&mut self, piece: &[u8], reader: F)
        requires
            forall|text: &str| #[trigger] call_requires(reader, (text,)),
        ensures
            final(self).pending() == framed(old(self).pending() + piece@).rest,
            exists|outcomes: Seq<Option<Chunk>>|
                can_read_all(reader, framed(old(self).pending() + piece@).payloads, outcomes)
                    && final(self).answer() == old(self).answer().extended_by(#[trigger] chunks_read(outcomes)),
            forall|read: spec_fn(Seq<char>) -> Option<ChunkModel>| #[trigger]
                reads_as(reader, read) ==> final(self).answer() == old(self).answer().extended_by(
                    chunks_of(framed(old(self).pending() + piece@).payloads, read),
                ),
            lines_spell_decodings(old(self).pending() + piece@),
    {
        let payloads = self.feed(piece);
        let ghost data = texts(payloads@);
        let ghost before = self.answer();
        let ghost rest = self.pending();
        let ghost mut outcomes: Seq<Option<Chunk>> = seq![];
        let mut i: usize = 0;
        while i < payloads.len()
            invariant
                i <= payloads.len(),
                data == texts(payloads@),
                forall|text: &str| #[trigger] call_requires(reader, (text,)),
                can_read_all(reader, data.take(i as int), outcomes),
                self.answer() == before.extended_by(chunks_read(outcomes)),
                self.pending() == rest,
            decreases payloads.len() - i,
        {
            let ghost earlier = outcomes;
            let outcome = reader(payloads[i].as_str());
            proof {
                outcomes = earlier.push(outcome);
                assert(data.take(i + 1) =~= data.take(i as int).push(payloads[i as int]@));
                assert(can_read(reader, payloads[i as int]@, outcome));
                assert forall|j: int| 0 <= j < i + 1 implies can_read(
                    reader,
                    data.take(i + 1)[j],
                    #[trigger] outcomes[j],
                ) by {
                    if j < i {
                        assert(outcomes[j] == earlier[j]);
                        assert(data.take(i + 1)[j] == data.take(i as int)[j]);
                    }
                }
                assert(outcomes.drop_last() =~= earlier);
                if outcome is Some {
                    let chunk = outcome->Some_0@;
                    lemma_extended_by_append(before, chunks_read(earlier), seq![chunk]);
                    assert(chunks_read(outcomes) =~= chunks_read(earlier) + seq![chunk]);
                    reveal_with_fuel(Answer::extended_by, 2);
                }
            }
            if let Some(chunk) = outcome {
                self.absorb(chunk);
            }
            i = i + 1;
        }
        proof {
            assert(data.take(i as int) =~= data);
            assert forall|read: spec_fn(Seq<char>) -> Option<ChunkModel>| #[trigger]
                reads_as(reader, read) implies self.answer() == before.extended_by(chunks_of(data, read)) by {
                lemma_chunks_read(reader, read, data, outcomes);
            }
        }
    }

    /// The document that answers the client, dated `created`.
    pub fn complete(self, model: &str, created: u64) -> (answer: Value)
        ensures
            document(answer) == completion(self.answer(), model@, created),
    {
        let ghost given = self.answer();
        let mut message: JsonMap<String, Value> = JsonMap::new();
        message.insert("role".to_owned(), text_value("assistant".to_owned()));
        message.insert("content".to_owned(), text_value(self.content));
        if !self.reasoning.as_str().is_empty() {
            message.insert("reasoning_content".to_owned(), text_value(self.reasoning));
        }
        let finish_reason = match self.finish_reason {
            Some(reason) => reason,
            None => "stop".to_owned(),
        };
        let mut choice: JsonMap<String, Value> = JsonMap::new();
        choice.insert("index".to_owned(), integer_value(0));
        choice.insert("message".to_owned(), object_value(message));
        choice.insert("finish_reason".to_owned(), text_value(finish_reason));
        let mut choices: Vec<Value> = Vec::new();
        choices.push(object_value(choice));
        proof {
            assert(documents(choices@) =~= seq![Json::Object(choice_fields(given))]);
        }
        let id = match self.id {
            Some(id) => id,
            None => "proxy-".to_owned().concat(write_decimal(created).as_str()),
        };
        let mut answer: JsonMap<String, Value> = JsonMap::new();
        answer.insert("id".to_owned(), text_value(id));
        answer.insert("object".to_owned(), text_value("chat.completion".to_owned()));
        answer.insert("created".to_owned(), integer_value(created));
        answer.insert("model".to_owned(), text_value(model.to_owned()));
        answer.insert("choices".to_owned(), array_value(choices));
        object_value(answer)
    }

    /// The document that answers the client, dated now.
    pub fn complete_now(self, model: &str) -> (answer: Value)
        ensures
            exists|created: u64| #[trigger]
                call_ensures(now, (), created) && document(answer) == completion(self.answer(), model@, created),
    {
        self.complete(model, now())
    }
}

} // verus!
