//! The decoder of a streamed reply.
//!
//! A streamed reply arrives as chunks of bytes, cut anywhere. It may begin
//! with a prelude, which ends with eight NUL bytes; what follows is payload.
//! A stream whose first byte is not `{` has no prelude and is payload from
//! its first byte. The decoder takes the events of the stream one by one
//! and says after each what goes to the client: the head of the response as
//! soon as it is known, and from then on every payload byte as it arrives.

use vstd::prelude::*;
use crate::framing::{
    after_delimiter, before_delimiter, copy_range, delimiter_end, ends_in_nuls, has_delimiter,
    is_delimiter_end, is_first_delimiter_end, lemma_delimiter_has_first, lemma_delimiter_in_prefix,
    lemma_first_delimiter_end, scan_delimiter, DELIMITER_LEN, PRELUDE_START,
};
use crate::metadata::{
    create_response_builder, default_head, head_for, parse_prelude, prelude_model,
    prelude_of_bytes, MetadataPrelude, PreludeModel,
};
use crate::response::{GatewayError, HeadModel, ResponseHead};

verus! {

/// Where the decoder of a streamed reply stands.
#[derive(Debug, Clone, Copy, PartialEq, Eq, Structural)]
pub enum DecoderState {
    /// No byte has arrived yet.
    AwaitFirstByte,
    /// The stream began with `{`, and no delimiter has arrived yet.
    SeekingDelimiter,
    /// The head is out; every byte that arrives is payload.
    Relaying,
    /// The stream is over.
    Done,
}

/// What the backend's stream delivers, or what became of it.
#[derive(Debug, Clone, PartialEq, Eq)]
pub enum StreamEvent {
    /// A chunk of bytes, possibly empty.
    Chunk(Vec<u8>),
    /// The stream ended cleanly.
    Complete,
    /// Reading the stream failed.
    ReadError,
    /// The client no longer takes the response.
    Cancelled,
}

/// What a stream event holds.
pub enum EventModel {
    Chunk(Seq<u8>),
    Complete,
    ReadError,
    Cancelled,
}

impl View for StreamEvent {
    type V = EventModel;

    open spec fn view(&self) -> EventModel {
        match self {
            StreamEvent::Chunk(bytes) => EventModel::Chunk(bytes@),
            StreamEvent::Complete => EventModel::Complete,
            StreamEvent::ReadError => EventModel::ReadError,
            StreamEvent::Cancelled => EventModel::Cancelled,
        }
    }
}

/// What is to be done for the client after an event.
#[derive(Debug, Clone, PartialEq, Eq)]
pub enum StreamAction {
    /// Nothing yet: take the next event.
    Continue,
    /// Send the head, then the payload where it is not empty.
    Respond { head: ResponseHead, payload: Vec<u8> },
    /// Send these payload bytes.
    Relay(Vec<u8>),
    /// End the body: the reply is complete.
    Finish,
    /// No head can be sent: answer with the status of this failure and an
    /// empty body.
    Reject(GatewayError),
    /// Break the body off: the reply failed after its head went out.
    Abort,
    /// Stop without sending anything more.
    Stop,
}

/// What a stream action holds.
pub enum ActionModel {
    Continue,
    Respond { head: HeadModel, payload: Seq<u8> },
    Relay(Seq<u8>),
    Finish,
    Reject(GatewayError),
    Abort,
    Stop,
}

impl View for StreamAction {
    type V = ActionModel;

    open spec fn view(&self) -> ActionModel {
        match self {
            StreamAction::Continue => ActionModel::Continue,
            StreamAction::Respond { head, payload } => ActionModel::Respond {
                head: head@,
                payload: payload@,
            },
            StreamAction::Relay(bytes) => ActionModel::Relay(bytes@),
            StreamAction::Finish => ActionModel::Finish,
            StreamAction::Reject(error) => ActionModel::Reject(*error),
            StreamAction::Abort => ActionModel::Abort,
            StreamAction::Stop => ActionModel::Stop,
        }
    }
}

/// What a decoder holds: its state, and the bytes that have arrived and are
/// not yet known to be prelude or payload.
pub struct DecoderModel {
    pub state: DecoderState,
    pub buffer: Seq<u8>,
}

impl DecoderModel {
    /// Whether the buffer is what the state allows: bytes are held only
    /// while a delimiter is sought, and then they begin with `{` and hold no
    /// delimiter.
    pub open spec fn is_well_formed(self) -> bool {
        match self.state {
            DecoderState::SeekingDelimiter => self.buffer.len() > 0 && self.buffer[0]
                == PRELUDE_START && !has_delimiter(self.buffer),
            _ => self.buffer.len() == 0,
        }
    }

    /// Whether the head of the response is still open.
    pub open spec fn awaits_head(self) -> bool {
        self.state is AwaitFirstByte || self.state is SeekingDelimiter
    }
}

/// A decoder before the first event.
pub open spec fn initial_decoder() -> DecoderModel {
    DecoderModel { state: DecoderState::AwaitFirstByte, buffer: Seq::empty() }
}

/// What the bytes that have arrived say of the head: `None` while that is
/// open, else the prelude, if there is one, and the first payload bytes.
/// Bytes that do not begin with `{` are payload, all of them. Bytes that do
/// are open until they hold a delimiter; then the prelude stands before the
/// first one and the payload begins after it.
pub open spec fn resolve_head(buf: Seq<u8>) -> Option<(Option<PreludeModel>, Seq<u8>)> {
    if buf.len() == 0 {
        None
    } else if buf[0] != PRELUDE_START {
        Some((None, buf))
    } else if has_delimiter(buf) {
        Some((Some(prelude_of_bytes(before_delimiter(buf))), after_delimiter(buf)))
    } else {
        None
    }
}

/// The decoder that holds the bytes `buf` while the head is open.
pub open spec fn seeking(buf: Seq<u8>) -> DecoderModel {
    if buf.len() == 0 {
        initial_decoder()
    } else {
        DecoderModel { state: DecoderState::SeekingDelimiter, buffer: buf }
    }
}

/// The decoder in the given state, holding nothing.
pub open spec fn settled(state: DecoderState) -> DecoderModel {
    DecoderModel { state, buffer: Seq::empty() }
}

/// One step of the decoder: the decoder after the event, and what is to be
/// done for the client.
///
/// While the head is open, a chunk joins the bytes held. As soon as these
/// say what the head is, the head goes out together with the first payload
/// bytes; a prelude of which no head can be made rejects the reply. The end
/// of the stream while the head is open makes payload of all that is held,
/// under the head of a stream without prelude; a read error rejects the
/// reply.
///
/// Once the head is out, every chunk is relayed as it is, an empty one
/// passed over; the end of the stream ends the body, a read error breaks it
/// off. After the end nothing is done any more.
pub open spec fn decoder_step(d: DecoderModel, event: EventModel) -> (DecoderModel, ActionModel) {
    match d.state {
        DecoderState::AwaitFirstByte | DecoderState::SeekingDelimiter => match event {
            EventModel::Chunk(chunk) => match resolve_head(d.buffer + chunk) {
                None => (seeking(d.buffer + chunk), ActionModel::Continue),
                Some((prelude, payload)) => match head_for(prelude) {
                    Some(head) => (
                        settled(DecoderState::Relaying),
                        ActionModel::Respond { head, payload },
                    ),
                    None => (
                        settled(DecoderState::Done),
                        ActionModel::Reject(GatewayError::DecodeError),
                    ),
                },
            },
            EventModel::Complete => (
                settled(DecoderState::Done),
                ActionModel::Respond { head: default_head(), payload: d.buffer },
            ),
            EventModel::ReadError => (
                settled(DecoderState::Done),
                ActionModel::Reject(GatewayError::StreamReadError),
            ),
            EventModel::Cancelled => (settled(DecoderState::Done), ActionModel::Stop),
        },
        DecoderState::Relaying => match event {
            EventModel::Chunk(chunk) => if chunk.len() == 0 {
                (d, ActionModel::Continue)
            } else {
                (d, ActionModel::Relay(chunk))
            },
            EventModel::Complete => (settled(DecoderState::Done), ActionModel::Finish),
            EventModel::ReadError => (settled(DecoderState::Done), ActionModel::Abort),
            EventModel::Cancelled => (settled(DecoderState::Done), ActionModel::Stop),
        },
        DecoderState::Done => (d, ActionModel::Stop),
    }
}

/// The decoder of one streamed reply. It is fed the events of the backend's
/// stream one by one and says after each what goes to the client.
pub struct StreamDecoder {
    state: DecoderState,
    buffer: Vec<u8>,
    nul_run: usize,
}

impl View for StreamDecoder {
    type V = DecoderModel;

    closed spec fn view(&self) -> DecoderModel {
        DecoderModel { state: self.state, buffer: self.buffer@ }
    }
}

impl StreamDecoder {
    #[verifier::type_invariant]
    spec fn inv(self) -> bool {
        &&& self@.is_well_formed()
        &&& self.nul_run < DELIMITER_LEN
        &&& ends_in_nuls(self.buffer@, self.nul_run as int)
    }

    /// A decoder for a stream of which nothing has arrived.
    pub fn new() -> (r: Self)
        ensures
            r@ == initial_decoder(),
    {
        StreamDecoder { state: DecoderState::AwaitFirstByte, buffer: Vec::new(), nul_run: 0 }
    }

    /// Where the decoder stands.
    pub fn state(&self) -> (r: DecoderState)
        ensures
            r == self@.state,
    {
        self.state
    }

    /// Whether the stream is over, so that no further event is to be taken.
    pub fn is_done(&self) -> (r: bool)
        ensures
            r == (self@.state is Done),
    {
        match self.state {
            DecoderState::Done => true,
            _ => false,
        }
    }

    /// Takes the next event of the stream and says what is to be done for
    /// the client.
    pub fn feed(&mut self, event: StreamEvent) -> (action: StreamAction)
        ensures
            (final(self)@, action@) == decoder_step(old(self)@, event@),
            final(self)@.is_well_formed(),
    {
        let mut current = StreamDecoder::new();
        core::mem::swap(self, &mut current);
        let (next, action) = current.advance(event);
        *self = next;
        action
    }

    /// The decoder after the event, and what is to be done for the client.
    fn advance(self, event: StreamEvent) -> (r: (StreamDecoder, StreamAction))
        ensures
            (r.0@, r.1@) == decoder_step(self@, event@),
            r.0@.is_well_formed(),
    {
        proof {
            use_type_invariant(&self);
            if !(self.state is SeekingDelimiter) {
                assert(self@.buffer =~= Seq::<u8>::empty());
            }
        }
        let StreamDecoder { state, buffer, nul_run } = self;
        match state {
            DecoderState::Done => (StreamDecoder::at(DecoderState::Done), StreamAction::Stop),
            DecoderState::Relaying => match event {
                StreamEvent::Chunk(chunk) => {
                    if chunk.len() == 0 {
                        (StreamDecoder::at(DecoderState::Relaying), StreamAction::Continue)
                    } else {
                        (StreamDecoder::at(DecoderState::Relaying), StreamAction::Relay(chunk))
                    }
                },
                StreamEvent::Complete => (StreamDecoder::at(DecoderState::Done), StreamAction::Finish),
                StreamEvent::ReadError => (StreamDecoder::at(DecoderState::Done), StreamAction::Abort),
                StreamEvent::Cancelled => (StreamDecoder::at(DecoderState::Done), StreamAction::Stop),
            },
            _ => match event {
                StreamEvent::Chunk(chunk) => take_chunk(buffer, nul_run, chunk),
                StreamEvent::Complete => match create_response_builder(None) {
                    Ok(head) => (
                        StreamDecoder::at(DecoderState::Done),
                        StreamAction::Respond { head, payload: buffer },
                    ),
                    Err(e) => (StreamDecoder::at(DecoderState::Done), StreamAction::Reject(e)),
                },
                StreamEvent::ReadError => (
                    StreamDecoder::at(DecoderState::Done),
                    StreamAction::Reject(GatewayError::StreamReadError),
                ),
                StreamEvent::Cancelled => (StreamDecoder::at(DecoderState::Done), StreamAction::Stop),
            },
        }
    }

    /// A decoder in the given state that holds no bytes.
    fn at(state: DecoderState) -> (r: StreamDecoder)
        requires
            !(state is SeekingDelimiter),
        ensures
            r@ == settled(state),
    {
        StreamDecoder { state, buffer: Vec::new(), nul_run: 0 }
    }

    /// A decoder that holds `buffer` while the head is open.
    fn holding(buffer: Vec<u8>, nul_run: usize) -> (r: StreamDecoder)
        requires
            buffer@.len() > 0,
            buffer@[0] == PRELUDE_START,
            !has_delimiter(buffer@),
            nul_run < DELIMITER_LEN,
            ends_in_nuls(buffer@, nul_run as int),
        ensures
            r@ == seeking(buffer@),
    {
        StreamDecoder { state: DecoderState::SeekingDelimiter, buffer, nul_run }
    }
}

/// Takes a chunk while the head is open: `buffer` is what is held, ending in
/// `nul_run` NULs.
fn take_chunk(buffer: Vec<u8>, nul_run: usize, chunk: Vec<u8>) -> (r: (StreamDecoder, StreamAction))
    requires
        seeking(buffer@).is_well_formed(),
        nul_run < DELIMITER_LEN,
        ends_in_nuls(buffer@, nul_run as int),
    ensures
        (r.0@, r.1@) == decoder_step(seeking(buffer@), EventModel::Chunk(chunk@)),
        r.0@.is_well_formed(),
{
    let ghost held = buffer@;
    let ghost joined = held + chunk@;
    if buffer.len() == 0 {
        if chunk.len() == 0 {
            return (StreamDecoder::at(DecoderState::AwaitFirstByte), StreamAction::Continue);
        }
        if chunk[0] != PRELUDE_START {
            return respond(None, chunk);
        }
    }
    let start = buffer.len();
    let mut buffer = buffer;
    let mut chunk = chunk;
    buffer.append(&mut chunk);
    proof {
        assert(joined.take(start as int) =~= held);
        assert forall|j: int| 0 <= j < start implies !#[trigger] is_delimiter_end(joined, j) by {
            lemma_delimiter_in_prefix(joined, start as int, j);
        }
    }
    let (found, run) = scan_delimiter(buffer.as_slice(), start, nul_run);
    match found {
        Some(i) => {
            proof {
                lemma_first_delimiter_end(joined, i as int);
            }
            let n = buffer.len();
            let before = copy_range(buffer.as_slice(), 0, i - (DELIMITER_LEN - 1));
            let payload = copy_range(buffer.as_slice(), i + 1, n);
            let prelude = parse_prelude(before.as_slice());
            respond(Some(prelude), payload)
        },
        None => (StreamDecoder::holding(buffer, run), StreamAction::Continue),
    }
}

/// Sends the head for the prelude found, or rejects the reply where no head
/// can be made of it.
fn respond(prelude: Option<MetadataPrelude>, payload: Vec<u8>) -> (r: (StreamDecoder, StreamAction))
    ensures
        match head_for(prelude_model(prelude)) {
            Some(head) => r.0@ == settled(DecoderState::Relaying) && r.1@ == (ActionModel::Respond {
                head,
                payload: payload@,
            }),
            None => r.0@ == settled(DecoderState::Done) && r.1@ == ActionModel::Reject(
                GatewayError::DecodeError,
            ),
        },
        r.0@.is_well_formed(),
{
    match create_response_builder(prelude) {
        Ok(head) => (StreamDecoder::at(DecoderState::Relaying), StreamAction::Respond { head, payload }),
        Err(e) => (StreamDecoder::at(DecoderState::Done), StreamAction::Reject(e)),
    }
}

/// The decoder keeps its buffer in order: whatever the event, a
/// well-formed decoder is well-formed after it.
pub proof fn lemma_step_keeps_well_formed(d: DecoderModel, event: EventModel)
    requires
        d.is_well_formed(),
    ensures
        decoder_step(d, event).0.is_well_formed(),
{
}

/// At most one head goes out, and only before any payload: once the head
/// is out or the stream over, no event brings a head or a rejection, and no
/// prelude is sought again.
pub proof fn lemma_head_goes_out_once(d: DecoderModel, event: EventModel)
    requires
        !d.awaits_head(),
    ensures
        !(decoder_step(d, event).1 is Respond),
        !(decoder_step(d, event).1 is Reject),
        !decoder_step(d, event).0.awaits_head(),
{
}

/// While the head is open nothing reaches the client: an event that leaves
/// the head open asks only for the next event.
pub proof fn lemma_nothing_goes_out_before_the_head(d: DecoderModel, event: EventModel)
    requires
        d.awaits_head(),
        decoder_step(d, event).0.awaits_head(),
    ensures
        decoder_step(d, event).1 is Continue,
{
}

/// After the end nothing is done: every event is answered with `Stop`, and
/// the decoder stays as it is.
pub proof fn lemma_done_is_final(d: DecoderModel, event: EventModel)
    requires
        d.state is Done,
    ensures
        decoder_step(d, event) == (d, ActionModel::Stop),
{
}

/// A stream whose first byte is not `{` has no prelude: its first chunk
/// goes out whole, under status 200 and `content-type:
/// application/octet-stream`.
pub proof fn lemma_stream_without_prelude(chunk: Seq<u8>)
    requires
        chunk.len() > 0,
        chunk[0] != PRELUDE_START,
    ensures
        decoder_step(initial_decoder(), EventModel::Chunk(chunk)) == (
            settled(DecoderState::Relaying),
            ActionModel::Respond { head: default_head(), payload: chunk },
        ),
{
}

/// Where chunks are cut does not matter while the head is open: a chunk
/// that leaves the head open, followed by another, gives what the two give
/// as one chunk. So a delimiter that is split over two chunks is found as
/// one that arrives whole.
pub proof fn lemma_chunk_boundary_is_immaterial(d: DecoderModel, a: Seq<u8>, b: Seq<u8>)
    requires
        d.is_well_formed(),
        d.awaits_head(),
        decoder_step(d, EventModel::Chunk(a)).1 is Continue,
    ensures
        decoder_step(decoder_step(d, EventModel::Chunk(a)).0, EventModel::Chunk(b)) == decoder_step(
            d,
            EventModel::Chunk(a + b),
        ),
{
    let mid = decoder_step(d, EventModel::Chunk(a)).0;
    assert(mid.buffer + b =~= d.buffer + (a + b));
}

/// A delimiter is found wherever it ends: where eight NULs end at index `i`
/// of what has arrived and none end before, the prelude is read from the
/// bytes before them and the payload begins after them.
pub proof fn lemma_delimiter_resolves_head(buf: Seq<u8>, i: int)
    requires
        buf.len() > 0,
        buf[0] == PRELUDE_START,
        is_first_delimiter_end(buf, i),
    ensures
        resolve_head(buf) == Some(
            (
                Some(prelude_of_bytes(buf.subrange(0, i + 1 - DELIMITER_LEN))),
                buf.subrange(i + 1, buf.len() as int),
            ),
        ),
{
    lemma_first_delimiter_end(buf, i);
}

/// What has been said of the head stands: bytes that arrive after the head
/// is known change neither the prelude nor the payload before them, and
/// are payload themselves.
pub proof fn lemma_resolution_stands(buf: Seq<u8>, more: Seq<u8>)
    requires
        resolve_head(buf) is Some,
    ensures
        resolve_head(buf + more) == Some(
            (resolve_head(buf)->Some_0.0, resolve_head(buf)->Some_0.1 + more),
        ),
{
    let all = buf + more;
    if buf[0] == PRELUDE_START {
        let w = choose|i: int| is_delimiter_end(buf, i);
        lemma_delimiter_has_first(buf, w);
        let e = delimiter_end(buf);
        assert(all.take(buf.len() as int) =~= buf);
        assert(is_delimiter_end(all, e)) by {
            lemma_delimiter_in_prefix(all, buf.len() as int, e);
        }
        assert forall|j: int| 0 <= j < e implies !#[trigger] is_delimiter_end(all, j) by {
            lemma_delimiter_in_prefix(all, buf.len() as int, j);
        }
        lemma_first_delimiter_end(all, e);
        assert(before_delimiter(all) =~= before_delimiter(buf));
    }
}

/// The chunks of a stream, one after the other.
pub open spec fn joined(chunks: Seq<Seq<u8>>) -> Seq<u8>
    decreases chunks.len(),
{
    if chunks.len() == 0 {
        Seq::empty()
    } else {
        joined(chunks.drop_last()) + chunks.last()
    }
}

/// The payload bytes that an action sends.
pub open spec fn payload_of(action: ActionModel) -> Seq<u8> {
    match action {
        ActionModel::Respond { head, payload } => payload,
        ActionModel::Relay(bytes) => bytes,
        _ => Seq::empty(),
    }
}

/// The decoder after it has taken the chunks one by one, and all the
/// payload bytes that were sent on the way.
pub open spec fn after_chunks(d: DecoderModel, chunks: Seq<Seq<u8>>) -> (DecoderModel, Seq<u8>)
    decreases chunks.len(),
{
    if chunks.len() == 0 {
        (d, Seq::empty())
    } else {
        let (mid, sent) = after_chunks(d, chunks.drop_last());
        let (next, action) = decoder_step(mid, EventModel::Chunk(chunks.last()));
        (next, sent + payload_of(action))
    }
}

/// What the decoder has made of a stream of which the bytes `all` have
/// arrived, however they were cut into chunks: where it stands, and the
/// payload it has sent.
pub open spec fn after_bytes(all: Seq<u8>) -> (DecoderModel, Seq<u8>) {
    match resolve_head(all) {
        None => (seeking(all), Seq::empty()),
        Some((prelude, payload)) => match head_for(prelude) {
            Some(head) => (settled(DecoderState::Relaying), payload),
            None => (settled(DecoderState::Done), Seq::empty()),
        },
    }
}

/// The payload is relayed whole and in order, whatever the chunking: after
/// any chunks the decoder stands where the bytes of all of them together
/// put it, and it has sent exactly the payload among them. No payload byte
/// is lost, doubled or moved, and none of the prelude or the delimiter is
/// sent.
pub proof fn lemma_chunking_is_immaterial(chunks: Seq<Seq<u8>>)
    ensures
        after_chunks(initial_decoder(), chunks) == after_bytes(joined(chunks)),
    decreases chunks.len(),
{
    if chunks.len() > 0 {
        let before = chunks.drop_last();
        let chunk = chunks.last();
        let held = joined(before);
        lemma_chunking_is_immaterial(before);
        let (mid, sent) = after_chunks(initial_decoder(), before);
        match resolve_head(held) {
            None => {
                assert(sent + payload_of(decoder_step(mid, EventModel::Chunk(chunk)).1)
                    =~= payload_of(decoder_step(mid, EventModel::Chunk(chunk)).1));
            },
            Some((prelude, payload)) => {
                lemma_resolution_stands(held, chunk);
                if head_for(prelude) is Some {
                    assert(payload + chunk =~= payload + payload_of(
                        decoder_step(mid, EventModel::Chunk(chunk)).1,
                    ));
                }
            },
        }
    }
}

/// A stream that ends while its head is open is payload, all of it: the
/// bytes held go out under the head of a stream without prelude.
pub proof fn lemma_end_before_head(chunks: Seq<Seq<u8>>)
    requires
        resolve_head(joined(chunks)) is None,
    ensures
        decoder_step(after_chunks(initial_decoder(), chunks).0, EventModel::Complete) == (
            settled(DecoderState::Done),
            ActionModel::Respond { head: default_head(), payload: joined(chunks) },
        ),
{
    lemma_chunking_is_immaterial(chunks);
    let all = joined(chunks);
    assert(seeking(all).buffer =~= all);
}

/// A client that is gone stops the decoder wherever it stands: nothing
/// more is sent, and no further event is to be taken.
pub proof fn lemma_cancelled_stops(d: DecoderModel)
    ensures
        decoder_step(d, EventModel::Cancelled).1 is Stop,
        decoder_step(d, EventModel::Cancelled).0.state is Done,
{
}

/// The head that goes out with a response can be sent, and declares no
/// length of the body.
pub proof fn lemma_response_can_be_sent(d: DecoderModel, event: EventModel)
    requires
        decoder_step(d, event).1 is Respond,
    ensures
        decoder_step(d, event).1->Respond_head.is_well_formed(),
        forall|i: int|
            0 <= i < decoder_step(d, event).1->Respond_head.headers.len()
                ==> !crate::metadata::is_content_length(
                #[trigger] decoder_step(d, event).1->Respond_head.headers[i],
            ),
{
    match event {
        EventModel::Chunk(chunk) => {
            let resolved = resolve_head(d.buffer + chunk);
            if resolved is Some {
                crate::metadata::lemma_head_can_be_sent(resolved->Some_0.0);
            }
        },
        _ => {
            crate::metadata::lemma_head_can_be_sent(None);
        },
    }
}

} // verus!
