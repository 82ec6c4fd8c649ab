//! Framed messages over a stream socket, with a file descriptor attached.
//!
//! A frame is a little-endian `u32` length followed by that many bytes of payload. A descriptor,
//! if any, travels with the first byte of its frame.
//!
//! The socket itself is not here: a [`Channel`] says how many bytes it wants next and is handed
//! what arrived, and an [`Outgoing`] frame says what is left to write and is told how much went.

use vstd::prelude::*;

use crate::message::MAX_MESSAGE_BYTES;

verus! {

/// Bytes of the length that precedes a payload.
pub const HEADER_BYTES: usize = 4;

/// Why a message could not be sent or received.
#[derive(Debug, Clone, Copy, PartialEq, Eq, Structural)]
pub enum ChannelError {
    /// The peer closed the stream between two frames.
    Closed,
    /// The peer closed the stream inside a frame.
    Truncated,
    /// The payload is longer than a message may be.
    TooLarge,
}

/// How the helper process ends.
#[derive(Debug, Clone, Copy, PartialEq, Eq, Structural)]
pub enum Exit {
    Success,
    Failure,
}

impl ChannelError {
    /// What the error is called.
    pub open spec fn text(self) -> Seq<char> {
        match self {
            ChannelError::Closed => "peer closed the channel"@,
            ChannelError::Truncated => "failed to fill whole buffer"@,
            ChannelError::TooLarge => "message too large"@,
        }
    }

    /// What the error is called.
    pub fn message(self) -> (text: &'static str)
        ensures
            text@ == self.text(),
    {
        match self {
            ChannelError::Closed => "peer closed the channel",
            ChannelError::Truncated => "failed to fill whole buffer",
            ChannelError::TooLarge => "message too large",
        }
    }

    /// Whether the stream ended: every other error is a fault of the peer.
    pub open spec fn end_of_stream(self) -> bool {
        self is Closed || self is Truncated
    }

    /// How a helper ends that cannot receive a request: the application closing the channel is a
    /// normal shutdown.
    pub fn exit(self) -> (exit: Exit)
        ensures
            exit == (if self.end_of_stream() {
                Exit::Success
            } else {
                Exit::Failure
            }),
    {
        match self {
            ChannelError::Closed | ChannelError::Truncated => Exit::Success,
            ChannelError::TooLarge => Exit::Failure,
        }
    }
}

/// The number that four bytes write, least significant first.
pub open spec fn le_value(bytes: Seq<u8>) -> nat {
    (bytes[0] + bytes[1] * 0x100 + bytes[2] * 0x1_0000 + bytes[3] * 0x100_0000) as nat
}

/// The four bytes that write a number, least significant first.
pub open spec fn le_bytes(value: nat) -> Seq<u8> {
    seq![
        (value % 0x100) as u8,
        (value / 0x100 % 0x100) as u8,
        (value / 0x1_0000 % 0x100) as u8,
        (value / 0x100_0000 % 0x100) as u8,
    ]
}

/// The frame of a payload.
pub open spec fn frame(payload: Seq<u8>) -> Seq<u8> {
    le_bytes(payload.len()) + payload
}

/// What the bytes of a stream, up to its end, begin with.
pub enum Read {
    /// A whole frame: its payload, and what follows it.
    Frame { payload: Seq<u8>, rest: Seq<u8> },
    Nothing(ChannelError),
}

/// What a stream begins with.
pub open spec fn read(stream: Seq<u8>) -> Read {
    if stream.len() == 0 {
        Read::Nothing(ChannelError::Closed)
    } else if stream.len() < HEADER_BYTES {
        Read::Nothing(ChannelError::Truncated)
    } else if le_value(stream) > MAX_MESSAGE_BYTES {
        Read::Nothing(ChannelError::TooLarge)
    } else if stream.len() < HEADER_BYTES + le_value(stream) {
        Read::Nothing(ChannelError::Truncated)
    } else {
        let end = HEADER_BYTES + le_value(stream);
        Read::Frame { payload: stream.subrange(HEADER_BYTES as int, end), rest: stream.skip(end) }
    }
}

/// A message being written.
pub struct Outgoing {
    frame: Vec<u8>,
    sent: usize,
    started: bool,
}

impl Outgoing {
    /// The whole frame.
    pub closed spec fn frame(self) -> Seq<u8> {
        self.frame@
    }

    /// How many of its bytes have been written.
    pub closed spec fn sent(self) -> nat {
        self.sent as nat
    }

    /// Whether a write has been made.
    pub closed spec fn started(self) -> bool {
        self.started
    }

    /// What is left to write.
    pub open spec fn rest(self) -> Seq<u8> {
        self.frame().skip(self.sent() as int)
    }

    pub open spec fn wf(self) -> bool {
        &&& self.sent() <= self.frame().len()
        &&& self.frame().len() <= HEADER_BYTES + MAX_MESSAGE_BYTES
        &&& !self.started() ==> self.sent() == 0
    }

    /// Bytes to write next. An attached descriptor goes with the first write only (see
    /// [`Self::carries_descriptor`]).
    pub fn remaining(&self) -> (bytes: &[u8])
        requires
            self.wf(),
        ensures
            bytes@ == self.rest(),
    {
        vstd::slice::slice_subrange(self.frame.as_slice(), self.sent, self.frame.len())
    }

    /// Whether the next write is the first, the one that carries the descriptor.
    pub fn carries_descriptor(&self) -> (first: bool)
        ensures
            first == !self.started(),
    {
        !self.started
    }

    /// Whether everything has been written, the descriptor included.
    pub fn is_done(&self) -> (done: bool)
        requires
            self.wf(),
        ensures
            done == (self.started() && self.rest().len() == 0),
    {
        self.started && self.sent == self.frame.len()
    }

    /// Notes that the first `count` bytes of [`Self::remaining`] were written.
    pub fn wrote(&mut self, count: usize)
        requires
            old(self).wf(),
            count <= old(self).rest().len(),
        ensures
            final(self).wf(),
            final(self).frame() == old(self).frame(),
            final(self).sent() == old(self).sent() + count,
            final(self).started(),
    {
        self.sent = self.sent + count;
        self.started = true;
    }
}

/// One end of a channel: the bytes received of a frame that is not whole yet, and the descriptor
/// that came with them.
pub struct Channel<D> {
    bytes: Vec<u8>,
    descriptor: Option<D>,
}

/// Bytes still missing of a frame of which `bytes` have arrived: of its header first, then of its
/// payload.
pub open spec fn missing(bytes: Seq<u8>) -> int {
    if bytes.len() < HEADER_BYTES {
        HEADER_BYTES - bytes.len()
    } else {
        HEADER_BYTES + le_value(bytes) - bytes.len()
    }
}

/// Whether `bytes` are the beginning of a frame that may still become whole.
pub open spec fn partial(bytes: Seq<u8>) -> bool {
    bytes.len() >= HEADER_BYTES ==> le_value(bytes) <= MAX_MESSAGE_BYTES && missing(bytes) > 0
}

/// The first of the descriptors that came along, if any.
pub open spec fn first_of<D>(descriptors: Seq<D>) -> Option<D> {
    if descriptors.len() == 0 {
        None
    } else {
        Some(descriptors[0])
    }
}

/// The descriptor of the frame being received once a read has brought `descriptors`: the first of
/// those that come with its first byte. Later ones are not its own.
pub open spec fn kept<D>(
    received: Seq<u8>,
    descriptor: Option<D>,
    descriptors: Seq<D>,
) -> Option<D> {
    if received.len() == 0 {
        first_of(descriptors)
    } else {
        descriptor
    }
}

/// What comes of a read.
pub enum Arrival {
    /// No message can be had.
    Lost(ChannelError),
    /// The frame is whole: its payload.
    Message(Seq<u8>),
    /// The frame is not whole yet: what has arrived of it.
    More(Seq<u8>),
}

/// What the end of the stream means when `received` had arrived before.
pub open spec fn ended(received: Seq<u8>) -> ChannelError {
    if received.len() == 0 {
        ChannelError::Closed
    } else {
        ChannelError::Truncated
    }
}

/// What comes of a read that brought `chunk` (nothing, where the peer has closed the stream) when
/// `received` had arrived before.
pub open spec fn arrive(received: Seq<u8>, chunk: Seq<u8>) -> Arrival {
    let bytes = received + chunk;
    if chunk.len() == 0 {
        Arrival::Lost(ended(received))
    } else if bytes.len() >= HEADER_BYTES && le_value(bytes) > MAX_MESSAGE_BYTES {
        Arrival::Lost(ChannelError::TooLarge)
    } else if missing(bytes) == 0 {
        Arrival::Message(bytes.skip(HEADER_BYTES as int))
    } else {
        Arrival::More(bytes)
    }
}

/// Keeps the first descriptor; any other one is dropped, which closes it.
fn keep_first<D>(descriptors: Vec<D>) -> (first: Option<D>)
    ensures
        first == first_of(descriptors@),
{
    let mut descriptors = descriptors;
    if descriptors.len() == 0 {
        None
    } else {
        Some(descriptors.swap_remove(0))
    }
}

impl<D> Channel<D> {
    /// What has arrived of the frame being received.
    pub closed spec fn received(self) -> Seq<u8> {
        self.bytes@
    }

    /// The descriptor that came with it.
    pub closed spec fn descriptor(self) -> Option<D> {
        self.descriptor
    }

    pub open spec fn wf(self) -> bool {
        &&& partial(self.received())
        &&& self.received().len() == 0 ==> self.descriptor() is None
    }

    /// A channel on which nothing has arrived.
    pub fn new() -> (channel: Channel<D>)
        ensures
            channel.wf(),
            channel.received() == Seq::<u8>::empty(),
            channel.descriptor() is None,
    {
        Channel { bytes: Vec::new(), descriptor: None }
    }

    /// The frame of a message, to be written.
    pub fn send(&self, payload: &[u8]) -> (outgoing: Result<Outgoing, ChannelError>)
        ensures
            payload@.len() > MAX_MESSAGE_BYTES ==> outgoing == Err::<Outgoing, ChannelError>(
                ChannelError::TooLarge,
            ),
            payload@.len() <= MAX_MESSAGE_BYTES ==> (outgoing matches Ok(out) && {
                &&& out.wf()
                &&& out.frame() == frame(payload@)
                &&& out.sent() == 0
                &&& !out.started()
            }),
    {
        let len = payload.len();
        if len > MAX_MESSAGE_BYTES {
            return Err(ChannelError::TooLarge);
        }
        let mut bytes: Vec<u8> = Vec::with_capacity(HEADER_BYTES + len);
        bytes.push((len % 0x100) as u8);
        bytes.push((len / 0x100 % 0x100) as u8);
        bytes.push((len / 0x1_0000 % 0x100) as u8);
        bytes.push((len / 0x100_0000 % 0x100) as u8);
        bytes.extend_from_slice(payload);
        assert(bytes@ =~= frame(payload@));
        Ok(Outgoing { frame: bytes, sent: 0, started: false })
    }

    /// How many bytes to read next at most. Descriptors are received together with the first
    /// bytes of a frame only.
    pub fn wanted(&self) -> (count: usize)
        requires
            self.wf(),
        ensures
            count == missing(self.received()),
            0 < count <= MAX_MESSAGE_BYTES,
    {
        if self.bytes.len() < HEADER_BYTES {
            HEADER_BYTES - self.bytes.len()
        } else {
            HEADER_BYTES + self.length() - self.bytes.len()
        }
    }

    /// Whether the next read is the one that descriptors come with.
    pub fn takes_descriptors(&self) -> (first: bool)
        ensures
            first == (self.received().len() == 0),
    {
        self.bytes.len() == 0
    }

    fn length(&self) -> (length: usize)
        requires
            self.received().len() >= HEADER_BYTES,
        ensures
            length == le_value(self.received()),
    {
        self.bytes[0] as usize + self.bytes[1] as usize * 0x100 + self.bytes[2] as usize * 0x1_0000
            + self.bytes[3] as usize * 0x100_0000
    }

    fn clear(&mut self)
        ensures
            final(self).received() == Seq::<u8>::empty(),
            final(self).descriptor() is None,
    {
        self.bytes = Vec::new();
        self.descriptor = None;
    }

    /// Takes in what a read brought: no more bytes than were wanted, none at all where the peer
    /// has closed the stream. Returns the message and its descriptor once the frame is whole;
    /// after a message or an error the next frame begins.
    pub fn recv(&mut self, chunk: &[u8], descriptors: Vec<D>) -> (message: Result<
        Option<(Vec<u8>, Option<D>)>,
        ChannelError,
    >)
        requires
            old(self).wf(),
            chunk@.len() <= missing(old(self).received()),
        ensures
            match arrive(old(self).received(), chunk@) {
                Arrival::Lost(error) => {
                    &&& message == Err::<Option<(Vec<u8>, Option<D>)>, ChannelError>(error)
                    &&& final(self).received() == Seq::<u8>::empty()
                },
                Arrival::Message(bytes) => {
                    &&& message matches Ok(Some((payload, descriptor)))
                    &&& payload@ == bytes
                    &&& descriptor == kept(
                        old(self).received(),
                        old(self).descriptor(),
                        descriptors@,
                    )
                    &&& final(self).received() == Seq::<u8>::empty()
                },
                Arrival::More(bytes) => {
                    &&& message == Ok::<Option<(Vec<u8>, Option<D>)>, ChannelError>(None)
                    &&& final(self).received() == bytes
                    &&& final(self).descriptor() == kept(
                        old(self).received(),
                        old(self).descriptor(),
                        descriptors@,
                    )
                },
            },
            final(self).wf(),
    {
        if chunk.len() == 0 {
            let error = if self.bytes.len() == 0 {
                ChannelError::Closed
            } else {
                ChannelError::Truncated
            };
            self.clear();
            return Err(error);
        }
        if self.bytes.len() == 0 {
            self.descriptor = keep_first(descriptors);
        }
        self.bytes.extend_from_slice(chunk);
        assert(self.bytes@ =~= old(self).received() + chunk@);
        if self.bytes.len() < HEADER_BYTES {
            return Ok(None);
        }
        let length = self.length();
        if length > MAX_MESSAGE_BYTES {
            self.clear();
            return Err(ChannelError::TooLarge);
        }
        if self.bytes.len() < HEADER_BYTES + length {
            return Ok(None);
        }
        let payload = self.bytes.split_off(HEADER_BYTES);
        self.bytes = Vec::new();
        let descriptor = self.descriptor.take();
        Ok(Some((payload, descriptor)))
    }
}

/// What a stream gives that arrives in the given reads and then ends, each read handed to
/// [`Channel::recv`] in turn until it returns a message or fails.
pub open spec fn deliver(received: Seq<u8>, chunks: Seq<Seq<u8>>) -> Read
    decreases chunks.len(),
{
    if chunks.len() == 0 {
        Read::Nothing(ended(received))
    } else {
        match arrive(received, chunks[0]) {
            Arrival::Lost(error) => Read::Nothing(error),
            Arrival::Message(payload) => {
                Read::Frame { payload, rest: chunks.drop_first().flatten() }
            },
            Arrival::More(bytes) => deliver(bytes, chunks.drop_first()),
        }
    }
}

/// The descriptor that comes with the message of the given reads, each with the descriptors that
/// it brought.
pub open spec fn deliver_descriptor<D>(
    received: Seq<u8>,
    descriptor: Option<D>,
    chunks: Seq<Seq<u8>>,
    descriptors: Seq<Seq<D>>,
) -> Option<D>
    decreases chunks.len(),
{
    if chunks.len() == 0 {
        None
    } else {
        let now = kept(received, descriptor, descriptors[0]);
        match arrive(received, chunks[0]) {
            Arrival::Lost(error) => None,
            Arrival::Message(payload) => now,
            Arrival::More(bytes) => deliver_descriptor(
                bytes,
                now,
                chunks.drop_first(),
                descriptors.drop_first(),
            ),
        }
    }
}

/// Whether every read brings something and no more than was wanted, as long as the frame is not
/// whole.
pub open spec fn as_wanted(received: Seq<u8>, chunks: Seq<Seq<u8>>) -> bool
    decreases chunks.len(),
{
    chunks.len() > 0 ==> {
        &&& 0 < chunks[0].len() <= missing(received)
        &&& arrive(received, chunks[0]) matches Arrival::More(bytes) ==> as_wanted(
            bytes,
            chunks.drop_first(),
        )
    }
}

/// Four bytes hold every number below 2^32.
pub proof fn lemma_le_round_trip(value: nat)
    requires
        value < 0x1_0000_0000,
    ensures
        le_value(le_bytes(value)) == value,
{
}

/// What was framed is read back whole, and what follows it in the stream is left for the next
/// message.
pub proof fn lemma_frame_round_trip(payload: Seq<u8>, rest: Seq<u8>)
    requires
        payload.len() <= MAX_MESSAGE_BYTES,
    ensures
        read(frame(payload) + rest) == (Read::Frame { payload, rest }),
{
    let stream = frame(payload) + rest;
    lemma_le_round_trip(payload.len());
    assert(le_value(stream) == le_value(le_bytes(payload.len())));
    let end = HEADER_BYTES + payload.len();
    assert(stream.subrange(HEADER_BYTES as int, end as int) =~= payload);
    assert(stream.skip(end as int) =~= rest);
}

/// A frame cut short is never taken for a message.
pub proof fn lemma_cut_frame_is_refused(payload: Seq<u8>, count: int)
    requires
        payload.len() <= MAX_MESSAGE_BYTES,
        0 <= count < frame(payload).len(),
    ensures
        read(frame(payload).take(count)) matches Read::Nothing(error) && error.end_of_stream(),
{
    let stream = frame(payload).take(count);
    lemma_le_round_trip(payload.len());
    if count >= HEADER_BYTES {
        assert(le_value(stream) == le_value(le_bytes(payload.len())));
    }
}

/// A length beyond the bound is refused as soon as it is known, whatever follows.
pub proof fn lemma_long_message_is_refused(stream: Seq<u8>)
    requires
        stream.len() >= HEADER_BYTES,
        le_value(stream) > MAX_MESSAGE_BYTES,
    ensures
        read(stream) == Read::Nothing(ChannelError::TooLarge),
{
}

/// A peer can never make the other hold more than one bounded frame.
pub proof fn lemma_received_is_bounded<D>(channel: Channel<D>)
    requires
        channel.wf(),
    ensures
        channel.received().len() < HEADER_BYTES + MAX_MESSAGE_BYTES,
{
}

/// However a stream is cut into reads, the same message comes of it, or the same error.
pub proof fn lemma_reads_do_not_matter(received: Seq<u8>, chunks: Seq<Seq<u8>>)
    requires
        partial(received),
        as_wanted(received, chunks),
    ensures
        deliver(received, chunks) == read(received + chunks.flatten()),
    decreases chunks.len(),
{
    if chunks.len() == 0 {
        assert(received + chunks.flatten() =~= received);
    } else {
        let bytes = received + chunks[0];
        let rest = chunks.drop_first().flatten();
        let stream = received + chunks.flatten();
        assert(stream =~= bytes + rest);
        if bytes.len() >= HEADER_BYTES {
            assert(le_value(stream) == le_value(bytes));
        }
        match arrive(received, chunks[0]) {
            Arrival::Lost(error) => {},
            Arrival::Message(payload) => {
                let end = HEADER_BYTES + le_value(stream);
                assert(stream.subrange(HEADER_BYTES as int, end) =~= payload);
                assert(stream.skip(end) =~= rest);
            },
            Arrival::More(more) => {
                lemma_reads_do_not_matter(more, chunks.drop_first());
            },
        }
    }
}

/// A message is received as it was sent, however its frame was cut into reads.
pub proof fn lemma_message_survives_any_reads(payload: Seq<u8>, chunks: Seq<Seq<u8>>)
    requires
        payload.len() <= MAX_MESSAGE_BYTES,
        chunks.flatten() == frame(payload),
        as_wanted(Seq::empty(), chunks),
    ensures
        deliver(Seq::empty(), chunks) == (Read::Frame { payload, rest: Seq::empty() }),
{
    lemma_reads_do_not_matter(Seq::empty(), chunks);
    lemma_frame_round_trip(payload, Seq::empty());
    assert(Seq::<u8>::empty() + chunks.flatten() =~= frame(payload) + Seq::<u8>::empty());
}

proof fn lemma_descriptor_is_kept<D>(
    received: Seq<u8>,
    descriptor: Option<D>,
    chunks: Seq<Seq<u8>>,
    descriptors: Seq<Seq<D>>,
)
    requires
        received.len() > 0,
        deliver(received, chunks) is Frame,
    ensures
        deliver_descriptor(received, descriptor, chunks, descriptors) == descriptor,
    decreases chunks.len(),
{
    match arrive(received, chunks[0]) {
        Arrival::More(bytes) => {
            lemma_descriptor_is_kept(
                bytes,
                descriptor,
                chunks.drop_first(),
                descriptors.drop_first(),
            );
        },
        _ => {},
    }
}

/// The descriptor of a message is the first of those that came with its first byte, however the
/// rest of its frame was cut into reads and whatever came with those.
pub proof fn lemma_descriptor_comes_first<D>(chunks: Seq<Seq<u8>>, descriptors: Seq<Seq<D>>)
    requires
        deliver(Seq::empty(), chunks) is Frame,
    ensures
        deliver_descriptor(Seq::empty(), None, chunks, descriptors) == first_of(descriptors[0]),
{
    match arrive(Seq::empty(), chunks[0]) {
        Arrival::More(bytes) => {
            lemma_descriptor_is_kept(
                bytes,
                first_of(descriptors[0]),
                chunks.drop_first(),
                descriptors.drop_first(),
            );
        },
        _ => {},
    }
}

/// Bytes that the given writes take together.
pub open spec fn total(counts: Seq<nat>) -> nat
    decreases counts.len(),
{
    if counts.len() == 0 {
        0
    } else {
        total(counts.drop_last()) + counts.last()
    }
}

/// What is on the wire once each of the given writes has taken that many bytes of what
/// [`Outgoing::remaining`] then gave.
pub open spec fn wire(frame: Seq<u8>, counts: Seq<nat>) -> Seq<u8>
    decreases counts.len(),
{
    if counts.len() == 0 {
        Seq::empty()
    } else {
        let before = counts.drop_last();
        wire(frame, before) + frame.skip(total(before) as int).take(counts.last() as int)
    }
}

/// However the socket cuts the writes, the bytes on the wire are the frame's, in order.
pub proof fn lemma_writes_do_not_matter(frame: Seq<u8>, counts: Seq<nat>)
    requires
        total(counts) <= frame.len(),
    ensures
        wire(frame, counts) == frame.take(total(counts) as int),
    decreases counts.len(),
{
    if counts.len() > 0 {
        lemma_writes_do_not_matter(frame, counts.drop_last());
    }
    assert(wire(frame, counts) =~= frame.take(total(counts) as int));
}

/// A message that was written whole is received as it was sent, however the writes and the reads
/// were cut.
pub proof fn lemma_message_crosses_channel(
    payload: Seq<u8>,
    counts: Seq<nat>,
    chunks: Seq<Seq<u8>>,
)
    requires
        payload.len() <= MAX_MESSAGE_BYTES,
        total(counts) == frame(payload).len(),
        chunks.flatten() == wire(frame(payload), counts),
        as_wanted(Seq::empty(), chunks),
    ensures
        deliver(Seq::empty(), chunks) == (Read::Frame { payload, rest: Seq::empty() }),
{
    lemma_writes_do_not_matter(frame(payload), counts);
    assert(wire(frame(payload), counts) =~= frame(payload));
    lemma_message_survives_any_reads(payload, chunks);
}

/// The frames of the given messages, one after the other.
pub open spec fn frames(payloads: Seq<Seq<u8>>) -> Seq<u8>
    decreases payloads.len(),
{
    if payloads.len() == 0 {
        Seq::empty()
    } else {
        frame(payloads[0]) + frames(payloads.drop_first())
    }
}

/// What is on the wire once each message has been written with the given writes of its own.
pub open spec fn wires(payloads: Seq<Seq<u8>>, counts: Seq<Seq<nat>>) -> Seq<u8>
    decreases payloads.len(),
{
    if payloads.len() == 0 {
        Seq::empty()
    } else {
        wire(frame(payloads[0]), counts[0]) + wires(payloads.drop_first(), counts.drop_first())
    }
}

/// The messages that come of the given reads, each handed to [`Channel::recv`] in turn until it
/// fails, and what has then arrived of the next frame.
pub open spec fn deliver_all(received: Seq<u8>, chunks: Seq<Seq<u8>>) -> (Seq<Seq<u8>>, Seq<u8>)
    decreases chunks.len(),
{
    if chunks.len() == 0 {
        (Seq::empty(), received)
    } else {
        match arrive(received, chunks[0]) {
            Arrival::Lost(_) => (Seq::empty(), received),
            Arrival::Message(payload) => {
                let (payloads, left) = deliver_all(Seq::empty(), chunks.drop_first());
                (seq![payload] + payloads, left)
            },
            Arrival::More(bytes) => deliver_all(bytes, chunks.drop_first()),
        }
    }
}

/// Whether every read brings something and no more than was wanted, message after message.
pub open spec fn all_as_wanted(received: Seq<u8>, chunks: Seq<Seq<u8>>) -> bool
    decreases chunks.len(),
{
    chunks.len() > 0 ==> {
        &&& 0 < chunks[0].len() <= missing(received)
        &&& match arrive(received, chunks[0]) {
            Arrival::Lost(_) => true,
            Arrival::Message(_) => all_as_wanted(Seq::empty(), chunks.drop_first()),
            Arrival::More(bytes) => all_as_wanted(bytes, chunks.drop_first()),
        }
    }
}

/// Of a stream of frames the messages are taken in the order in which they were sent, however it is
/// cut into reads: the k-th taken is the k-th sent. The beginning of a frame that is not whole yet
/// is left for the reads to come.
#[verifier::rlimit(60)]
#[verifier::spinoff_prover]
pub proof fn lemma_stream_is_read_in_order(
    payloads: Seq<Seq<u8>>,
    rest: Seq<u8>,
    received: Seq<u8>,
    chunks: Seq<Seq<u8>>,
)
    requires
        forall|k: int|
            0 <= k < payloads.len() ==> (#[trigger] payloads[k]).len() <= MAX_MESSAGE_BYTES,
        partial(rest),
        partial(received),
        all_as_wanted(received, chunks),
        received + chunks.flatten() == frames(payloads) + rest,
    ensures
        deliver_all(received, chunks) == (payloads, rest),
    decreases chunks.len(),
{
    let stream = frames(payloads) + rest;
    if payloads.len() > 0 {
        let first = payloads[0];
        lemma_le_round_trip(first.len());
        assert(stream =~= frame(first) + (frames(payloads.drop_first()) + rest));
        assert(le_value(stream) == first.len());
    } else {
        assert(stream =~= rest);
    }
    if chunks.len() == 0 {
        assert(stream =~= received);
        assert(payloads =~= Seq::empty());
    } else {
        let bytes = received + chunks[0];
        let later = chunks.drop_first();
        assert(stream =~= bytes + later.flatten());
        if bytes.len() >= HEADER_BYTES {
            assert(le_value(stream) == le_value(bytes));
        }
        match arrive(received, chunks[0]) {
            Arrival::Lost(_) => {},
            Arrival::Message(payload) => {
                let first = payloads[0];
                let next = payloads.drop_first();
                assert(bytes =~= stream.take(bytes.len() as int));
                assert(bytes =~= frame(first));
                assert(payload =~= first);
                assert(later.flatten() =~= stream.skip(bytes.len() as int));
                assert(Seq::<u8>::empty() + later.flatten() =~= frames(next) + rest);
                assert forall|k: int| 0 <= k < next.len() implies (#[trigger] next[k]).len()
                    <= MAX_MESSAGE_BYTES by {
                    assert(next[k] == payloads[k + 1]);
                }
                lemma_stream_is_read_in_order(next, rest, Seq::empty(), later);
                assert(seq![payload] + next =~= payloads);
            },
            Arrival::More(more) => {
                lemma_stream_is_read_in_order(payloads, rest, more, later);
            },
        }
    }
}

proof fn lemma_wires_are_frames(payloads: Seq<Seq<u8>>, counts: Seq<Seq<nat>>)
    requires
        counts.len() == payloads.len(),
        forall|k: int|
            0 <= k < payloads.len() ==> total(#[trigger] counts[k]) == frame(payloads[k]).len(),
    ensures
        wires(payloads, counts) == frames(payloads),
    decreases payloads.len(),
{
    if payloads.len() > 0 {
        assert(total(counts[0]) == frame(payloads[0]).len());
        lemma_writes_do_not_matter(frame(payloads[0]), counts[0]);
        assert(wire(frame(payloads[0]), counts[0]) =~= frame(payloads[0]));
        let (next, later) = (payloads.drop_first(), counts.drop_first());
        assert forall|k: int| 0 <= k < next.len() implies total(#[trigger] later[k]) == frame(
            next[k],
        ).len() by {
            assert(later[k] == counts[k + 1]);
        }
        lemma_wires_are_frames(next, later);
    }
}

/// Messages that were written whole, one after the other, are received as they were sent and in
/// that order, however the writes and the reads were cut; what follows them is left.
pub proof fn lemma_messages_cross_channel(
    payloads: Seq<Seq<u8>>,
    counts: Seq<Seq<nat>>,
    rest: Seq<u8>,
    chunks: Seq<Seq<u8>>,
)
    requires
        forall|k: int|
            0 <= k < payloads.len() ==> (#[trigger] payloads[k]).len() <= MAX_MESSAGE_BYTES,
        counts.len() == payloads.len(),
        forall|k: int|
            0 <= k < payloads.len() ==> total(#[trigger] counts[k]) == frame(payloads[k]).len(),
        partial(rest),
        chunks.flatten() == wires(payloads, counts) + rest,
        all_as_wanted(Seq::empty(), chunks),
    ensures
        deliver_all(Seq::empty(), chunks) == (payloads, rest),
{
    lemma_wires_are_frames(payloads, counts);
    assert(Seq::<u8>::empty() + chunks.flatten() =~= frames(payloads) + rest);
    lemma_stream_is_read_in_order(payloads, rest, Seq::empty(), chunks);
}

/// What a read comes to, from the bytes that have arrived: nothing more is the end of the stream, a
/// normal one only between frames; four bytes say how long the payload is, the least significant
/// first; a payload is handed out as soon as all of it is there, one of more than 1 MiB never.
pub proof fn lemma_arrivals(received: Seq<u8>, chunk: Seq<u8>)
    ensures
        ({
            let b = received + chunk;
            let length = b[0] + b[1] * 256 + b[2] * 65536 + b[3] * 16777216;
            let arrival = arrive(received, chunk);
            &&& chunk.len() == 0 && received.len() == 0 ==> arrival == Arrival::Lost(
                ChannelError::Closed,
            )
            &&& chunk.len() == 0 && received.len() > 0 ==> arrival == Arrival::Lost(
                ChannelError::Truncated,
            )
            &&& chunk.len() > 0 && b.len() < 4 ==> arrival == Arrival::More(b)
            &&& chunk.len() > 0 && b.len() >= 4 && length > 1048576 ==> arrival == Arrival::Lost(
                ChannelError::TooLarge,
            )
            &&& chunk.len() > 0 && b.len() >= 4 && length <= 1048576 && b.len() == 4 + length
                ==> arrival == Arrival::Message(b.skip(4))
            &&& chunk.len() > 0 && b.len() >= 4 && length <= 1048576 && b.len() < 4 + length
                ==> arrival == Arrival::More(b)
        }),
{
}

/// A message's descriptor is the very first of those that came with its first bytes; what comes
/// later changes nothing.
pub proof fn lemma_kept_descriptor<D>(
    received: Seq<u8>,
    descriptor: Option<D>,
    descriptors: Seq<D>,
)
    ensures
        received.len() == 0 && descriptors.len() > 0 ==> kept(received, descriptor, descriptors)
            == Some(descriptors[0]),
        received.len() == 0 && descriptors.len() == 0 ==> kept(received, descriptor, descriptors)
            == None::<D>,
        received.len() > 0 ==> kept(received, descriptor, descriptors) == descriptor,
{
}

} // verus!
