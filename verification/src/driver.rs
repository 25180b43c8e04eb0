//! The client driver: one request on one stream, as a state machine.
//!
//! The driver does no I/O. Each call of [`Connection::step`] takes the event
//! that the caller's transport produced and returns the next action for it:
//! send the preface or a frame, receive more bytes, look at the response
//! headers, or stop. Everything the driver decides is in its contracts.

use crate::buffer::Accumulator;
use crate::flags::{BitFlags, DataFlags, HeadersFlags, SettingsFlags};
use crate::frame::{
    lemma_complete_is_stable, lemma_complete_shape, parse_spec, Frame, FrameView, OpaquePayload,
    ParseError, Parsed,
};
use crate::frame_type::{FrameType, UnknownFrameType};
use crate::header_block::{
    block_is_safe, decode_block, encode_block, hpack_encoded, new_decoder, size_updates_end,
    HeaderList, HeaderSeq,
};
use crate::wire::MAX_PAYLOAD_LEN;
use vstd::prelude::*;

verus! {

/// The connection preface that a client sends first:
/// `PRI * HTTP/2.0\r\n\r\nSM\r\n\r\n`.
pub const PREFACE: [u8; 24] = [
    0x50, 0x52, 0x49, 0x20, 0x2A, 0x20, 0x48, 0x54, 0x54, 0x50, 0x2F, 0x32, 0x2E, 0x30, 0x0D, 0x0A,
    0x0D, 0x0A, 0x53, 0x4D, 0x0D, 0x0A, 0x0D, 0x0A,
];

/// The stream that carries the one request.
pub const REQUEST_STREAM: u32 = 1;

/// Valid HTTP/2 that this client does not implement.
#[derive(Copy, Clone, Debug, PartialEq, Eq)]
pub enum Unsupported {
    /// A HEADERS or DATA frame is padded.
    Padding,
    /// A HEADERS frame carries priority fields.
    Priority,
    /// A HEADERS frame without `EndHeaders`: CONTINUATION frames would follow.
    Continuation,
    /// A DATA frame without `EndStream`: the body would come in pieces.
    StreamingBody,
}

impl Unsupported {
    /// What is not supported, in words.
    pub open spec fn message_spec(self) -> Seq<char> {
        match self {
            Unsupported::Padding => "padding not supported"@,
            Unsupported::Priority => "priority not supported"@,
            Unsupported::Continuation => "continuation frames not supported"@,
            Unsupported::StreamingBody => "streaming response bodies not supported"@,
        }
    }

    /// What is not supported, in words.
    pub fn message(&self) -> (text: &'static str)
        ensures
            text@ == self.message_spec(),
    {
        match self {
            Unsupported::Padding => "padding not supported",
            Unsupported::Priority => "priority not supported",
            Unsupported::Continuation => "continuation frames not supported",
            Unsupported::StreamingBody => "streaming response bodies not supported",
        }
    }
}

/// What went wrong between the driver and its transport.
#[derive(Copy, Clone, Debug, PartialEq, Eq)]
pub enum TransportFailure {
    /// A write failed or was short.
    Write,
    /// A read failed.
    Read,
    /// The peer closed the stream while a frame was still awaited.
    UnexpectedEof,
    /// The event does not answer the action that the driver asked for.
    OutOfTurn,
}

/// Why a connection failed. Every error ends the connection.
#[derive(Copy, Clone, Debug, PartialEq, Eq)]
pub enum Error {
    /// A frame header with a type byte that names no frame type.
    UnknownFrameType(u8),
    /// A header block that cannot be decoded.
    HeaderBlock,
    /// A frame that asks for something this client does not implement.
    Unsupported(Unsupported),
    /// The transport failed.
    Transport(TransportFailure),
    /// The request's header block is too long for one frame.
    EncodingOverflow,
}

/// The four kinds of error.
#[derive(Copy, Clone, Debug, PartialEq, Eq)]
pub enum ErrorKind {
    /// The byte stream is broken.
    Malformed,
    /// The byte stream is sound, and asks for what this client lacks.
    UnsupportedSemantics,
    TransportFailure,
    EncodingOverflow,
}

impl Error {
    pub open spec fn kind_spec(self) -> ErrorKind {
        match self {
            Error::UnknownFrameType(_) => ErrorKind::Malformed,
            Error::HeaderBlock => ErrorKind::Malformed,
            Error::Unsupported(_) => ErrorKind::UnsupportedSemantics,
            Error::Transport(_) => ErrorKind::TransportFailure,
            Error::EncodingOverflow => ErrorKind::EncodingOverflow,
        }
    }

    /// The kind of this error.
    pub fn kind(&self) -> (k: ErrorKind)
        ensures
            k == self.kind_spec(),
    {
        match self {
            Error::UnknownFrameType(_) => ErrorKind::Malformed,
            Error::HeaderBlock => ErrorKind::Malformed,
            Error::Unsupported(_) => ErrorKind::UnsupportedSemantics,
            Error::Transport(_) => ErrorKind::TransportFailure,
            Error::EncodingOverflow => ErrorKind::EncodingOverflow,
        }
    }
}

/// What a received frame asks of the driver.
#[derive(Copy, Clone, Debug, PartialEq, Eq)]
pub enum Dispatch {
    /// The server's SETTINGS: answer with a SETTINGS frame that carries `Ack`.
    AckSettings,
    /// The response headers: decode the payload.
    Headers,
    /// The whole response body: the exchange is complete.
    Body,
    /// Nothing: the frame is skipped.
    Ignore,
    /// The frame cannot be handled.
    Reject(Unsupported),
}

/// What a frame of the given type asks of the driver.
///
/// SETTINGS is acknowledged unless it is itself an acknowledgement. HEADERS
/// must end the header block and DATA must end the stream, and neither may be
/// padded or prioritised. Every other frame type is ignored.
pub open spec fn dispatch_spec(frame_type: FrameType) -> Dispatch {
    match frame_type {
        FrameType::Settings(flags) => if flags.contains_spec(SettingsFlags::Ack) {
            Dispatch::Ignore
        } else {
            Dispatch::AckSettings
        },
        FrameType::Headers(flags) => if flags.contains_spec(HeadersFlags::Padded) {
            Dispatch::Reject(Unsupported::Padding)
        } else if flags.contains_spec(HeadersFlags::Priority) {
            Dispatch::Reject(Unsupported::Priority)
        } else if !flags.contains_spec(HeadersFlags::EndHeaders) {
            Dispatch::Reject(Unsupported::Continuation)
        } else {
            Dispatch::Headers
        },
        FrameType::Data(flags) => if flags.contains_spec(DataFlags::Padded) {
            Dispatch::Reject(Unsupported::Padding)
        } else if !flags.contains_spec(DataFlags::EndStream) {
            Dispatch::Reject(Unsupported::StreamingBody)
        } else {
            Dispatch::Body
        },
        _ => Dispatch::Ignore,
    }
}

/// Decides what a received frame of the given type asks of the driver.
pub fn dispatch(frame_type: &FrameType) -> (d: Dispatch)
    ensures
        d == dispatch_spec(*frame_type),
{
    match frame_type {
        FrameType::Settings(flags) => {
            if flags.contains(SettingsFlags::Ack) {
                Dispatch::Ignore
            } else {
                Dispatch::AckSettings
            }
        },
        FrameType::Headers(flags) => {
            if flags.contains(HeadersFlags::Padded) {
                Dispatch::Reject(Unsupported::Padding)
            } else if flags.contains(HeadersFlags::Priority) {
                Dispatch::Reject(Unsupported::Priority)
            } else if !flags.contains(HeadersFlags::EndHeaders) {
                Dispatch::Reject(Unsupported::Continuation)
            } else {
                Dispatch::Headers
            }
        },
        FrameType::Data(flags) => {
            if flags.contains(DataFlags::Padded) {
                Dispatch::Reject(Unsupported::Padding)
            } else if !flags.contains(DataFlags::EndStream) {
                Dispatch::Reject(Unsupported::StreamingBody)
            } else {
                Dispatch::Body
            }
        },
        _ => Dispatch::Ignore,
    }
}


/// What the driver waits for while it reads the response.
#[derive(Copy, Clone, Debug, PartialEq, Eq)]
pub enum Pending {
    /// Bytes from the transport.
    Read,
    /// The end of the write of a SETTINGS acknowledgement.
    AckWrite,
    /// The caller, who is looking at the response headers.
    Delivery,
}

/// The states of a connection, in the order in which they are passed.
#[derive(Copy, Clone, Debug, PartialEq, Eq)]
pub enum State {
    /// The transport is set up and nothing was sent.
    Connected,
    /// The preface was handed to the transport.
    PrefaceSent,
    /// The client's SETTINGS frame was handed to the transport.
    SettingsSent,
    /// The request's HEADERS frame was handed to the transport.
    RequestSent,
    /// The response is being read.
    ReadLoop(Pending),
    /// The response is complete.
    Done,
    /// The connection failed and cannot be used.
    Failed(Error),
}

/// What the transport did with the last action.
#[derive(Debug, PartialEq, Eq)]
pub enum Event {
    /// The transport is connected and HTTP/2 is agreed.
    Start,
    /// The bytes of the last send action were all written.
    Written,
    /// A read returned these bytes. No bytes at all means that the peer
    /// closed the stream.
    Received(Vec<u8>),
    /// The caller has looked at the response headers.
    Resumed,
    /// The read or write failed.
    Failed,
}

/// An event as a mathematical value.
pub enum EventView {
    Start,
    Written,
    Received(Seq<u8>),
    Resumed,
    Failed,
}

impl View for Event {
    type V = EventView;

    open spec fn view(&self) -> EventView {
        match self {
            Event::Start => EventView::Start,
            Event::Written => EventView::Written,
            Event::Received(chunk) => EventView::Received(chunk@),
            Event::Resumed => EventView::Resumed,
            Event::Failed => EventView::Failed,
        }
    }
}

/// What the caller is to do next.
#[derive(Debug, PartialEq, Eq)]
pub enum Action {
    /// Write the 24 bytes of [`PREFACE`], then report `Written`.
    SendPreface,
    /// Write the frame's header, then its payload, then report `Written`.
    SendFrame(Frame),
    /// Read from the transport and report `Received`.
    Receive,
    /// The response headers are in: look at them, then report `Resumed`.
    Headers,
    /// The response is complete. Nothing more is to be done.
    Done,
    /// The connection failed. Close the transport.
    Fail(Error),
}

/// An action as a mathematical value.
pub enum ActionView {
    SendPreface,
    SendFrame(FrameView),
    Receive,
    Headers,
    Done,
    Fail(Error),
}

impl View for Action {
    type V = ActionView;

    open spec fn view(&self) -> ActionView {
        match self {
            Action::SendPreface => ActionView::SendPreface,
            Action::SendFrame(frame) => ActionView::SendFrame(frame@),
            Action::Receive => ActionView::Receive,
            Action::Headers => ActionView::Headers,
            Action::Done => ActionView::Done,
            Action::Fail(e) => ActionView::Fail(*e),
        }
    }
}

/// A connection as a mathematical value.
pub struct ConnectionView {
    pub state: State,
    /// The header list of the request.
    pub request: HeaderSeq,
    /// The bytes received and not yet consumed.
    pub buffer: Seq<u8>,
    /// The header list of the response, empty until it has come.
    pub headers: HeaderSeq,
    /// The body of the response, empty until it has come.
    pub body: Seq<u8>,
}

/// The SETTINGS frame that the client sends: no settings, on stream 0, with
/// the `Ack` flag where it answers the server's.
pub open spec fn settings_frame_spec(ack: bool) -> FrameView {
    FrameView {
        frame_type: FrameType::Settings(
            BitFlags::truncated(
                if ack {
                    1u8
                } else {
                    0u8
                },
            ),
        ),
        reserved: 0,
        stream_id: 0,
        payload: Seq::empty(),
    }
}

/// The HEADERS frame of the request: the header block on stream 1, with
/// `EndHeaders` and `EndStream`, since no body and no CONTINUATION follow.
pub open spec fn request_frame_spec(block: Seq<u8>) -> FrameView {
    FrameView {
        frame_type: FrameType::Headers(BitFlags::truncated(0x05u8)),
        reserved: 0,
        stream_id: REQUEST_STREAM,
        payload: block,
    }
}

/// The failed connection and the action that reports the failure.
pub open spec fn fail_spec(c: ConnectionView, e: Error) -> (ConnectionView, ActionView) {
    (ConnectionView { state: State::Failed(e), ..c }, ActionView::Fail(e))
}

/// What the decoder's answer to a header block comes to: a block that is
/// not safe to decode is never shown to the decoder and counts as refused.
pub open spec fn header_list_spec(
    block: Seq<u8>,
    decoded: Option<HeaderSeq>,
) -> Option<HeaderSeq> {
    if size_updates_end(block) {
        decoded
    } else {
        None
    }
}

/// What a frame that was taken off the buffer does to the connection, and
/// the action it asks for; `None` for a frame that is ignored.
///
/// `decoded` is what the HPACK decoder makes of the payload, `None` if it
/// refuses it; it matters only for a HEADERS frame that is accepted.
pub open spec fn frame_spec(
    c: ConnectionView,
    frame: FrameView,
    decoded: Option<HeaderSeq>,
) -> Option<(ConnectionView, ActionView)> {
    match dispatch_spec(frame.frame_type) {
        Dispatch::Ignore => None,
        Dispatch::AckSettings => Some(
            (
                ConnectionView { state: State::ReadLoop(Pending::AckWrite), ..c },
                ActionView::SendFrame(settings_frame_spec(true)),
            ),
        ),
        Dispatch::Headers => match header_list_spec(frame.payload, decoded) {
            Some(list) => Some(
                (
                    ConnectionView { state: State::ReadLoop(Pending::Delivery), headers: list, ..c },
                    ActionView::Headers,
                ),
            ),
            None => Some(fail_spec(c, Error::HeaderBlock)),
        },
        Dispatch::Body => Some(
            (ConnectionView { state: State::Done, body: frame.payload, ..c }, ActionView::Done),
        ),
        Dispatch::Reject(what) => Some(fail_spec(c, Error::Unsupported(what))),
    }
}

/// One turn of the read loop on the bytes in the buffer.
///
/// Frames are taken off the buffer until one asks for an action. While the
/// frame at the front is incomplete, more bytes are asked for. An unknown
/// frame type fails the connection.
pub open spec fn read_spec(c: ConnectionView, decoded: Option<HeaderSeq>) -> (
    ConnectionView,
    ActionView,
)
    decreases c.buffer.len(),
{
    match parse_spec(c.buffer) {
        Parsed::Incomplete => (
            ConnectionView { state: State::ReadLoop(Pending::Read), ..c },
            ActionView::Receive,
        ),
        Parsed::Malformed(code) => fail_spec(c, Error::UnknownFrameType(code)),
        Parsed::Complete { frame, consumed } => {
            let c = ConnectionView { buffer: c.buffer.skip(consumed as int), ..c };
            match frame_spec(c, frame, decoded) {
                None => read_spec(c, decoded),
                Some(outcome) => outcome,
            }
        },
    }
}

/// The buffer without the ignored frames at its front: what is left when
/// whole frames are dropped for as long as the first one is ignored.
pub open spec fn skip_ignored(buffer: Seq<u8>) -> Seq<u8>
    decreases buffer.len(),
{
    match parse_spec(buffer) {
        Parsed::Complete { frame, consumed } => if dispatch_spec(frame.frame_type)
            == Dispatch::Ignore {
            skip_ignored(buffer.skip(consumed as int))
        } else {
            buffer
        },
        _ => buffer,
    }
}

/// Ignored frames at the front of the buffer change nothing but the buffer:
/// a turn of the read loop comes out as if they had never been received.
pub proof fn lemma_read_skips_ignored(c: ConnectionView, decoded: Option<HeaderSeq>)
    ensures
        read_spec(c, decoded) == read_spec(
            ConnectionView { buffer: skip_ignored(c.buffer), ..c },
            decoded,
        ),
    decreases c.buffer.len(),
{
    match parse_spec(c.buffer) {
        Parsed::Complete { frame, consumed } => {
            if dispatch_spec(frame.frame_type) == Dispatch::Ignore {
                let rest = ConnectionView { buffer: c.buffer.skip(consumed as int), ..c };
                assert(frame_spec(rest, frame, decoded) is None);
                lemma_read_skips_ignored(rest, decoded);
            } else {
                assert(skip_ignored(c.buffer) == c.buffer);
            }
        },
        _ => {
            assert(skip_ignored(c.buffer) == c.buffer);
        },
    }
}

/// Two connections that differ only in ignored frames at the front of the
/// buffer take the same turn of the read loop.
proof fn lemma_read_from_first_kept(
    a: ConnectionView,
    b: ConnectionView,
    decoded: Option<HeaderSeq>,
)
    requires
        b == (ConnectionView { buffer: b.buffer, ..a }),
        skip_ignored(a.buffer) == skip_ignored(b.buffer),
    ensures
        read_spec(a, decoded) == read_spec(b, decoded),
{
    lemma_read_skips_ignored(a, decoded);
    lemma_read_skips_ignored(b, decoded);
}

/// The request's HEADERS frame goes out, unless its header block is too long
/// for one frame.
pub open spec fn send_request_spec(c: ConnectionView) -> (ConnectionView, ActionView) {
    let block = hpack_encoded(c.request);
    if block.len() > MAX_PAYLOAD_LEN {
        fail_spec(c, Error::EncodingOverflow)
    } else {
        (
            ConnectionView { state: State::RequestSent, ..c },
            ActionView::SendFrame(request_frame_spec(block)),
        )
    }
}

/// The state after an event, and the action that the driver asks for.
///
/// An event that does not answer the action asked for fails the connection,
/// and so does a failure of the transport. `Done` and `Failed` are final: they
/// answer every event with the same action.
pub open spec fn step_spec(
    c: ConnectionView,
    event: EventView,
    decoded: Option<HeaderSeq>,
) -> (ConnectionView, ActionView) {
    match c.state {
        State::Done => (c, ActionView::Done),
        State::Failed(e) => (c, ActionView::Fail(e)),
        State::Connected => match event {
            EventView::Start => (
                ConnectionView { state: State::PrefaceSent, ..c },
                ActionView::SendPreface,
            ),
            _ => fail_spec(c, Error::Transport(TransportFailure::OutOfTurn)),
        },
        State::PrefaceSent => match event {
            EventView::Written => (
                ConnectionView { state: State::SettingsSent, ..c },
                ActionView::SendFrame(settings_frame_spec(false)),
            ),
            EventView::Failed => fail_spec(c, Error::Transport(TransportFailure::Write)),
            _ => fail_spec(c, Error::Transport(TransportFailure::OutOfTurn)),
        },
        State::SettingsSent => match event {
            EventView::Written => send_request_spec(c),
            EventView::Failed => fail_spec(c, Error::Transport(TransportFailure::Write)),
            _ => fail_spec(c, Error::Transport(TransportFailure::OutOfTurn)),
        },
        State::RequestSent => match event {
            EventView::Written => (
                ConnectionView { state: State::ReadLoop(Pending::Read), ..c },
                ActionView::Receive,
            ),
            EventView::Failed => fail_spec(c, Error::Transport(TransportFailure::Write)),
            _ => fail_spec(c, Error::Transport(TransportFailure::OutOfTurn)),
        },
        State::ReadLoop(Pending::Read) => match event {
            EventView::Received(chunk) => if chunk.len() == 0 {
                fail_spec(c, Error::Transport(TransportFailure::UnexpectedEof))
            } else {
                read_spec(ConnectionView { buffer: c.buffer + chunk, ..c }, decoded)
            },
            EventView::Failed => fail_spec(c, Error::Transport(TransportFailure::Read)),
            _ => fail_spec(c, Error::Transport(TransportFailure::OutOfTurn)),
        },
        State::ReadLoop(Pending::AckWrite) => match event {
            EventView::Written => read_spec(c, decoded),
            EventView::Failed => fail_spec(c, Error::Transport(TransportFailure::Write)),
            _ => fail_spec(c, Error::Transport(TransportFailure::OutOfTurn)),
        },
        State::ReadLoop(Pending::Delivery) => match event {
            EventView::Resumed => read_spec(c, decoded),
            _ => fail_spec(c, Error::Transport(TransportFailure::OutOfTurn)),
        },
    }
}


/// The SETTINGS frame that the client sends, with `Ack` where it answers the
/// server's SETTINGS.
pub fn settings_frame(ack: bool) -> (frame: Frame)
    ensures
        frame@ == settings_frame_spec(ack),
        frame@.valid(),
{
    let flags = if ack {
        BitFlags::from_flag(SettingsFlags::Ack)
    } else {
        BitFlags::empty()
    };
    proof {
        BitFlags::<SettingsFlags>::lemma_truncated(0u8);
        BitFlags::<SettingsFlags>::lemma_truncated(1u8);
        assert(0u8 & 1u8 == 0u8) by (bit_vector);
        assert(1u8 & 1u8 == 1u8) by (bit_vector);
    }
    Frame::new(FrameType::Settings(flags), 0)
}

/// The HEADERS frame of the request around its header block.
pub fn request_frame(block: Vec<u8>) -> (frame: Frame)
    requires
        block@.len() <= MAX_PAYLOAD_LEN,
    ensures
        frame@ == request_frame_spec(block@),
        frame@.valid(),
{
    let flags = BitFlags::from_flag(HeadersFlags::EndHeaders).with(HeadersFlags::EndStream);
    proof {
        BitFlags::<HeadersFlags>::lemma_truncated(0x05u8);
        assert(0x04u8 | 0x01u8 == 0x05u8) by (bit_vector);
        assert(0x05u8 & 0x2Du8 == 0x05u8) by (bit_vector);
    }
    Frame {
        frame_type: FrameType::Headers(flags),
        reserved: 0,
        stream_id: REQUEST_STREAM,
        payload: OpaquePayload(block),
    }
}

/// Turns the HPACK decoder's answer into the driver's: the header list, or
/// the error that fails the connection.
pub fn header_list(decoded: Result<HeaderList, hpack::decoder::DecoderError>) -> (r:
    Result<HeaderList, Error>)
    ensures
        match decoded {
            Ok(list) => r == Ok::<HeaderList, Error>(list),
            Err(_) => r == Err::<HeaderList, Error>(Error::HeaderBlock),
        },
{
    match decoded {
        Ok(list) => Ok(list),
        Err(_) => Err(Error::HeaderBlock),
    }
}

/// One client connection that makes one request on stream 1.
pub struct Connection {
    pub(crate) state: State,
    pub(crate) request: HeaderList,
    pub(crate) buffer: Accumulator,
    pub(crate) decoder: hpack::Decoder<'static>,
    pub(crate) headers: HeaderList,
    pub(crate) body: Vec<u8>,
}

impl View for Connection {
    type V = ConnectionView;

    open(crate) spec fn view(&self) -> ConnectionView {
        ConnectionView {
            state: self.state,
            request: self.request.deep_view(),
            buffer: self.buffer@,
            headers: self.headers.deep_view(),
            body: self.body@,
        }
    }
}

/// Whether `event` can take the connection from `pre` to `post` with
/// `action`: whether they are what [`step_spec`] gives for some answer of the
/// HPACK decoder.
pub open spec fn steps_to(
    pre: ConnectionView,
    event: EventView,
    post: ConnectionView,
    action: ActionView,
) -> bool {
    exists|decoded: Option<HeaderSeq>| #[trigger]
        step_spec(pre, event, decoded) == (post, action)
}

impl Connection {
    /// A connection that is to send the request with the given header list:
    /// the pseudo-headers and the other headers, as (name, value) pairs.
    pub fn new(request: HeaderList) -> (c: Connection)
        ensures
            c@ == (ConnectionView {
                state: State::Connected,
                request: request.deep_view(),
                buffer: Seq::empty(),
                headers: Seq::empty(),
                body: Seq::empty(),
            }),
    {
        let c = Connection {
            state: State::Connected,
            request,
            buffer: Accumulator::new(),
            decoder: new_decoder(),
            headers: Vec::new(),
            body: Vec::new(),
        };
        assert(c.headers.deep_view() =~= Seq::empty());
        c
    }

    /// The state of the connection.
    pub fn state(&self) -> (s: State)
        ensures
            s == self@.state,
    {
        self.state
    }

    /// The header list of the response, empty until it has come.
    pub fn headers(&self) -> (h: &HeaderList)
        ensures
            h.deep_view() == self@.headers,
    {
        &self.headers
    }

    /// The body of the response, empty until it has come.
    pub fn body(&self) -> (b: &Vec<u8>)
        ensures
            b@ == self@.body,
    {
        &self.body
    }

    /// The number of received bytes that no frame has taken up yet.
    pub fn buffered(&self) -> (n: usize)
        ensures
            n == self@.buffer.len(),
    {
        self.buffer.len()
    }

    fn fail(&mut self, e: Error) -> (action: Action)
        ensures
            (final(self)@, action@) == fail_spec(old(self)@, e),
    {
        self.state = State::Failed(e);
        Action::Fail(e)
    }

    fn send_request(&mut self) -> (action: Action)
        ensures
            (final(self)@, action@) == send_request_spec(old(self)@),
    {
        let block = encode_block(&self.request);
        if block.len() > MAX_PAYLOAD_LEN as usize {
            self.fail(Error::EncodingOverflow)
        } else {
            self.state = State::RequestSent;
            Action::SendFrame(request_frame(block))
        }
    }

    fn take_headers(&mut self, block: &[u8]) -> (r: (
        Action,
        Ghost<Option<HeaderSeq>>,
    ))
        ensures
            match header_list_spec(block@, r.1@) {
                Some(list) => final(self)@ == (ConnectionView {
                    state: State::ReadLoop(Pending::Delivery),
                    headers: list,
                    ..old(self)@
                }) && r.0@ == ActionView::Headers,
                None => (final(self)@, r.0@) == fail_spec(old(self)@, Error::HeaderBlock),
            },
    {
        if !block_is_safe(block) {
            return (self.fail(Error::HeaderBlock), Ghost(None));
        }
        let decoded = decode_block(&mut self.decoder, block);
        match header_list(decoded) {
            Ok(list) => {
                let ghost answer = Some(list.deep_view());
                self.headers = list;
                self.state = State::ReadLoop(Pending::Delivery);
                (Action::Headers, Ghost(answer))
            },
            Err(e) => (self.fail(e), Ghost(None)),
        }
    }

    fn handle(&mut self, frame: Frame) -> (r: Option<
        (Action, Ghost<Option<HeaderSeq>>),
    >)
        ensures
            match r {
                None => frame_spec(old(self)@, frame@, None) is None && final(self)@ == old(self)@,
                Some((action, answer)) => frame_spec(old(self)@, frame@, answer@) == Some(
                    (final(self)@, action@),
                ),
            },
    {
        match dispatch(&frame.frame_type) {
            Dispatch::Ignore => None,
            Dispatch::AckSettings => {
                self.state = State::ReadLoop(Pending::AckWrite);
                Some((Action::SendFrame(settings_frame(true)), Ghost(None)))
            },
            Dispatch::Headers => Some(self.take_headers(frame.payload.as_slice())),
            Dispatch::Body => {
                self.body = frame.payload.0;
                self.state = State::Done;
                Some((Action::Done, Ghost(None)))
            },
            Dispatch::Reject(what) => Some((self.fail(Error::Unsupported(what)), Ghost(None))),
        }
    }

    fn take_frame(&mut self) -> (r: Option<(Action, Ghost<Option<HeaderSeq>>)>)
        ensures
            match r {
                None => {
                    &&& final(self)@ == (ConnectionView {
                        buffer: final(self)@.buffer,
                        ..old(self)@
                    })
                    &&& final(self)@.buffer.len() < old(self)@.buffer.len()
                    &&& skip_ignored(final(self)@.buffer) == skip_ignored(old(self)@.buffer)
                },
                Some((action, answer)) => (final(self)@, action@) == read_spec(
                    old(self)@,
                    answer@,
                ),
            },
    {
        match self.buffer.next_frame() {
            Err(ParseError::Incomplete) => {
                self.state = State::ReadLoop(Pending::Read);
                Some((Action::Receive, Ghost(None)))
            },
            Err(ParseError::Malformed(unknown)) => {
                let action = self.fail(Error::UnknownFrameType(unknown.0));
                Some((action, Ghost(None)))
            },
            Ok(frame) => self.handle(frame),
        }
    }

    fn read(&mut self) -> (r: (Action, Ghost<Option<HeaderSeq>>))
        ensures
            (final(self)@, r.0@) == read_spec(old(self)@, r.1@),
    {
        let ghost pre = self@;
        loop
            invariant
                pre == old(self)@,
                self@ == (ConnectionView { buffer: self@.buffer, ..pre }),
                skip_ignored(self@.buffer) == skip_ignored(pre.buffer),
            decreases self@.buffer.len(),
        {
            let ghost before = self@;
            match self.take_frame() {
                Some((action, answer)) => {
                    proof {
                        lemma_read_from_first_kept(pre, before, answer@);
                    }
                    return (action, answer);
                },
                None => {},
            }
        }
    }

    /// Takes the event that the transport produced and decides what is to be
    /// done next.
    ///
    /// The connection moves as [`step_spec`] says. The one thing that the
    /// driver does not decide is what the HPACK decoder makes of a header
    /// block: the step is the one for the answer that the decoder gave.
    pub fn step(&mut self, event: Event) -> (action: Action)
        ensures
            steps_to(old(self)@, event@, final(self)@, action@),
            answers(final(self)@.state, action@),
            action matches Action::SendFrame(frame) ==> frame@.valid(),
    {
        let ghost pre = self@;
        let ghost ev = event@;
        let out_of_turn = Error::Transport(TransportFailure::OutOfTurn);
        let (action, answer): (Action, Ghost<Option<HeaderSeq>>) = match self.state {
            State::Done => (Action::Done, Ghost(None)),
            State::Failed(e) => (Action::Fail(e), Ghost(None)),
            State::Connected => match event {
                Event::Start => {
                    self.state = State::PrefaceSent;
                    (Action::SendPreface, Ghost(None))
                },
                _ => (self.fail(out_of_turn), Ghost(None)),
            },
            State::PrefaceSent => match event {
                Event::Written => {
                    self.state = State::SettingsSent;
                    (Action::SendFrame(settings_frame(false)), Ghost(None))
                },
                Event::Failed => (
                    self.fail(Error::Transport(TransportFailure::Write)),
                    Ghost(None),
                ),
                _ => (self.fail(out_of_turn), Ghost(None)),
            },
            State::SettingsSent => match event {
                Event::Written => (self.send_request(), Ghost(None)),
                Event::Failed => (
                    self.fail(Error::Transport(TransportFailure::Write)),
                    Ghost(None),
                ),
                _ => (self.fail(out_of_turn), Ghost(None)),
            },
            State::RequestSent => match event {
                Event::Written => {
                    self.state = State::ReadLoop(Pending::Read);
                    (Action::Receive, Ghost(None))
                },
                Event::Failed => (
                    self.fail(Error::Transport(TransportFailure::Write)),
                    Ghost(None),
                ),
                _ => (self.fail(out_of_turn), Ghost(None)),
            },
            State::ReadLoop(Pending::Read) => match event {
                Event::Received(chunk) => {
                    if chunk.len() == 0 {
                        (self.fail(Error::Transport(TransportFailure::UnexpectedEof)), Ghost(None))
                    } else {
                        self.buffer.extend(chunk.as_slice());
                        self.read()
                    }
                },
                Event::Failed => (self.fail(Error::Transport(TransportFailure::Read)), Ghost(None)),
                _ => (self.fail(out_of_turn), Ghost(None)),
            },
            State::ReadLoop(Pending::AckWrite) => match event {
                Event::Written => self.read(),
                Event::Failed => (
                    self.fail(Error::Transport(TransportFailure::Write)),
                    Ghost(None),
                ),
                _ => (self.fail(out_of_turn), Ghost(None)),
            },
            State::ReadLoop(Pending::Delivery) => match event {
                Event::Resumed => self.read(),
                _ => (self.fail(out_of_turn), Ghost(None)),
            },
        };
        proof {
            assert(step_spec(pre, ev, answer@) == (self@, action@));
            lemma_step_outcome(pre, ev, answer@);
        }
        action
    }
}


/// The place of a state in the order in which a connection passes them.
pub open spec fn rank(state: State) -> nat {
    match state {
        State::Connected => 0,
        State::PrefaceSent => 1,
        State::SettingsSent => 2,
        State::RequestSent => 3,
        State::ReadLoop(_) => 4,
        State::Done => 5,
        State::Failed(_) => 5,
    }
}

/// Whether an action belongs to a state: every action but a failure comes
/// with the one state in which the driver waits for its answer, and a failure
/// comes with the failed state that carries the same error.
pub open spec fn answers(state: State, action: ActionView) -> bool {
    match action {
        ActionView::SendPreface => state == State::PrefaceSent,
        ActionView::SendFrame(frame) => {
            &&& frame.valid()
            &&& {
                ||| state == State::SettingsSent && frame == settings_frame_spec(false)
                ||| state == State::RequestSent && frame.frame_type is Headers && frame.stream_id
                    == REQUEST_STREAM
                ||| state == State::ReadLoop(Pending::AckWrite) && frame == settings_frame_spec(
                    true,
                )
            }
        },
        ActionView::Receive => state == State::ReadLoop(Pending::Read),
        ActionView::Headers => state == State::ReadLoop(Pending::Delivery),
        ActionView::Done => state == State::Done,
        ActionView::Fail(e) => state == State::Failed(e),
    }
}

/// The two SETTINGS frames and the request frame are valid frames.
pub proof fn lemma_sent_frames_valid(block: Seq<u8>)
    ensures
        settings_frame_spec(false).valid(),
        settings_frame_spec(true).valid(),
        settings_frame_spec(false).frame_type.flag_bits() == 0,
        settings_frame_spec(true).frame_type.flag_bits() == 1,
        block.len() <= MAX_PAYLOAD_LEN ==> request_frame_spec(block).valid(),
        request_frame_spec(block).frame_type.flag_bits() == 0x05,
{
    BitFlags::<SettingsFlags>::lemma_truncated(0u8);
    BitFlags::<SettingsFlags>::lemma_truncated(1u8);
    BitFlags::<HeadersFlags>::lemma_truncated(0x05u8);
    assert(0u8 & 1u8 == 0u8) by (bit_vector);
    assert(1u8 & 1u8 == 1u8) by (bit_vector);
    assert(0x05u8 & 0x2Du8 == 0x05u8) by (bit_vector);
}

/// A frame that asks for an action leaves the connection in the state that
/// the action belongs to, and changes of the response only what the action
/// names.
pub proof fn lemma_frame_outcome(
    c: ConnectionView,
    frame: FrameView,
    decoded: Option<HeaderSeq>,
)
    ensures
        frame_spec(c, frame, decoded) matches Some((post, action)) ==> {
            &&& answers(post.state, action)
            &&& rank(post.state) >= 4
            &&& !(action is SendPreface) && !(action is Receive)
            &&& post.request == c.request
            &&& post.buffer == c.buffer
            &&& !(action is Headers) ==> post.headers == c.headers
            &&& !(action is Done) ==> post.body == c.body
        },
{
    lemma_sent_frames_valid(Seq::empty());
}

/// A turn of the read loop ends in a state of the read loop or in a final
/// state, with the action that belongs to it. It changes neither the request
/// nor, unless it says so, the response; and what it leaves in the buffer is
/// the end of what was there.
pub proof fn lemma_read_outcome(c: ConnectionView, decoded: Option<HeaderSeq>)
    ensures
        ({
            let (post, action) = read_spec(c, decoded);
            &&& answers(post.state, action)
            &&& rank(post.state) >= 4
            &&& !(action is SendPreface)
            &&& post.request == c.request
            &&& post.buffer.len() <= c.buffer.len()
            &&& post.buffer == c.buffer.skip(c.buffer.len() - post.buffer.len())
            &&& !(action is Headers) ==> post.headers == c.headers
            &&& !(action is Done) ==> post.body == c.body
        }),
    decreases c.buffer.len(),
{
    match parse_spec(c.buffer) {
        Parsed::Complete { frame, consumed } => {
            lemma_complete_shape(c.buffer);
            let rest = ConnectionView { buffer: c.buffer.skip(consumed as int), ..c };
            lemma_frame_outcome(rest, frame, decoded);
            if frame_spec(rest, frame, decoded) is None {
                lemma_read_outcome(rest, decoded);
                let post = read_spec(rest, decoded).0;
                assert(read_spec(c, decoded) == read_spec(rest, decoded));
                assert(rest.buffer.skip(rest.buffer.len() - post.buffer.len()) =~= c.buffer.skip(
                    c.buffer.len() - post.buffer.len(),
                ));
            } else {
                assert(read_spec(c, decoded) == frame_spec(rest, frame, decoded)->0);
                assert(rest.buffer =~= c.buffer.skip(c.buffer.len() - rest.buffer.len()));
            }
        },
        _ => {
            assert(c.buffer =~= c.buffer.skip(0));
        },
    }
}

/// Every step ends in the state that its action belongs to: a failure is
/// reported exactly when the connection has failed, and with its error; the
/// end is reported exactly when the response is complete. The states are
/// passed in their order, and the request is never changed.
pub proof fn lemma_step_outcome(
    c: ConnectionView,
    event: EventView,
    decoded: Option<HeaderSeq>,
)
    ensures
        ({
            let (post, action) = step_spec(c, event, decoded);
            &&& answers(post.state, action)
            &&& rank(post.state) >= rank(c.state)
            &&& post.request == c.request
            &&& (post.state is Failed <==> action is Fail)
            &&& (post.state is Done <==> action is Done)
        }),
{
    lemma_sent_frames_valid(hpack_encoded(c.request));
    match c.state {
        State::ReadLoop(Pending::Read) => match event {
            EventView::Received(chunk) => {
                lemma_read_outcome(ConnectionView { buffer: c.buffer + chunk, ..c }, decoded);
            },
            _ => {},
        },
        State::ReadLoop(_) => {
            lemma_read_outcome(c, decoded);
        },
        _ => {},
    }
}

/// How the bytes are cut into chunks does not matter: if the read loop asks
/// for more bytes, then what it does once they have come is what it would
/// have done had they been there from the start.
pub proof fn lemma_chunks_do_not_matter(
    c: ConnectionView,
    more: Seq<u8>,
    decoded: Option<HeaderSeq>,
)
    requires
        read_spec(c, decoded).1 is Receive,
    ensures
        ({
            let waiting = read_spec(c, decoded).0;
            read_spec(ConnectionView { buffer: waiting.buffer + more, ..waiting }, decoded)
                == read_spec(ConnectionView { buffer: c.buffer + more, ..c }, decoded)
        }),
    decreases c.buffer.len(),
{
    let waiting = read_spec(c, decoded).0;
    let late = ConnectionView { buffer: waiting.buffer + more, ..waiting };
    let early = ConnectionView { buffer: c.buffer + more, ..c };
    match parse_spec(c.buffer) {
        Parsed::Incomplete => {
            lemma_read_ignores_state(late, early, decoded);
        },
        Parsed::Malformed(_) => {},
        Parsed::Complete { frame, consumed } => {
            let rest = ConnectionView { buffer: c.buffer.skip(consumed as int), ..c };
            lemma_complete_is_stable(c.buffer, more);
            lemma_complete_shape(c.buffer);
            assert((c.buffer + more).skip(consumed as int) =~= rest.buffer + more);
            if frame_spec(rest, frame, decoded) is None {
                lemma_chunks_do_not_matter(rest, more, decoded);
                let early_rest = ConnectionView { buffer: rest.buffer + more, ..rest };
                assert(frame_spec(early_rest, frame, decoded) is None);
            } else {
                lemma_sent_frames_valid(Seq::empty());
            }
        },
    }
}

/// A turn of the read loop does not look at the state it starts from.
pub proof fn lemma_read_ignores_state(
    a: ConnectionView,
    b: ConnectionView,
    decoded: Option<HeaderSeq>,
)
    requires
        a == (ConnectionView { state: a.state, ..b }),
    ensures
        read_spec(a, decoded) == read_spec(b, decoded),
    decreases a.buffer.len(),
{
    match parse_spec(a.buffer) {
        Parsed::Complete { frame, consumed } => {
            let rest_a = ConnectionView { buffer: a.buffer.skip(consumed as int), ..a };
            let rest_b = ConnectionView { buffer: b.buffer.skip(consumed as int), ..b };
            if frame_spec(rest_a, frame, decoded) is None {
                assert(frame_spec(rest_b, frame, decoded) is None);
                lemma_read_ignores_state(rest_a, rest_b, decoded);
            }
        },
        _ => {},
    }
}

/// `Done` and `Failed` are final: no event changes the connection, and the
/// answer is always the same.
pub proof fn lemma_final_states(
    c: ConnectionView,
    event: EventView,
    decoded: Option<HeaderSeq>,
)
    requires
        c.state is Done || c.state is Failed,
    ensures
        step_spec(c, event, decoded).0 == c,
        c.state is Done ==> step_spec(c, event, decoded).1 == ActionView::Done,
        c.state matches State::Failed(e) ==> step_spec(c, event, decoded).1 == ActionView::Fail(e),
{
}

/// A turn of the read loop depends on the first frame that is not ignored.
/// If that frame is rejected, the connection fails as unsupported, whatever
/// the HPACK decoder would make of any payload: a HEADERS frame without
/// `EndHeaders` is never waited on.
pub proof fn lemma_rejected_frame_fails(
    c: ConnectionView,
    decoded: Option<HeaderSeq>,
)
    requires
        parse_spec(skip_ignored(c.buffer)) matches Parsed::Complete { frame, .. }
            && dispatch_spec(frame.frame_type) is Reject,
    ensures
        ({
            let (post, action) = read_spec(c, decoded);
            &&& post.state matches State::Failed(e) && e.kind_spec()
                == ErrorKind::UnsupportedSemantics && action == ActionView::Fail(e)
            &&& parse_spec(skip_ignored(c.buffer)) matches Parsed::Complete { frame, .. }
                && post.state == State::Failed(
                Error::Unsupported(dispatch_spec(frame.frame_type)->Reject_0),
            )
        }),
{
    lemma_read_skips_ignored(c, decoded);
}

/// A HEADERS frame without `EndHeaders` is rejected, whatever its other
/// flags are.
pub proof fn lemma_headers_need_end_headers(flags: BitFlags<HeadersFlags>)
    requires
        !flags.contains_spec(HeadersFlags::EndHeaders),
    ensures
        dispatch_spec(FrameType::Headers(flags)) is Reject,
{
}

/// When bytes arrive whose first frame that is not ignored is a HEADERS
/// frame without `EndHeaders`, the connection fails as unsupported.
pub proof fn lemma_unfinished_headers_fail(
    c: ConnectionView,
    chunk: Seq<u8>,
    decoded: Option<HeaderSeq>,
)
    requires
        c.state == State::ReadLoop(Pending::Read),
        chunk.len() > 0,
        parse_spec(skip_ignored(c.buffer + chunk)) matches Parsed::Complete { frame, .. }
            && frame.frame_type matches FrameType::Headers(flags) && !flags.contains_spec(
            HeadersFlags::EndHeaders,
        ),
    ensures
        ({
            let (post, action) = step_spec(c, EventView::Received(chunk), decoded);
            post.state matches State::Failed(e) && e.kind_spec() == ErrorKind::UnsupportedSemantics
                && action == ActionView::Fail(e)
        }),
{
    lemma_rejected_frame_fails(ConnectionView { buffer: c.buffer + chunk, ..c }, decoded);
}

} // verus!
