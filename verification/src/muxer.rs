//! The stream multiplexer: many logical streams over one secure session.
//!
//! The multiplexer moves no bytes itself. Each operation of the application
//! surface returns the frame to put on the wire, and [`Muxer::on_record`]
//! takes one record read from the wire and says what became of it. The
//! multiplexer's state is a table of streams, each with the payloads that
//! wait for its owner, and a queue of streams opened by the peer that wait
//! to be accepted.

pub mod laws;
pub mod model;

use crate::buffer::bytes_view;
use crate::error::StackError;
use crate::frame::{Frame, FrameDecodeError, FrameType};
use crate::muxer::model::{
    first_free, reset_frame, DispatchView, InboxView, MuxerView, StreamState, StreamView,
    ACCEPT_CAPACITY, ID_LIMIT, INBOX_CAPACITY, MAX_PAYLOAD,
};
use crate::text::text_of;
use bytes::Bytes;
use std::collections::{HashMap, VecDeque};
use vstd::prelude::*;
use vstd::slice::slice_to_vec;

verus! {

broadcast use vstd::std_specs::hash::group_hash_axioms;

/// The payloads held in a queue of buffers, oldest first.
pub open spec fn payloads(queue: Seq<Bytes>) -> Seq<Seq<u8>> {
    Seq::new(queue.len(), |i: int| bytes_view(queue[i]))
}

struct Stream {
    state: StreamState,
    local: bool,
    protocol: String,
    inbox: VecDeque<Bytes>,
}

impl View for Stream {
    type V = StreamView;

    closed spec fn view(&self) -> StreamView {
        StreamView {
            state: self.state,
            local: self.local,
            protocol: self.protocol@,
            inbox: payloads(self.inbox@),
        }
    }
}

/// What a read of a stream's inbox gives.
#[derive(Debug, Clone)]
pub enum Inbox {
    /// The oldest payload that waited.
    Data(Bytes),
    /// Nothing waits; more may come.
    Empty,
    /// Nothing waits and nothing more will come.
    EndOfStream,
    /// Nothing waits, and the stream was torn down.
    Reset,
}

impl View for Inbox {
    type V = InboxView;

    open spec fn view(&self) -> InboxView {
        match self {
            Inbox::Data(b) => InboxView::Data(bytes_view(*b)),
            Inbox::Empty => InboxView::Empty,
            Inbox::EndOfStream => InboxView::EndOfStream,
            Inbox::Reset => InboxView::Reset,
        }
    }
}

/// What became of one record from the peer.
#[derive(Debug, Clone)]
pub enum Dispatch {
    /// The peer opened a stream; it waits to be accepted.
    Incoming { stream_id: u32 },
    /// A payload was added to the stream's inbox.
    Delivered { stream_id: u32 },
    /// The frame named a stream that takes none of its kind; it was dropped.
    Discarded { stream_id: u32 },
    /// The peer closed its sending direction.
    Closed { stream_id: u32 },
    /// The peer tore the stream down.
    Reset { stream_id: u32 },
    /// The peer opened an id that is already known: a protocol violation.
    /// The stream is torn down; `reply` is the RESET frame to send.
    Violation { stream_id: u32, reply: Bytes },
    /// The peer opened a stream whose protocol is not UTF-8. The stream is
    /// refused; `reply` is the RESET frame to send.
    Rejected { stream_id: u32, reply: Bytes },
    /// The queue that the frame is for is full. Nothing was changed: hand
    /// the same record in again once the queue has been read.
    Backpressure { stream_id: u32 },
    /// The record is not a frame. The session has ended.
    Fatal { error: FrameDecodeError },
    /// The session had ended before; the record was not looked at.
    Terminated,
}

impl View for Dispatch {
    type V = DispatchView;

    open spec fn view(&self) -> DispatchView {
        match self {
            Dispatch::Incoming { stream_id } => DispatchView::Incoming { stream_id: *stream_id },
            Dispatch::Delivered { stream_id } => DispatchView::Delivered { stream_id: *stream_id },
            Dispatch::Discarded { stream_id } => DispatchView::Discarded { stream_id: *stream_id },
            Dispatch::Closed { stream_id } => DispatchView::Closed { stream_id: *stream_id },
            Dispatch::Reset { stream_id } => DispatchView::Reset { stream_id: *stream_id },
            Dispatch::Violation { stream_id, reply } => DispatchView::Violation {
                stream_id: *stream_id,
                reply: bytes_view(*reply),
            },
            Dispatch::Rejected { stream_id, reply } => DispatchView::Rejected {
                stream_id: *stream_id,
                reply: bytes_view(*reply),
            },
            Dispatch::Backpressure { stream_id } => DispatchView::Backpressure {
                stream_id: *stream_id,
            },
            Dispatch::Fatal { error } => DispatchView::Fatal { error: *error },
            Dispatch::Terminated => DispatchView::Terminated,
        }
    }
}

impl Dispatch {
    /// The failure that the outcome stands for, if it stands for one: a
    /// record that is no frame is a decode failure, an OPEN that breaks the
    /// rules a protocol violation, and a record after the end finds the
    /// session terminated.
    pub open spec fn spec_error(self) -> Option<StackError> {
        match self {
            Dispatch::Fatal { error } => Some(StackError::FrameDecode(error)),
            Dispatch::Violation { .. } => Some(StackError::ProtocolViolation),
            Dispatch::Rejected { .. } => Some(StackError::ProtocolViolation),
            Dispatch::Terminated => Some(StackError::SessionTerminated),
            _ => None,
        }
    }

    /// The failure that the outcome stands for, if it stands for one.
    pub fn error(&self) -> (e: Option<StackError>)
        ensures
            e == self.spec_error(),
    {
        match self {
            Dispatch::Fatal { error } => Some(StackError::FrameDecode(*error)),
            Dispatch::Violation { .. } => Some(StackError::ProtocolViolation),
            Dispatch::Rejected { .. } => Some(StackError::ProtocolViolation),
            Dispatch::Terminated => Some(StackError::SessionTerminated),
            _ => None,
        }
    }
}

/// The outcome of an operation that gives a frame, with the frame as the
/// octets it holds.
pub open spec fn wire_of(r: Result<Bytes, StackError>) -> Result<Seq<u8>, StackError> {
    match r {
        Ok(wire) => Ok(bytes_view(wire)),
        Err(e) => Err(e),
    }
}

/// The outcome of `open_stream`, with the frame as the octets it holds.
pub open spec fn opened_of(r: Result<(u32, Bytes), StackError>) -> Result<(u32, Seq<u8>), StackError> {
    match r {
        Ok((id, wire)) => Ok((id, bytes_view(wire))),
        Err(e) => Err(e),
    }
}

/// The outcome of `accept_stream`, with the protocol as its characters.
pub open spec fn accepted_of(r: Result<Option<(u32, String)>, StackError>) -> Result<
    Option<(u32, Seq<char>)>,
    StackError,
> {
    match r {
        Ok(Some((id, protocol))) => Ok(Some((id, protocol@))),
        Ok(None) => Ok(None),
        Err(e) => Err(e),
    }
}

/// The outcome of `read_inbox`, with the payload as the octets it holds.
pub open spec fn read_of(r: Result<Inbox, StackError>) -> Result<InboxView, StackError> {
    match r {
        Ok(inbox) => Ok(inbox@),
        Err(e) => Err(e),
    }
}

/// The multiplexer of one connection.
pub struct Muxer {
    initiator: bool,
    next_stream_id: u64,
    streams: HashMap<u32, Stream>,
    incoming: VecDeque<u32>,
    terminated: bool,
}

impl View for Muxer {
    type V = MuxerView;

    closed spec fn view(&self) -> MuxerView {
        MuxerView {
            initiator: self.initiator,
            next_id: self.next_stream_id as int,
            terminated: self.terminated,
            streams: Map::new(
                |id: u32| self.streams@.contains_key(id),
                |id: u32| self.streams@[id]@,
            ),
            incoming: self.incoming@,
        }
    }
}

impl Muxer {
    /// A multiplexer for a fresh connection. The side that dialled is the
    /// initiator and allots odd stream ids from 1; the other side allots
    /// even ones from 2.
    pub fn new(initiator: bool) -> (m: Muxer)
        ensures
            m@ == MuxerView::fresh(initiator),
            m@.wf(),
    {
        let m = Muxer {
            initiator,
            next_stream_id: if initiator { 1 } else { 2 },
            streams: HashMap::new(),
            incoming: VecDeque::new(),
            terminated: false,
        };
        assert(m@.streams =~= Map::<u32, StreamView>::empty());
        m
    }

    /// Whether this side dialled.
    pub fn is_initiator(&self) -> (b: bool)
        ensures
            b == self@.initiator,
    {
        self.initiator
    }

    /// Whether the session has ended.
    pub fn is_terminated(&self) -> (b: bool)
        ensures
            b == self@.terminated,
    {
        self.terminated
    }

    /// The state of stream `id`; `None` for an id that was never seen.
    pub fn stream_state(&self, id: u32) -> (state: Option<StreamState>)
        ensures
            match state {
                Some(s) => self@.streams.contains_key(id) && self@.streams[id].state == s,
                None => !self@.streams.contains_key(id),
            },
    {
        match self.streams.get(&id) {
            Some(s) => Some(s.state),
            None => None,
        }
    }

    /// The number of payloads that wait on stream `id`; zero for an id that
    /// was never seen.
    pub fn inbox_len(&self, id: u32) -> (n: usize)
        ensures
            n == if self@.streams.contains_key(id) {
                self@.streams[id].inbox.len()
            } else {
                0
            },
    {
        match self.streams.get(&id) {
            Some(s) => s.inbox.len(),
            None => 0,
        }
    }

    /// The number of streams that wait to be accepted.
    pub fn incoming_len(&self) -> (n: usize)
        ensures
            n == self@.incoming.len(),
    {
        self.incoming.len()
    }

    fn shut_down(&mut self)
        ensures
            final(self)@ == old(self)@.shut(),
    {
        self.terminated = true;
        self.streams.clear();
        self.incoming.clear();
        assert(self@.streams =~= Map::<u32, StreamView>::empty());
    }

    fn put(&mut self, id: u32, stream: Stream)
        ensures
            final(self)@ == (MuxerView {
                streams: old(self)@.streams.insert(id, stream@),
                ..old(self)@
            }),
    {
        self.streams.insert(id, stream);
        assert(self@.streams =~= old(self)@.streams.insert(id, stream@));
    }

    fn take(&mut self, id: u32) -> (stream: Stream)
        requires
            old(self)@.streams.contains_key(id),
        ensures
            stream@ == old(self)@.streams[id],
            final(self)@ == (MuxerView {
                streams: old(self)@.streams.remove(id),
                ..old(self)@
            }),
    {
        let found = self.streams.remove(&id);
        assert(self@.streams =~= old(self)@.streams.remove(id));
        match found {
            Some(stream) => stream,
            None => {
                proof {
                    assert(false);
                }
                Stream {
                    state: StreamState::Reset,
                    local: false,
                    protocol: String::new(),
                    inbox: VecDeque::new(),
                }
            },
        }
    }

    /// Ends the session: every stream and the accept queue are dropped, and
    /// every later call finds the session terminated.
    pub fn terminate(&mut self)
        requires
            old(self)@.wf(),
        ensures
            final(self)@ == old(self)@.shut(),
            final(self)@.wf(),
    {
        self.shut_down();
    }
}

spec fn taken(used: Set<u32>, j: int) -> bool {
    0 <= j < ID_LIMIT && used.contains(j as u32)
}

/// No id from `from` up to `upto`, in steps of two, is free: the first free
/// one is where the search from `upto` finds it.
proof fn lemma_first_free_skips(used: Set<u32>, from: int, upto: int)
    requires
        0 <= from <= upto,
        (upto - from) % 2 == 0,
        forall|j: int| from <= j < upto && (j - from) % 2 == 0 ==> #[trigger] taken(used, j),
    ensures
        first_free(used, from) == first_free(used, upto),
    decreases upto - from,
{
    if from < upto {
        assert(taken(used, from));
        lemma_first_free_skips(used, from + 2, upto);
    }
}

impl Muxer {
    fn first_free_id(&self) -> (id: u64)
        requires
            self@.wf(),
        ensures
            id == first_free(self@.streams.dom(), self@.next_id),
            self@.next_id <= id <= ID_LIMIT + 1,
            id % 2 == self@.parity(),
            id < ID_LIMIT ==> !self@.streams.contains_key(id as u32),
    {
        let ghost used = self@.streams.dom();
        let ghost start = self.next_stream_id as int;
        let mut id: u64 = self.next_stream_id;
        while id < ID_LIMIT && self.streams.contains_key(&(id as u32))
            invariant
                1 <= start <= id <= ID_LIMIT + 1,
                (id - start) % 2 == 0,
                used == self@.streams.dom(),
                forall|j: int|
                    start <= j < id && (j - start) % 2 == 0 ==> #[trigger] taken(used, j),
            decreases ID_LIMIT + 2 - id,
        {
            assert(taken(used, id as int));
            id = id + 2;
        }
        proof {
            lemma_first_free_skips(used, start, id as int);
        }
        id
    }

    /// Opens a stream for `protocol`: allots the first free id of this
    /// side's parity, enters the stream as `Opening`, and gives the id and
    /// the OPEN frame to send. Call [`Muxer::confirm_open`] once the frame
    /// is on the wire.
    ///
    /// Fails with `SessionTerminated` once the session has ended, with
    /// `PayloadTooLarge` (nothing changed) for a protocol name that no frame
    /// can carry, and with `SessionTerminated`, ending the session, when no
    /// id is left.
    pub fn open_stream(&mut self, protocol: &str) -> (r: Result<(u32, Bytes), StackError>)
        requires
            old(self)@.wf(),
        ensures
            final(self)@.wf(),
            final(self)@ == old(self)@.open(protocol@).0,
            opened_of(r) == old(self)@.open(protocol@).1,
            r matches Ok((id, _)) ==> {
                &&& id % 2 == old(self)@.parity()
                &&& !old(self)@.streams.contains_key(id)
                &&& final(self)@.in_state(id, StreamState::Opening)
                &&& final(self)@.streams[id].local
            },
    {
        if self.terminated {
            return Err(StackError::SessionTerminated);
        }
        let name = protocol.as_bytes();
        if name.len() > MAX_PAYLOAD {
            return Err(StackError::PayloadTooLarge);
        }
        let id = self.first_free_id();
        if id >= ID_LIMIT {
            self.shut_down();
            return Err(StackError::SessionTerminated);
        }
        let stream_id = id as u32;
        let frame = Frame { t: FrameType::Open, stream_id, payload: Bytes::copy_from_slice(name) };
        let wire = frame.encode();
        let stream = Stream {
            state: StreamState::Opening,
            local: true,
            protocol: protocol.to_owned(),
            inbox: VecDeque::new(),
        };
        assert(stream@.inbox =~= Seq::<Seq<u8>>::empty());
        self.put(stream_id, stream);
        self.next_stream_id = id + 2;
        Ok((stream_id, wire))
    }

    /// Records that the OPEN frame of stream `id` is on the wire: the stream
    /// becomes `Open`. Fails with `SessionTerminated` once the session has
    /// ended, and with `InvalidState` unless the stream is `Opening`.
    pub fn confirm_open(&mut self, id: u32) -> (r: Result<(), StackError>)
        requires
            old(self)@.wf(),
        ensures
            final(self)@.wf(),
            final(self)@ == old(self)@.confirm(id).0,
            r == old(self)@.confirm(id).1,
    {
        if self.terminated {
            return Err(StackError::SessionTerminated);
        }
        match self.stream_state(id) {
            Some(StreamState::Opening) => {
                let mut stream = self.take(id);
                stream.state = StreamState::Open;
                self.put(id, stream);
                assert(self@.streams =~= old(self)@.confirm(id).0.streams);
                Ok(())
            },
            _ => Err(StackError::InvalidState),
        }
    }

    /// Gives the DATA frame that carries `data` on stream `id`. Nothing is
    /// changed. Fails, in this order, with `SessionTerminated` once the
    /// session has ended, with `InvalidState` unless the stream is `Open`,
    /// and with `PayloadTooLarge` for more than `MAX_PAYLOAD` octets.
    pub fn send_data(&self, stream_id: u32, data: &[u8]) -> (r: Result<Bytes, StackError>)
        ensures
            wire_of(r) == self@.send(stream_id, data@),
    {
        if self.terminated {
            return Err(StackError::SessionTerminated);
        }
        match self.stream_state(stream_id) {
            Some(StreamState::Open) => {},
            _ => {
                return Err(StackError::InvalidState);
            },
        }
        if data.len() > MAX_PAYLOAD {
            return Err(StackError::PayloadTooLarge);
        }
        let frame = Frame { t: FrameType::Data, stream_id, payload: Bytes::copy_from_slice(data) };
        Ok(frame.encode())
    }

    /// Closes stream `id` from this side: it becomes `Closed`, what waited in
    /// its inbox is dropped, and the CLOSE frame to send is given. Fails with
    /// `SessionTerminated` once the session has ended, and with
    /// `InvalidState`, nothing changed and no frame given, unless the stream
    /// is `Opening`, `Open` or `HalfClosedRemote`.
    pub fn close_stream(&mut self, stream_id: u32) -> (r: Result<Bytes, StackError>)
        requires
            old(self)@.wf(),
        ensures
            final(self)@.wf(),
            final(self)@ == old(self)@.close(stream_id).0,
            wire_of(r) == old(self)@.close(stream_id).1,
    {
        if self.terminated {
            return Err(StackError::SessionTerminated);
        }
        let closable = match self.stream_state(stream_id) {
            Some(state) => state.can_close(),
            None => false,
        };
        if !closable {
            return Err(StackError::InvalidState);
        }
        let mut stream = self.take(stream_id);
        stream.state = StreamState::Closed;
        stream.inbox.clear();
        assert(stream@.inbox =~= Seq::<Seq<u8>>::empty());
        self.put(stream_id, stream);
        assert(self@.streams =~= old(self)@.close(stream_id).0.streams);
        let frame = Frame { t: FrameType::Close, stream_id, payload: Bytes::new() };
        Ok(frame.encode())
    }

    /// Tears stream `id` down from this side: it becomes `Reset`, what waited
    /// in its inbox is dropped, and the RESET frame to send is given. Fails
    /// with `SessionTerminated` once the session has ended, and with
    /// `InvalidState`, nothing changed, unless the stream is in the table
    /// and neither `Closed` nor `Reset`.
    pub fn reset_stream(&mut self, stream_id: u32) -> (r: Result<Bytes, StackError>)
        requires
            old(self)@.wf(),
        ensures
            final(self)@.wf(),
            final(self)@ == old(self)@.reset(stream_id).0,
            wire_of(r) == old(self)@.reset(stream_id).1,
    {
        if self.terminated {
            return Err(StackError::SessionTerminated);
        }
        let live = match self.stream_state(stream_id) {
            Some(state) => state.is_live(),
            None => false,
        };
        if !live {
            return Err(StackError::InvalidState);
        }
        let mut stream = self.take(stream_id);
        stream.state = StreamState::Reset;
        stream.inbox.clear();
        assert(stream@.inbox =~= Seq::<Seq<u8>>::empty());
        self.put(stream_id, stream);
        assert(self@.streams =~= old(self)@.reset(stream_id).0.streams);
        let frame = Frame { t: FrameType::Reset, stream_id, payload: Bytes::new() };
        Ok(frame.encode())
    }

    /// Hands out the oldest stream that the peer opened and that waits to be
    /// accepted, with the protocol that its OPEN frame named; `None` while
    /// none waits. Fails with `SessionTerminated` once the session has ended.
    pub fn accept_stream(&mut self) -> (r: Result<Option<(u32, String)>, StackError>)
        requires
            old(self)@.wf(),
        ensures
            final(self)@.wf(),
            final(self)@ == old(self)@.accept().0,
            accepted_of(r) == old(self)@.accept().1,
    {
        if self.terminated {
            return Err(StackError::SessionTerminated);
        }
        match self.incoming.pop_front() {
            None => Ok(None),
            Some(id) => {
                assert(old(self)@.incoming[0] == id);
                assert(old(self)@.streams.contains_key(id));
                match self.streams.get(&id) {
                    Some(stream) => Ok(Some((id, stream.protocol.clone()))),
                    None => {
                        proof {
                            assert(false);
                        }
                        Ok(None)
                    },
                }
            },
        }
    }

    /// Takes the oldest payload that waits on stream `id`. With none
    /// waiting it gives `Empty` while more may come, `Reset` after a
    /// teardown, and `EndOfStream` otherwise. Once the session has ended
    /// every read gives `EndOfStream`. Fails with `InvalidState` for an id
    /// that was never seen.
    pub fn read_inbox(&mut self, id: u32) -> (r: Result<Inbox, StackError>)
        requires
            old(self)@.wf(),
        ensures
            final(self)@.wf(),
            final(self)@ == old(self)@.read(id).0,
            read_of(r) == old(self)@.read(id).1,
    {
        if self.terminated {
            return Ok(Inbox::EndOfStream);
        }
        let state = match self.stream_state(id) {
            Some(state) => state,
            None => {
                return Err(StackError::InvalidState);
            },
        };
        if self.inbox_len(id) > 0 {
            let mut stream = self.take(id);
            let ghost before = stream.inbox@;
            let front = stream.inbox.pop_front();
            assert(payloads(stream.inbox@) =~= payloads(before).subrange(
                1,
                before.len() as int,
            ));
            self.put(id, stream);
            assert(self@.streams =~= old(self)@.read(id).0.streams);
            match front {
                Some(payload) => Ok(Inbox::Data(payload)),
                None => {
                    proof {
                        assert(false);
                    }
                    Ok(Inbox::Empty)
                },
            }
        } else if state.receives() {
            Ok(Inbox::Empty)
        } else {
            match state {
                StreamState::Reset => Ok(Inbox::Reset),
                _ => Ok(Inbox::EndOfStream),
            }
        }
    }
}

fn reset_wire(stream_id: u32) -> (wire: Bytes)
    ensures
        bytes_view(wire) == reset_frame(stream_id),
{
    let frame = Frame { t: FrameType::Reset, stream_id, payload: Bytes::new() };
    frame.encode()
}

impl Muxer {
    fn on_open(&mut self, id: u32, payload: &Bytes) -> (d: Dispatch)
        requires
            old(self)@.wf(),
            !old(self)@.terminated,
        ensures
            final(self)@.wf(),
            final(self)@ == old(self)@.on_open(id, bytes_view(*payload)).0,
            d@ == old(self)@.on_open(id, bytes_view(*payload)).1,
    {
        if self.stream_state(id).is_some() {
            let mut stream = self.take(id);
            stream.state = StreamState::Reset;
            stream.inbox.clear();
            assert(stream@.inbox =~= Seq::<Seq<u8>>::empty());
            self.put(id, stream);
            assert(self@.streams =~= old(self)@.torn_down(id, StreamState::Reset).streams);
            return Dispatch::Violation { stream_id: id, reply: reset_wire(id) };
        }
        match text_of(slice_to_vec(payload.as_ref())) {
            None => {
                let stream = Stream {
                    state: StreamState::Reset,
                    local: false,
                    protocol: String::new(),
                    inbox: VecDeque::new(),
                };
                assert(stream@.inbox =~= Seq::<Seq<u8>>::empty());
                self.put(id, stream);
                Dispatch::Rejected { stream_id: id, reply: reset_wire(id) }
            },
            Some(protocol) => {
                if self.incoming.len() >= ACCEPT_CAPACITY {
                    return Dispatch::Backpressure { stream_id: id };
                }
                let stream = Stream {
                    state: StreamState::Open,
                    local: false,
                    protocol,
                    inbox: VecDeque::new(),
                };
                assert(stream@.inbox =~= Seq::<Seq<u8>>::empty());
                self.put(id, stream);
                self.incoming.push_back(id);
                Dispatch::Incoming { stream_id: id }
            },
        }
    }

    fn on_data(&mut self, id: u32, payload: Bytes) -> (d: Dispatch)
        requires
            old(self)@.wf(),
            !old(self)@.terminated,
        ensures
            final(self)@.wf(),
            final(self)@ == old(self)@.on_data(id, bytes_view(payload)).0,
            d@ == old(self)@.on_data(id, bytes_view(payload)).1,
    {
        let state = match self.stream_state(id) {
            Some(state) => state,
            None => {
                return Dispatch::Discarded { stream_id: id };
            },
        };
        if !state.receives() {
            return Dispatch::Discarded { stream_id: id };
        }
        if self.inbox_len(id) >= INBOX_CAPACITY {
            return Dispatch::Backpressure { stream_id: id };
        }
        let mut stream = self.take(id);
        let ghost before = stream.inbox@;
        match state {
            StreamState::Opening => {
                stream.state = StreamState::Open;
            },
            _ => {},
        }
        stream.inbox.push_back(payload);
        assert(payloads(stream.inbox@) =~= payloads(before).push(bytes_view(payload)));
        self.put(id, stream);
        assert(self@.streams =~= old(self)@.on_data(id, bytes_view(payload)).0.streams);
        Dispatch::Delivered { stream_id: id }
    }

    fn on_close(&mut self, id: u32) -> (d: Dispatch)
        requires
            old(self)@.wf(),
            !old(self)@.terminated,
        ensures
            final(self)@.wf(),
            final(self)@ == old(self)@.on_close(id).0,
            d@ == old(self)@.on_close(id).1,
    {
        let state = match self.stream_state(id) {
            Some(state) => state,
            None => {
                return Dispatch::Discarded { stream_id: id };
            },
        };
        if !state.receives() {
            return Dispatch::Discarded { stream_id: id };
        }
        let mut stream = self.take(id);
        match state {
            StreamState::HalfClosedLocal => {
                stream.state = StreamState::Closed;
            },
            _ => {
                stream.state = StreamState::HalfClosedRemote;
            },
        }
        self.put(id, stream);
        assert(self@.streams =~= old(self)@.on_close(id).0.streams);
        Dispatch::Closed { stream_id: id }
    }

    fn on_reset(&mut self, id: u32) -> (d: Dispatch)
        requires
            old(self)@.wf(),
            !old(self)@.terminated,
        ensures
            final(self)@.wf(),
            final(self)@ == old(self)@.on_reset(id).0,
            d@ == old(self)@.on_reset(id).1,
    {
        let live = match self.stream_state(id) {
            Some(state) => state.is_live(),
            None => false,
        };
        if !live {
            return Dispatch::Discarded { stream_id: id };
        }
        let mut stream = self.take(id);
        stream.state = StreamState::Reset;
        self.put(id, stream);
        assert(self@.streams =~= old(self)@.on_reset(id).0.streams);
        Dispatch::Reset { stream_id: id }
    }

    /// Takes one record that the secure session received, and routes the
    /// frame in it.
    ///
    /// * OPEN on an id not seen before enters the stream as `Open` and queues
    ///   it for [`Muxer::accept_stream`]. On a known id it is a protocol
    ///   violation: the stream is torn down and the RESET frame to send is
    ///   given. With a protocol that is not UTF-8 the stream is refused in
    ///   the same way.
    /// * DATA is added to the inbox of a stream that receives, and dropped
    ///   for any other id.
    /// * CLOSE ends the peer's sending direction; RESET tears the stream
    ///   down. What waits in the inbox stays readable.
    /// * With the queue in question full, nothing is changed and
    ///   `Backpressure` is given: hand the record in again later.
    /// * A record that is not a frame ends the session.
    pub fn on_record(&mut self, record: &[u8]) -> (d: Dispatch)
        requires
            old(self)@.wf(),
        ensures
            final(self)@.wf(),
            final(self)@ == old(self)@.dispatch(record@).0,
            d@ == old(self)@.dispatch(record@).1,
    {
        if self.terminated {
            return Dispatch::Terminated;
        }
        match Frame::decode(record) {
            Err(error) => {
                self.shut_down();
                Dispatch::Fatal { error }
            },
            Ok((frame, _)) => match frame.t {
                FrameType::Open => self.on_open(frame.stream_id, &frame.payload),
                FrameType::Data => self.on_data(frame.stream_id, frame.payload),
                FrameType::Close => self.on_close(frame.stream_id),
                FrameType::Reset => self.on_reset(frame.stream_id),
            },
        }
    }
}

} // verus!
