//! The multiplexer as a mathematical value, and what each operation and each
//! frame from the peer does to it.

use crate::error::StackError;
use crate::frame::{spec_decode, spec_encode, FrameDecodeError, FrameType, FrameView};
use vstd::prelude::*;
use vstd::utf8::{decode_utf8, encode_utf8, valid_utf8};

verus! {

/// Payloads that may wait in one stream's inbox.
pub const INBOX_CAPACITY: usize = 32;

/// Streams opened by the peer that may wait to be accepted.
pub const ACCEPT_CAPACITY: usize = 32;

/// The largest payload of one frame: the 65519 octets of plaintext that a
/// record holds, less the nine of the header.
pub const MAX_PAYLOAD: usize = 65510;

/// One more than the largest stream id.
pub const ID_LIMIT: u64 = 0x1_0000_0000;

/// Where a stream stands in its life.
#[derive(Debug, Clone, Copy, PartialEq, Eq, Structural)]
pub enum StreamState {
    /// Opened here; the OPEN frame is not known to be on the wire yet.
    Opening,
    /// Both directions carry data.
    Open,
    /// This side has closed its sending direction and still receives. No
    /// operation enters this state: a close from this side gives up the
    /// inbox at once and leaves the stream `Closed`.
    HalfClosedLocal,
    /// The peer has closed its sending direction; nothing more arrives.
    HalfClosedRemote,
    /// Closed by this side.
    Closed,
    /// Torn down by either side.
    Reset,
}

impl StreamState {
    /// Whether the stream has an inbox that takes payloads from the peer.
    pub open spec fn spec_receives(self) -> bool {
        self is Opening || self is Open || self is HalfClosedLocal
    }

    /// Whether the stream has been neither closed here nor reset.
    pub open spec fn spec_is_live(self) -> bool {
        !(self is Closed || self is Reset)
    }

    /// Whether this side may close the stream.
    pub open spec fn spec_can_close(self) -> bool {
        self is Opening || self is Open || self is HalfClosedRemote
    }

    /// Whether the stream has an inbox that takes payloads from the peer.
    pub fn receives(self) -> (b: bool)
        ensures
            b == self.spec_receives(),
    {
        match self {
            StreamState::Opening | StreamState::Open | StreamState::HalfClosedLocal => true,
            _ => false,
        }
    }

    /// Whether the stream has been neither closed here nor reset.
    pub fn is_live(self) -> (b: bool)
        ensures
            b == self.spec_is_live(),
    {
        match self {
            StreamState::Closed | StreamState::Reset => false,
            _ => true,
        }
    }

    /// Whether this side may close the stream.
    pub fn can_close(self) -> (b: bool)
        ensures
            b == self.spec_can_close(),
    {
        match self {
            StreamState::Opening | StreamState::Open | StreamState::HalfClosedRemote => true,
            _ => false,
        }
    }
}

/// One stream as a mathematical value.
pub struct StreamView {
    pub state: StreamState,
    /// Whether this side opened the stream.
    pub local: bool,
    /// The protocol named when the stream was opened.
    pub protocol: Seq<char>,
    /// The payloads that wait for the owner, oldest first.
    pub inbox: Seq<Seq<u8>>,
}

/// The multiplexer as a mathematical value.
pub struct MuxerView {
    pub initiator: bool,
    /// The least id that this side has not yet considered for a new stream.
    pub next_id: int,
    pub terminated: bool,
    /// Every stream that this connection has seen, live or not.
    pub streams: Map<u32, StreamView>,
    /// Streams opened by the peer and not yet accepted, oldest first.
    pub incoming: Seq<u32>,
}

/// What a read of a stream's inbox gives, as a mathematical value.
pub enum InboxView {
    Data(Seq<u8>),
    Empty,
    EndOfStream,
    Reset,
}

/// What became of a record, as a mathematical value.
pub enum DispatchView {
    Incoming { stream_id: u32 },
    Delivered { stream_id: u32 },
    Discarded { stream_id: u32 },
    Closed { stream_id: u32 },
    Reset { stream_id: u32 },
    Violation { stream_id: u32, reply: Seq<u8> },
    Rejected { stream_id: u32, reply: Seq<u8> },
    Backpressure { stream_id: u32 },
    Fatal { error: FrameDecodeError },
    Terminated,
}

/// The least id from `from` on, in steps of two, that `used` does not hold;
/// a number beyond every id where there is none.
pub open spec fn first_free(used: Set<u32>, from: int) -> int
    decreases ID_LIMIT + 2 - from,
{
    if from < 0 || from >= ID_LIMIT {
        from
    } else if !used.contains(from as u32) {
        from
    } else {
        first_free(used, from + 2)
    }
}

/// The frame that tears down stream `id`.
pub open spec fn reset_frame(id: u32) -> Seq<u8> {
    spec_encode(FrameView { t: FrameType::Reset, stream_id: id, payload: Seq::empty() })
}

/// The frame that closes stream `id`.
pub open spec fn close_frame(id: u32) -> Seq<u8> {
    spec_encode(FrameView { t: FrameType::Close, stream_id: id, payload: Seq::empty() })
}

impl MuxerView {
    /// A multiplexer that has seen no stream. The initiator's ids start at 1,
    /// the responder's at 2.
    pub open spec fn fresh(initiator: bool) -> MuxerView {
        MuxerView {
            initiator,
            next_id: if initiator { 1 } else { 2 },
            terminated: false,
            streams: Map::empty(),
            incoming: Seq::empty(),
        }
    }

    /// The remainder modulo two of every id that this side allots.
    pub open spec fn parity(self) -> int {
        if self.initiator {
            1
        } else {
            0
        }
    }

    /// What holds of every multiplexer that the operations can reach.
    pub open spec fn wf(self) -> bool {
        &&& 1 <= self.next_id <= ID_LIMIT + 1
        &&& self.next_id % 2 == self.parity()
        &&& forall|id: u32| #[trigger]
            self.streams.contains_key(id) ==> {
                &&& self.streams[id].inbox.len() <= INBOX_CAPACITY
                &&& self.streams[id].local ==> id % 2 == self.parity() && id < self.next_id
                &&& self.streams[id].state is Opening ==> self.streams[id].local
            }
        &&& self.incoming.len() <= ACCEPT_CAPACITY
        &&& forall|i: int|
            0 <= i < self.incoming.len() ==> {
                &&& self.streams.contains_key(#[trigger] self.incoming[i])
                &&& !self.streams[self.incoming[i]].local
            }
        &&& self.terminated ==> self.streams == Map::<u32, StreamView>::empty()
            && self.incoming == Seq::<u32>::empty()
    }

    /// The multiplexer after the session has ended: no stream, nothing to
    /// accept.
    pub open spec fn shut(self) -> MuxerView {
        MuxerView {
            terminated: true,
            streams: Map::empty(),
            incoming: Seq::empty(),
            ..self
        }
    }

    /// Whether stream `id` is in the table and in state `state`.
    pub open spec fn in_state(self, id: u32, state: StreamState) -> bool {
        self.streams.contains_key(id) && self.streams[id].state == state
    }

    /// Whether stream `id` has an inbox that takes payloads from the peer.
    pub open spec fn receives(self, id: u32) -> bool {
        self.streams.contains_key(id) && self.streams[id].state.spec_receives()
    }

    /// Stream `id` moved to `state`, its inbox kept.
    pub open spec fn with_state(self, id: u32, state: StreamState) -> MuxerView {
        MuxerView {
            streams: self.streams.insert(id, StreamView { state, ..self.streams[id] }),
            ..self
        }
    }

    /// Stream `id` moved to `state`, its inbox emptied.
    pub open spec fn torn_down(self, id: u32, state: StreamState) -> MuxerView {
        MuxerView {
            streams: self.streams.insert(
                id,
                StreamView { state, inbox: Seq::empty(), ..self.streams[id] },
            ),
            ..self
        }
    }

    /// `open_stream`: allots the first free id of this side's parity, enters
    /// the stream as `Opening` and gives the OPEN frame. With no id left the
    /// session ends.
    pub open spec fn open(self, protocol: Seq<char>) -> (MuxerView, Result<(u32, Seq<u8>), StackError>) {
        let id = first_free(self.streams.dom(), self.next_id);
        if self.terminated {
            (self, Err(StackError::SessionTerminated))
        } else if encode_utf8(protocol).len() > MAX_PAYLOAD {
            (self, Err(StackError::PayloadTooLarge))
        } else if id >= ID_LIMIT {
            (self.shut(), Err(StackError::SessionTerminated))
        } else {
            (
                MuxerView {
                    next_id: id + 2,
                    streams: self.streams.insert(
                        id as u32,
                        StreamView {
                            state: StreamState::Opening,
                            local: true,
                            protocol,
                            inbox: Seq::empty(),
                        },
                    ),
                    ..self
                },
                Ok(
                    (
                        id as u32,
                        spec_encode(
                            FrameView {
                                t: FrameType::Open,
                                stream_id: id as u32,
                                payload: encode_utf8(protocol),
                            },
                        ),
                    ),
                ),
            )
        }
    }

    /// `confirm_open`: the OPEN frame of stream `id` is on the wire.
    pub open spec fn confirm(self, id: u32) -> (MuxerView, Result<(), StackError>) {
        if self.terminated {
            (self, Err(StackError::SessionTerminated))
        } else if !self.in_state(id, StreamState::Opening) {
            (self, Err(StackError::InvalidState))
        } else {
            (self.with_state(id, StreamState::Open), Ok(()))
        }
    }

    /// `send_data`: the DATA frame for `data` on stream `id`, which must be
    /// `Open`.
    pub open spec fn send(self, id: u32, data: Seq<u8>) -> Result<Seq<u8>, StackError> {
        if self.terminated {
            Err(StackError::SessionTerminated)
        } else if !self.in_state(id, StreamState::Open) {
            Err(StackError::InvalidState)
        } else if data.len() > MAX_PAYLOAD {
            Err(StackError::PayloadTooLarge)
        } else {
            Ok(spec_encode(FrameView { t: FrameType::Data, stream_id: id, payload: data }))
        }
    }

    /// Whether this side may close stream `id`.
    pub open spec fn can_close(self, id: u32) -> bool {
        self.streams.contains_key(id) && self.streams[id].state.spec_can_close()
    }

    /// `close_stream`: stream `id` becomes `Closed`, its inbox is dropped,
    /// and the CLOSE frame is given.
    pub open spec fn close(self, id: u32) -> (MuxerView, Result<Seq<u8>, StackError>) {
        if self.terminated {
            (self, Err(StackError::SessionTerminated))
        } else if !self.can_close(id) {
            (self, Err(StackError::InvalidState))
        } else {
            (self.torn_down(id, StreamState::Closed), Ok(close_frame(id)))
        }
    }

    /// Whether stream `id` is in the table and neither closed here nor reset.
    pub open spec fn is_live(self, id: u32) -> bool {
        self.streams.contains_key(id) && self.streams[id].state.spec_is_live()
    }

    /// `reset_stream`: stream `id` becomes `Reset`, its inbox is dropped, and
    /// the RESET frame is given.
    pub open spec fn reset(self, id: u32) -> (MuxerView, Result<Seq<u8>, StackError>) {
        if self.terminated {
            (self, Err(StackError::SessionTerminated))
        } else if !self.is_live(id) {
            (self, Err(StackError::InvalidState))
        } else {
            (self.torn_down(id, StreamState::Reset), Ok(reset_frame(id)))
        }
    }

    /// `accept_stream`: the oldest stream that the peer opened and that has
    /// not been handed out, with its protocol; `None` while there is none.
    pub open spec fn accept(self) -> (MuxerView, Result<Option<(u32, Seq<char>)>, StackError>) {
        if self.terminated {
            (self, Err(StackError::SessionTerminated))
        } else if self.incoming.len() == 0 {
            (self, Ok(None))
        } else {
            (
                MuxerView { incoming: self.incoming.subrange(1, self.incoming.len() as int), ..self },
                Ok(Some((self.incoming[0], self.streams[self.incoming[0]].protocol))),
            )
        }
    }

    /// `read_inbox`: the oldest payload that waits on stream `id`. With none
    /// waiting: `Empty` while more may come, `Reset` after a teardown,
    /// `EndOfStream` otherwise, and always once the session has ended.
    pub open spec fn read(self, id: u32) -> (MuxerView, Result<InboxView, StackError>) {
        if self.terminated {
            (self, Ok(InboxView::EndOfStream))
        } else if !self.streams.contains_key(id) {
            (self, Err(StackError::InvalidState))
        } else if self.streams[id].inbox.len() > 0 {
            (
                MuxerView {
                    streams: self.streams.insert(
                        id,
                        StreamView {
                            inbox: self.streams[id].inbox.subrange(
                                1,
                                self.streams[id].inbox.len() as int,
                            ),
                            ..self.streams[id]
                        },
                    ),
                    ..self
                },
                Ok(InboxView::Data(self.streams[id].inbox[0])),
            )
        } else if self.streams[id].state.spec_receives() {
            (self, Ok(InboxView::Empty))
        } else if self.streams[id].state is Reset {
            (self, Ok(InboxView::Reset))
        } else {
            (self, Ok(InboxView::EndOfStream))
        }
    }

    /// What an OPEN frame does.
    pub open spec fn on_open(self, id: u32, payload: Seq<u8>) -> (MuxerView, DispatchView) {
        if self.streams.contains_key(id) {
            (
                self.torn_down(id, StreamState::Reset),
                DispatchView::Violation { stream_id: id, reply: reset_frame(id) },
            )
        } else if !valid_utf8(payload) {
            (
                MuxerView {
                    streams: self.streams.insert(
                        id,
                        StreamView {
                            state: StreamState::Reset,
                            local: false,
                            protocol: Seq::empty(),
                            inbox: Seq::empty(),
                        },
                    ),
                    ..self
                },
                DispatchView::Rejected { stream_id: id, reply: reset_frame(id) },
            )
        } else if self.incoming.len() >= ACCEPT_CAPACITY {
            (self, DispatchView::Backpressure { stream_id: id })
        } else {
            (
                MuxerView {
                    streams: self.streams.insert(
                        id,
                        StreamView {
                            state: StreamState::Open,
                            local: false,
                            protocol: decode_utf8(payload),
                            inbox: Seq::empty(),
                        },
                    ),
                    incoming: self.incoming.push(id),
                    ..self
                },
                DispatchView::Incoming { stream_id: id },
            )
        }
    }

    /// What a DATA frame does.
    pub open spec fn on_data(self, id: u32, payload: Seq<u8>) -> (MuxerView, DispatchView) {
        if !self.receives(id) {
            (self, DispatchView::Discarded { stream_id: id })
        } else if self.streams[id].inbox.len() >= INBOX_CAPACITY {
            (self, DispatchView::Backpressure { stream_id: id })
        } else {
            (
                MuxerView {
                    streams: self.streams.insert(
                        id,
                        StreamView {
                            state: if self.streams[id].state is Opening {
                                StreamState::Open
                            } else {
                                self.streams[id].state
                            },
                            inbox: self.streams[id].inbox.push(payload),
                            ..self.streams[id]
                        },
                    ),
                    ..self
                },
                DispatchView::Delivered { stream_id: id },
            )
        }
    }

    /// What a CLOSE frame does.
    pub open spec fn on_close(self, id: u32) -> (MuxerView, DispatchView) {
        if !self.receives(id) {
            (self, DispatchView::Discarded { stream_id: id })
        } else if self.streams[id].state is HalfClosedLocal {
            (self.with_state(id, StreamState::Closed), DispatchView::Closed { stream_id: id })
        } else {
            (
                self.with_state(id, StreamState::HalfClosedRemote),
                DispatchView::Closed { stream_id: id },
            )
        }
    }

    /// What a RESET frame does.
    pub open spec fn on_reset(self, id: u32) -> (MuxerView, DispatchView) {
        if !self.is_live(id) {
            (self, DispatchView::Discarded { stream_id: id })
        } else {
            (self.with_state(id, StreamState::Reset), DispatchView::Reset { stream_id: id })
        }
    }

    /// What a decoded frame does.
    pub open spec fn on_frame(self, f: FrameView) -> (MuxerView, DispatchView) {
        match f.t {
            FrameType::Open => self.on_open(f.stream_id, f.payload),
            FrameType::Data => self.on_data(f.stream_id, f.payload),
            FrameType::Close => self.on_close(f.stream_id),
            FrameType::Reset => self.on_reset(f.stream_id),
        }
    }

    /// `on_record`: what one record from the peer does. A record that is
    /// not a frame ends the session.
    pub open spec fn dispatch(self, record: Seq<u8>) -> (MuxerView, DispatchView) {
        if self.terminated {
            (self, DispatchView::Terminated)
        } else {
            match spec_decode(record) {
                Err(error) => (self.shut(), DispatchView::Fatal { error }),
                Ok((f, _)) => self.on_frame(f),
            }
        }
    }
}

} // verus!
