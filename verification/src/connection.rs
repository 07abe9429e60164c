//! Bringing a connection up, layer by layer: a security protocol is
//! negotiated over the raw byte transport, the Noise handshake runs, a
//! multiplexer is negotiated over the secure session, and the multiplexer
//! starts.

use crate::catalogue::Category;
use crate::error::StackError;
use crate::text::bytes_eq;
use vstd::prelude::*;
use vstd::string::StringSliceAdditionalSpecFns;

verus! {

/// A way to secure the byte transport that this endpoint provides.
#[derive(Debug, Clone, Copy, PartialEq, Eq, Structural)]
pub enum SecurityProtocol {
    /// Noise XX, under the identifier `/noise/xx`.
    NoiseXx,
}

/// A stream multiplexer that this endpoint provides.
#[derive(Debug, Clone, Copy, PartialEq, Eq, Structural)]
pub enum MuxProtocol {
    /// The mplex-style multiplexer, under the identifier `/mplex`.
    Mplex,
}

/// The identifier of Noise XX.
pub open spec fn noise_id() -> Seq<u8> {
    "/noise/xx".spec_bytes()
}

/// The identifier of the mplex-style multiplexer.
pub open spec fn mplex_id() -> Seq<u8> {
    "/mplex".spec_bytes()
}

/// What to run for an agreed security protocol.
pub open spec fn spec_select_security(id: Seq<u8>) -> Result<SecurityProtocol, StackError> {
    if id == noise_id() {
        Ok(SecurityProtocol::NoiseXx)
    } else {
        Err(StackError::NotImplemented)
    }
}

/// What to run for an agreed multiplexer.
pub open spec fn spec_select_muxer(id: Seq<u8>) -> Result<MuxProtocol, StackError> {
    if id == mplex_id() {
        Ok(MuxProtocol::Mplex)
    } else {
        Err(StackError::NotImplemented)
    }
}

/// What to run for the security protocol that was agreed on: Noise XX for
/// `/noise/xx`, and `NotImplemented` for any other identifier.
pub fn select_security(id: &[u8]) -> (r: Result<SecurityProtocol, StackError>)
    ensures
        r == spec_select_security(id@),
{
    if bytes_eq(id, "/noise/xx".as_bytes()) {
        Ok(SecurityProtocol::NoiseXx)
    } else {
        Err(StackError::NotImplemented)
    }
}

/// What to run for the multiplexer that was agreed on: the mplex-style
/// multiplexer for `/mplex`, and `NotImplemented` for `/yamux` and any
/// other identifier.
pub fn select_muxer(id: &[u8]) -> (r: Result<MuxProtocol, StackError>)
    ensures
        r == spec_select_muxer(id@),
{
    if bytes_eq(id, "/mplex".as_bytes()) {
        Ok(MuxProtocol::Mplex)
    } else {
        Err(StackError::NotImplemented)
    }
}

/// How far a connection has been brought up.
#[derive(Debug, Clone, Copy, PartialEq, Eq, Structural)]
pub enum Stage {
    /// A security protocol is being negotiated over the raw transport.
    SecurityNegotiation,
    /// The Noise handshake is running.
    Handshake,
    /// A multiplexer is being negotiated over the secure session.
    MuxNegotiation,
    /// The multiplexer runs; streams can be opened and accepted.
    Running,
    /// The connection was closed in good order.
    Closed,
    /// The connection was aborted.
    Failed(StackError),
}

/// What happened to a connection, as a mathematical value.
pub enum EventView {
    /// The negotiation of the current stage agreed on this identifier.
    Agreed(Seq<u8>),
    /// The handshake finished and the secure session stands.
    Secured,
    /// The application asked to quit.
    Quit,
    /// A layer failed.
    Failure(StackError),
}

/// What happened to a connection.
#[derive(Debug, Clone, Copy)]
pub enum Event<'a> {
    /// The negotiation of the current stage agreed on this identifier.
    Agreed(&'a [u8]),
    /// The handshake finished and the secure session stands.
    Secured,
    /// The application asked to quit.
    Quit,
    /// A layer failed.
    Failure(StackError),
}

impl<'a> View for Event<'a> {
    type V = EventView;

    open spec fn view(&self) -> EventView {
        match self {
            Event::Agreed(id) => EventView::Agreed(id@),
            Event::Secured => EventView::Secured,
            Event::Quit => EventView::Quit,
            Event::Failure(e) => EventView::Failure(*e),
        }
    }
}

impl Stage {
    /// Whether the connection is over.
    pub open spec fn spec_is_over(self) -> bool {
        self is Closed || self is Failed
    }

    /// The category in which the stage negotiates, if it negotiates.
    pub open spec fn spec_category(self) -> Option<Category> {
        match self {
            Stage::SecurityNegotiation => Some(Category::Security),
            Stage::MuxNegotiation => Some(Category::Multiplexing),
            _ => None,
        }
    }

    /// The stage after an event. A connection that is over stays as it is.
    /// A failure aborts. Quitting closes. Agreement on `/noise/xx` starts
    /// the handshake, the finished handshake starts the negotiation of the
    /// multiplexer, and agreement on `/mplex` starts the multiplexer;
    /// agreement on anything else aborts with `NotImplemented`. An event
    /// that the stage does not expect leaves it as it is.
    pub open spec fn spec_advance(self, event: EventView) -> Stage {
        if self.spec_is_over() {
            self
        } else {
            match event {
                EventView::Failure(e) => Stage::Failed(e),
                EventView::Quit => Stage::Closed,
                EventView::Agreed(id) => match self {
                    Stage::SecurityNegotiation => match spec_select_security(id) {
                        Ok(_) => Stage::Handshake,
                        Err(e) => Stage::Failed(e),
                    },
                    Stage::MuxNegotiation => match spec_select_muxer(id) {
                        Ok(_) => Stage::Running,
                        Err(e) => Stage::Failed(e),
                    },
                    _ => self,
                },
                EventView::Secured => match self {
                    Stage::Handshake => Stage::MuxNegotiation,
                    _ => self,
                },
            }
        }
    }

    /// The status with which the program ends: 1 after an abort, else 0.
    pub open spec fn spec_exit_code(self) -> i32 {
        if self is Failed {
            1
        } else {
            0
        }
    }

    /// The stage of a connection that was just made.
    pub fn start() -> (s: Stage)
        ensures
            s == Stage::SecurityNegotiation,
    {
        Stage::SecurityNegotiation
    }

    /// Whether the connection is over.
    pub fn is_over(self) -> (b: bool)
        ensures
            b == self.spec_is_over(),
    {
        match self {
            Stage::Closed | Stage::Failed(_) => true,
            _ => false,
        }
    }

    /// The category in which the stage negotiates, if it negotiates.
    pub fn category(self) -> (c: Option<Category>)
        ensures
            c == self.spec_category(),
    {
        match self {
            Stage::SecurityNegotiation => Some(Category::Security),
            Stage::MuxNegotiation => Some(Category::Multiplexing),
            _ => None,
        }
    }

    /// The stage after an event.
    pub fn advance(self, event: Event) -> (next: Stage)
        ensures
            next == self.spec_advance(event@),
    {
        if self.is_over() {
            return self;
        }
        match event {
            Event::Failure(e) => Stage::Failed(e),
            Event::Quit => Stage::Closed,
            Event::Agreed(id) => match self {
                Stage::SecurityNegotiation => match select_security(id) {
                    Ok(_) => Stage::Handshake,
                    Err(e) => Stage::Failed(e),
                },
                Stage::MuxNegotiation => match select_muxer(id) {
                    Ok(_) => Stage::Running,
                    Err(e) => Stage::Failed(e),
                },
                _ => self,
            },
            Event::Secured => match self {
                Stage::Handshake => Stage::MuxNegotiation,
                _ => self,
            },
        }
    }

    /// The status with which the program ends: 1 after an abort, else 0.
    pub fn exit_code(self) -> (code: i32)
        ensures
            code == self.spec_exit_code(),
    {
        match self {
            Stage::Failed(_) => 1,
            _ => 0,
        }
    }
}

} // verus!
