//! The multistream negotiation as a mathematical value: what each side
//! holds, and what a line from the peer does to it.

use crate::error::StackError;
use crate::text::NEWLINE;
use vstd::prelude::*;
use vstd::string::StringSliceAdditionalSpecFns;

verus! {

/// The name of the negotiation protocol itself, sent first by both sides.
pub open spec fn header_id() -> Seq<u8> {
    "/multistream/1.0.0".spec_bytes()
}

/// The word by which the responder turns a proposal down.
pub open spec fn na_id() -> Seq<u8> {
    "na".spec_bytes()
}

/// The line that carries `id`: its octets, then a newline.
pub open spec fn line_of(id: Seq<u8>) -> Seq<u8> {
    id.push(NEWLINE)
}

/// The header line.
pub open spec fn header_line() -> Seq<u8> {
    line_of(header_id())
}

/// The line that turns a proposal down.
pub open spec fn na_line() -> Seq<u8> {
    line_of(na_id())
}

/// Whether `id` can be negotiated: it holds no newline and is not the word
/// that turns a proposal down.
pub open spec fn valid_id(id: Seq<u8>) -> bool {
    !id.contains(NEWLINE) && id != na_id()
}

/// Whether every identifier of a list can be negotiated.
pub open spec fn valid_ids(ids: Seq<Seq<u8>>) -> bool {
    forall|i: int| 0 <= i < ids.len() ==> valid_id(#[trigger] ids[i])
}

/// Where one side of a negotiation stands.
pub enum PhaseView {
    /// The peer's header has not arrived yet.
    AwaitHeader,
    /// The initiator has proposed the candidate at this index and waits for
    /// the answer.
    AwaitReply(int),
    /// The responder waits for a proposal.
    AwaitProposal,
    /// Both sides use this identifier.
    Agreed(Seq<u8>),
    /// The negotiation is over without agreement.
    Failed(StackError),
}

/// How far a negotiation has come.
pub enum StatusView {
    Continue,
    Agreed(Seq<u8>),
    Failed(StackError),
}

/// What one line from the peer leads to: the line to send back, if any, and
/// how far the negotiation has come.
pub struct StepView {
    pub send: Option<Seq<u8>>,
    pub status: StatusView,
}

/// One side of a negotiation as a mathematical value.
pub struct NegotiatorView {
    pub initiator: bool,
    /// The candidates in the order in which the initiator proposes them, or
    /// the identifiers that the responder accepts.
    pub protocols: Seq<Seq<u8>>,
    pub phase: PhaseView,
}

impl NegotiatorView {
    /// One side at the start of a negotiation.
    pub open spec fn fresh(initiator: bool, protocols: Seq<Seq<u8>>) -> NegotiatorView {
        NegotiatorView { initiator, protocols, phase: PhaseView::AwaitHeader }
    }

    /// What holds of every negotiation that the operations can reach.
    pub open spec fn wf(self) -> bool {
        &&& valid_ids(self.protocols)
        &&& self.phase matches PhaseView::AwaitReply(k) ==> self.initiator && 0 <= k
            < self.protocols.len()
        &&& self.phase is AwaitProposal ==> !self.initiator
    }

    /// How far the negotiation has come.
    pub open spec fn status(self) -> StatusView {
        match self.phase {
            PhaseView::Agreed(id) => StatusView::Agreed(id),
            PhaseView::Failed(e) => StatusView::Failed(e),
            _ => StatusView::Continue,
        }
    }

    /// Whether the negotiation is over, with or without agreement.
    pub open spec fn is_over(self) -> bool {
        self.phase is Agreed || self.phase is Failed
    }

    /// The line that this side sends before it has read anything: the
    /// header for the initiator, nothing for the responder.
    pub open spec fn opening(self) -> Option<Seq<u8>> {
        if self.initiator && self.phase is AwaitHeader {
            Some(header_line())
        } else {
            None
        }
    }

    /// Whether the responder accepts `id`.
    pub open spec fn supports(self, id: Seq<u8>) -> bool {
        self.protocols.contains(id)
    }

    /// The initiator's next move once the candidates before `k` are turned
    /// down: propose candidate `k`, or give up when there is none.
    pub open spec fn propose(self, k: int) -> (NegotiatorView, StepView) {
        if 0 <= k < self.protocols.len() {
            (
                NegotiatorView { phase: PhaseView::AwaitReply(k), ..self },
                StepView { send: Some(line_of(self.protocols[k])), status: StatusView::Continue },
            )
        } else {
            (
                NegotiatorView { phase: PhaseView::Failed(StackError::NoAgreement), ..self },
                StepView { send: None, status: StatusView::Failed(StackError::NoAgreement) },
            )
        }
    }

    /// What a line from the peer does.
    ///
    /// Before the header has been read, any line but the exact header fails
    /// the negotiation with `UnsupportedNegotiation`; the header makes the
    /// initiator propose its first candidate and the responder send the
    /// header back. The initiator takes the echo of its proposal as
    /// agreement and any other line as a refusal, on which it proposes the
    /// next candidate or gives up with `NoAgreement`. The responder echoes
    /// a proposal that it accepts, which is agreement, and answers any other
    /// line with the refusal. Once the negotiation is over, lines change
    /// nothing.
    pub open spec fn on_line(self, line: Seq<u8>) -> (NegotiatorView, StepView) {
        match self.phase {
            PhaseView::AwaitHeader => {
                if line != header_line() {
                    (
                        NegotiatorView {
                            phase: PhaseView::Failed(StackError::UnsupportedNegotiation),
                            ..self
                        },
                        StepView {
                            send: None,
                            status: StatusView::Failed(StackError::UnsupportedNegotiation),
                        },
                    )
                } else if self.initiator {
                    self.propose(0)
                } else {
                    (
                        NegotiatorView { phase: PhaseView::AwaitProposal, ..self },
                        StepView { send: Some(header_line()), status: StatusView::Continue },
                    )
                }
            },
            PhaseView::AwaitReply(k) => {
                if line == line_of(self.protocols[k]) {
                    (
                        NegotiatorView { phase: PhaseView::Agreed(self.protocols[k]), ..self },
                        StepView { send: None, status: StatusView::Agreed(self.protocols[k]) },
                    )
                } else {
                    self.propose(k + 1)
                }
            },
            PhaseView::AwaitProposal => {
                if line.len() > 0 && line.last() == NEWLINE && self.supports(line.drop_last()) {
                    (
                        NegotiatorView { phase: PhaseView::Agreed(line.drop_last()), ..self },
                        StepView { send: Some(line), status: StatusView::Agreed(line.drop_last()) },
                    )
                } else {
                    (self, StepView { send: Some(na_line()), status: StatusView::Continue })
                }
            },
            PhaseView::Agreed(_) => (self, StepView { send: None, status: self.status() }),
            PhaseView::Failed(_) => (self, StepView { send: None, status: self.status() }),
        }
    }

    /// What a failure of the byte transport does: a negotiation that is not
    /// over fails with `Transport`.
    pub open spec fn on_transport_failure(self) -> NegotiatorView {
        if self.is_over() {
            self
        } else {
            NegotiatorView { phase: PhaseView::Failed(StackError::Transport), ..self }
        }
    }
}

} // verus!
