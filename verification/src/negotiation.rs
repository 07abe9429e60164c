//! Multistream negotiation: two sides agree on one protocol identifier.
//!
//! Each message is one line, a UTF-8 string ended by a newline. Both sides
//! first exchange the header line, the initiator first. The initiator then
//! proposes its candidates one at a time; the responder echoes the line of
//! a proposal that it accepts and answers any other with `na`.
//!
//! A [`Negotiator`] is one side of that exchange. It reads and writes
//! nothing: it is told each line that arrived and says which line to send.

pub mod laws;
pub mod model;

use crate::error::StackError;
use crate::negotiation::model::{
    line_of, valid_id, valid_ids, NegotiatorView, PhaseView, StatusView, StepView,
};
use crate::text::{bytes_eq, NEWLINE};
use vstd::prelude::*;
use vstd::slice::{slice_subrange, slice_to_vec};

verus! {

/// The identifiers held in a list of buffers.
pub open spec fn ids_of(list: Seq<Vec<u8>>) -> Seq<Seq<u8>> {
    Seq::new(list.len(), |i: int| list[i]@)
}

/// How far a negotiation has come.
#[derive(Debug, Clone, PartialEq, Eq)]
pub enum Status {
    /// More lines are needed.
    Continue,
    /// Both sides use this identifier.
    Agreed(Vec<u8>),
    /// The negotiation is over without agreement.
    Failed(StackError),
}

impl View for Status {
    type V = StatusView;

    open spec fn view(&self) -> StatusView {
        match self {
            Status::Continue => StatusView::Continue,
            Status::Agreed(id) => StatusView::Agreed(id@),
            Status::Failed(e) => StatusView::Failed(*e),
        }
    }
}

/// What one line from the peer leads to.
#[derive(Debug, Clone, PartialEq, Eq)]
pub struct Step {
    /// The line to send back, if any.
    pub send: Option<Vec<u8>>,
    /// How far the negotiation has come.
    pub status: Status,
}

impl View for Step {
    type V = StepView;

    open spec fn view(&self) -> StepView {
        StepView {
            send: match self.send {
                Some(line) => Some(line@),
                None => None,
            },
            status: self.status@,
        }
    }
}

enum Phase {
    AwaitHeader,
    AwaitReply(usize),
    AwaitProposal,
    Agreed(Vec<u8>),
    Failed(StackError),
}

impl View for Phase {
    type V = PhaseView;

    closed spec fn view(&self) -> PhaseView {
        match self {
            Phase::AwaitHeader => PhaseView::AwaitHeader,
            Phase::AwaitReply(k) => PhaseView::AwaitReply(*k as int),
            Phase::AwaitProposal => PhaseView::AwaitProposal,
            Phase::Agreed(id) => PhaseView::Agreed(id@),
            Phase::Failed(e) => PhaseView::Failed(*e),
        }
    }
}

/// One side of a negotiation.
pub struct Negotiator {
    initiator: bool,
    protocols: Vec<Vec<u8>>,
    phase: Phase,
}

impl View for Negotiator {
    type V = NegotiatorView;

    closed spec fn view(&self) -> NegotiatorView {
        NegotiatorView {
            initiator: self.initiator,
            protocols: ids_of(self.protocols@),
            phase: self.phase@,
        }
    }
}

/// The line that carries `id`.
pub fn make_line(id: &[u8]) -> (line: Vec<u8>)
    ensures
        line@ == line_of(id@),
{
    let mut line = slice_to_vec(id);
    line.push(NEWLINE);
    line
}

/// Whether `line` is the line that carries `id`.
pub fn is_line_of(line: &[u8], id: &[u8]) -> (b: bool)
    ensures
        b == (line@ == line_of(id@)),
{
    let n = line.len();
    if n == 0 || line[n - 1] != NEWLINE {
        return false;
    }
    let same = bytes_eq(slice_subrange(line, 0, n - 1), id);
    proof {
        if same {
            assert(line@ =~= line_of(id@));
        } else {
            assert(line_of(id@).drop_last() =~= id@);
        }
    }
    same
}

/// Whether `id` can be negotiated: it holds no newline and is not `na`.
pub fn is_valid_id(id: &[u8]) -> (b: bool)
    ensures
        b == valid_id(id@),
{
    if bytes_eq(id, "na".as_bytes()) {
        return false;
    }
    let mut i: usize = 0;
    while i < id.len()
        invariant
            i <= id@.len(),
            forall|j: int| 0 <= j < i ==> id@[j] != NEWLINE,
        decreases id@.len() - i,
    {
        if id[i] == NEWLINE {
            return false;
        }
        i = i + 1;
    }
    true
}

fn all_valid(list: &Vec<Vec<u8>>) -> (b: bool)
    ensures
        b == valid_ids(ids_of(list@)),
{
    let mut i: usize = 0;
    while i < list.len()
        invariant
            i <= list@.len(),
            forall|j: int| 0 <= j < i ==> valid_id(#[trigger] ids_of(list@)[j]),
        decreases list@.len() - i,
    {
        if !is_valid_id(list[i].as_slice()) {
            assert(!valid_id(ids_of(list@)[i as int]));
            return false;
        }
        i = i + 1;
    }
    true
}

fn holds(list: &Vec<Vec<u8>>, id: &[u8]) -> (b: bool)
    ensures
        b == ids_of(list@).contains(id@),
{
    let mut i: usize = 0;
    while i < list.len()
        invariant
            i <= list@.len(),
            forall|j: int| 0 <= j < i ==> ids_of(list@)[j] != id@,
        decreases list@.len() - i,
    {
        if bytes_eq(list[i].as_slice(), id) {
            assert(ids_of(list@)[i as int] == id@);
            return true;
        }
        i = i + 1;
    }
    false
}

impl Negotiator {
    /// One side at the start of a negotiation, over `protocols`: for the
    /// initiator the candidates in the order in which to propose them, for
    /// the responder the identifiers to accept. `None` when one of them
    /// cannot be negotiated, because it holds a newline or is `na`.
    pub fn new(initiator: bool, protocols: Vec<Vec<u8>>) -> (n: Option<Negotiator>)
        ensures
            n is Some <==> valid_ids(ids_of(protocols@)),
            n matches Some(negotiator) ==> negotiator@ == NegotiatorView::fresh(
                initiator,
                ids_of(protocols@),
            ) && negotiator@.wf(),
    {
        if !all_valid(&protocols) {
            return None;
        }
        Some(Negotiator { initiator, protocols, phase: Phase::AwaitHeader })
    }

    /// Whether this side dialled.
    pub fn is_initiator(&self) -> (b: bool)
        ensures
            b == self@.initiator,
    {
        self.initiator
    }

    /// How far the negotiation has come.
    pub fn status(&self) -> (s: Status)
        ensures
            s@ == self@.status(),
    {
        match &self.phase {
            Phase::Agreed(id) => Status::Agreed(slice_to_vec(id.as_slice())),
            Phase::Failed(e) => Status::Failed(*e),
            _ => Status::Continue,
        }
    }

    /// The line to send before anything has been read: the header for the
    /// initiator, nothing for the responder.
    pub fn opening(&self) -> (line: Option<Vec<u8>>)
        ensures
            match line {
                Some(l) => self@.opening() == Some(l@),
                None => self@.opening() is None,
            },
    {
        match self.phase {
            Phase::AwaitHeader => {
                if self.initiator {
                    Some(make_line("/multistream/1.0.0".as_bytes()))
                } else {
                    None
                }
            },
            _ => None,
        }
    }

    fn propose(&mut self, k: usize) -> (step: Step)
        requires
            old(self)@.wf(),
            old(self)@.initiator,
        ensures
            final(self)@.wf(),
            final(self)@ == old(self)@.propose(k as int).0,
            step@ == old(self)@.propose(k as int).1,
    {
        if k < self.protocols.len() {
            let line = make_line(self.protocols[k].as_slice());
            self.phase = Phase::AwaitReply(k);
            Step { send: Some(line), status: Status::Continue }
        } else {
            self.phase = Phase::Failed(StackError::NoAgreement);
            Step { send: None, status: Status::Failed(StackError::NoAgreement) }
        }
    }

    /// Takes one line from the peer and says what to send back and how far
    /// the negotiation has come.
    ///
    /// Before the header has been read, any line but the exact header fails
    /// the negotiation with `UnsupportedNegotiation`. The initiator takes
    /// the echo of its proposal as agreement and any other line as a
    /// refusal, on which it proposes its next candidate or, with none left,
    /// fails with `NoAgreement`. The responder echoes a proposal that it
    /// accepts, which is agreement, and answers `na` to any other line.
    pub fn on_line(&mut self, line: &[u8]) -> (step: Step)
        requires
            old(self)@.wf(),
        ensures
            final(self)@.wf(),
            final(self)@ == old(self)@.on_line(line@).0,
            step@ == old(self)@.on_line(line@).1,
    {
        match &self.phase {
            Phase::AwaitHeader => {
                if !is_line_of(line, "/multistream/1.0.0".as_bytes()) {
                    self.phase = Phase::Failed(StackError::UnsupportedNegotiation);
                    Step { send: None, status: Status::Failed(StackError::UnsupportedNegotiation) }
                } else if self.initiator {
                    self.propose(0)
                } else {
                    self.phase = Phase::AwaitProposal;
                    Step {
                        send: Some(make_line("/multistream/1.0.0".as_bytes())),
                        status: Status::Continue,
                    }
                }
            },
            Phase::AwaitReply(k) => {
                let k = *k;
                let count = self.protocols.len();
                assert(self@.phase == PhaseView::AwaitReply(k as int));
                assert(k < count);
                if is_line_of(line, self.protocols[k].as_slice()) {
                    let id = slice_to_vec(self.protocols[k].as_slice());
                    let agreed = slice_to_vec(self.protocols[k].as_slice());
                    self.phase = Phase::Agreed(id);
                    Step { send: None, status: Status::Agreed(agreed) }
                } else {
                    self.propose(k + 1)
                }
            },
            Phase::AwaitProposal => {
                let n = line.len();
                if n > 0 && line[n - 1] == NEWLINE && holds(
                    &self.protocols,
                    slice_subrange(line, 0, n - 1),
                ) {
                    assert(line@.subrange(0, n - 1) =~= line@.drop_last());
                    let id = slice_to_vec(slice_subrange(line, 0, n - 1));
                    let agreed = slice_to_vec(slice_subrange(line, 0, n - 1));
                    self.phase = Phase::Agreed(id);
                    Step { send: Some(slice_to_vec(line)), status: Status::Agreed(agreed) }
                } else {
                    proof {
                        if n > 0 {
                            assert(line@.subrange(0, n - 1) =~= line@.drop_last());
                        }
                    }
                    Step { send: Some(make_line("na".as_bytes())), status: Status::Continue }
                }
            },
            Phase::Agreed(_) => Step { send: None, status: self.status() },
            Phase::Failed(_) => Step { send: None, status: self.status() },
        }
    }

    /// Tells the negotiation that the byte transport failed: unless it is
    /// over already, it fails with `Transport`.
    pub fn on_transport_failure(&mut self)
        requires
            old(self)@.wf(),
        ensures
            final(self)@.wf(),
            final(self)@ == old(self)@.on_transport_failure(),
    {
        match &self.phase {
            Phase::Agreed(_) => {},
            Phase::Failed(_) => {},
            _ => {
                self.phase = Phase::Failed(StackError::Transport);
            },
        }
    }
}

} // verus!
