//! What holds of every negotiation between two sides.

use crate::error::StackError;
use crate::negotiation::model::{
    header_line, line_of, na_id, na_line, valid_id, valid_ids, NegotiatorView, PhaseView,
};
use crate::text::NEWLINE;
use vstd::prelude::*;

verus! {

/// Two sides talking over a faithful channel: the line in flight reaches
/// the responder, the responder's answer reaches the initiator, and the
/// initiator's answer is in flight next, for at most `rounds` rounds. Gives
/// both sides as the talk leaves them.
pub open spec fn exchange(
    initiator: NegotiatorView,
    responder: NegotiatorView,
    in_flight: Option<Seq<u8>>,
    rounds: nat,
) -> (NegotiatorView, NegotiatorView)
    decreases rounds,
{
    match in_flight {
        None => (initiator, responder),
        Some(line) => if rounds == 0 {
            (initiator, responder)
        } else {
            let (responder_then, answer) = responder.on_line(line);
            match answer.send {
                None => (initiator, responder_then),
                Some(back) => {
                    let (initiator_then, next) = initiator.on_line(back);
                    exchange(initiator_then, responder_then, next.send, (rounds - 1) as nat)
                },
            }
        },
    }
}

/// A whole negotiation between an initiator with `candidates` and a
/// responder that accepts `supported`, for at most `rounds` rounds.
pub open spec fn negotiate(candidates: Seq<Seq<u8>>, supported: Seq<Seq<u8>>, rounds: nat) -> (
    NegotiatorView,
    NegotiatorView,
) {
    let initiator = NegotiatorView::fresh(true, candidates);
    let responder = NegotiatorView::fresh(false, supported);
    exchange(initiator, responder, initiator.opening(), rounds)
}

/// The index of the first candidate, from `from` on, that the responder
/// accepts; the number of candidates where there is none.
pub open spec fn first_accepted(candidates: Seq<Seq<u8>>, supported: Seq<Seq<u8>>, from: int) -> int
    decreases candidates.len() - from,
{
    if from < 0 || from >= candidates.len() {
        candidates.len() as int
    } else if supported.contains(candidates[from]) {
        from
    } else {
        first_accepted(candidates, supported, from + 1)
    }
}

/// A line carries one identifier: two lines are the same only where the
/// identifiers are.
pub proof fn lemma_line_of_is_injective(a: Seq<u8>, b: Seq<u8>)
    ensures
        line_of(a) == line_of(b) <==> a == b,
        line_of(a).len() > 0,
        line_of(a).last() == NEWLINE,
        line_of(a).drop_last() == a,
{
    assert(line_of(a).drop_last() =~= a);
    assert(line_of(b).drop_last() =~= b);
}

spec fn in_step(initiator: NegotiatorView, responder: NegotiatorView, in_flight: Option<Seq<u8>>) -> bool {
    &&& initiator.initiator
    &&& !responder.initiator
    &&& valid_ids(initiator.protocols)
    &&& match in_flight {
        Some(line) => {
            ||| initiator.phase is AwaitHeader && responder.phase is AwaitHeader && line
                == header_line()
            ||| initiator.phase matches PhaseView::AwaitReply(k) && 0 <= k
                < initiator.protocols.len() && responder.phase is AwaitProposal && line == line_of(
                initiator.protocols[k],
            )
        },
        None => {
            ||| initiator.phase matches PhaseView::Agreed(id) && responder.phase
                == PhaseView::Agreed(id)
            ||| initiator.phase == PhaseView::Failed(StackError::NoAgreement) && responder.phase
                is AwaitProposal
        },
    }
}

proof fn lemma_round_keeps_step(
    initiator: NegotiatorView,
    responder: NegotiatorView,
    line: Seq<u8>,
)
    requires
        in_step(initiator, responder, Some(line)),
    ensures
        ({
            let (responder_then, answer) = responder.on_line(line);
            let back = answer.send->Some_0;
            &&& answer.send is Some
            &&& in_step(
                initiator.on_line(back).0,
                responder_then,
                initiator.on_line(back).1.send,
            )
            &&& initiator.on_line(back).0.protocols == initiator.protocols
            &&& responder_then.protocols == responder.protocols
        }),
{
    if let PhaseView::AwaitReply(k) = initiator.phase {
        let id = initiator.protocols[k];
        lemma_line_of_is_injective(id, na_id());
        assert(valid_id(id));
    }
}

proof fn lemma_exchange_keeps_step(
    initiator: NegotiatorView,
    responder: NegotiatorView,
    in_flight: Option<Seq<u8>>,
    rounds: nat,
)
    requires
        in_step(initiator, responder, in_flight),
    ensures
        ({
            let (i, r) = exchange(initiator, responder, in_flight, rounds);
            &&& i.phase matches PhaseView::Agreed(id) ==> r.phase == PhaseView::Agreed(id)
            &&& r.phase matches PhaseView::Agreed(id) ==> i.phase == PhaseView::Agreed(id)
            &&& !(i.phase is Failed) || i.phase == PhaseView::Failed(StackError::NoAgreement)
        }),
    decreases rounds,
{
    if let Some(line) = in_flight {
        if rounds > 0 {
            lemma_round_keeps_step(initiator, responder, line);
            let (responder_then, answer) = responder.on_line(line);
            let back = answer.send->Some_0;
            let (initiator_then, next) = initiator.on_line(back);
            lemma_exchange_keeps_step(initiator_then, responder_then, next.send, (rounds - 1) as nat);
        }
    }
}

/// Agreement is symmetric. However long two sides talk over a faithful
/// channel, the initiator has agreed on an identifier exactly when the
/// responder has agreed on the same identifier, octet for octet.
pub proof fn lemma_agreement_is_symmetric(
    candidates: Seq<Seq<u8>>,
    supported: Seq<Seq<u8>>,
    rounds: nat,
)
    requires
        valid_ids(candidates),
    ensures
        ({
            let (i, r) = negotiate(candidates, supported, rounds);
            &&& i.phase matches PhaseView::Agreed(id) ==> r.phase == PhaseView::Agreed(id)
            &&& r.phase matches PhaseView::Agreed(id) ==> i.phase == PhaseView::Agreed(id)
        }),
{
    let initiator = NegotiatorView::fresh(true, candidates);
    let responder = NegotiatorView::fresh(false, supported);
    lemma_exchange_keeps_step(initiator, responder, initiator.opening(), rounds);
}

proof fn lemma_proposals_run_in_order(
    initiator: NegotiatorView,
    responder: NegotiatorView,
    k: int,
    rounds: nat,
)
    requires
        0 <= k < initiator.protocols.len(),
        in_step(initiator, responder, Some(line_of(initiator.protocols[k]))),
        initiator.phase == PhaseView::AwaitReply(k),
        rounds >= initiator.protocols.len() - k,
    ensures
        ({
            let (i, r) = exchange(
                initiator,
                responder,
                Some(line_of(initiator.protocols[k])),
                rounds,
            );
            let first = first_accepted(initiator.protocols, responder.protocols, k);
            if 0 <= first < initiator.protocols.len() {
                &&& i.phase == PhaseView::Agreed(initiator.protocols[first])
                &&& r.phase == PhaseView::Agreed(initiator.protocols[first])
            } else {
                &&& i.phase == PhaseView::Failed(StackError::NoAgreement)
                &&& r.phase is AwaitProposal
            }
        }),
    decreases rounds,
{
    let id = initiator.protocols[k];
    let line = line_of(id);
    lemma_round_keeps_step(initiator, responder, line);
    lemma_line_of_is_injective(id, na_id());
    assert(valid_id(id));
    let (responder_then, answer) = responder.on_line(line);
    let back = answer.send->Some_0;
    let (initiator_then, next) = initiator.on_line(back);
    let left = (rounds - 1) as nat;
    assert(exchange(initiator, responder, Some(line), rounds) == exchange(
        initiator_then,
        responder_then,
        next.send,
        left,
    ));
    let first = first_accepted(initiator.protocols, responder.protocols, k);
    if responder.protocols.contains(id) {
        assert(first == k);
        assert(responder_then.phase == PhaseView::Agreed(id));
        assert(initiator_then.phase == PhaseView::Agreed(id));
        assert(next.send is None);
        assert(exchange(initiator_then, responder_then, next.send, left) == (
            initiator_then,
            responder_then,
        ));
    } else if k + 1 < initiator.protocols.len() {
        assert(first == first_accepted(initiator.protocols, responder.protocols, k + 1));
        assert(back == na_line());
        assert(next.send == Some(line_of(initiator.protocols[k + 1])));
        lemma_proposals_run_in_order(initiator_then, responder_then, k + 1, left);
    } else {
        assert(first_accepted(initiator.protocols, responder.protocols, k + 1)
            == initiator.protocols.len());
        assert(first == initiator.protocols.len());
        assert(back == na_line());
        assert(next.send is None);
        assert(initiator_then.phase == PhaseView::Failed(StackError::NoAgreement));
        assert(responder_then.phase is AwaitProposal);
        assert(exchange(initiator_then, responder_then, next.send, left) == (
            initiator_then,
            responder_then,
        ));
    }
}

/// The initiator's order decides. Given more rounds than there are
/// candidates, both sides agree on the first candidate that the responder
/// accepts; where it accepts none, the initiator fails with `NoAgreement`
/// and the responder goes on waiting for a proposal.
pub proof fn lemma_first_accepted_candidate_wins(
    candidates: Seq<Seq<u8>>,
    supported: Seq<Seq<u8>>,
    rounds: nat,
)
    requires
        valid_ids(candidates),
        rounds > candidates.len(),
    ensures
        ({
            let (i, r) = negotiate(candidates, supported, rounds);
            let first = first_accepted(candidates, supported, 0);
            if first < candidates.len() {
                &&& supported.contains(candidates[first])
                &&& forall|j: int| 0 <= j < first ==> !supported.contains(#[trigger] candidates[j])
                &&& i.phase == PhaseView::Agreed(candidates[first])
                &&& r.phase == PhaseView::Agreed(candidates[first])
            } else {
                &&& forall|j: int|
                    0 <= j < candidates.len() ==> !supported.contains(#[trigger] candidates[j])
                &&& i.phase == PhaseView::Failed(StackError::NoAgreement)
                &&& r.phase is AwaitProposal
            }
        }),
{
    let initiator = NegotiatorView::fresh(true, candidates);
    let responder = NegotiatorView::fresh(false, supported);
    lemma_first_accepted_is_first(candidates, supported, 0);
    lemma_round_keeps_step(initiator, responder, header_line());
    let (responder_then, answer) = responder.on_line(header_line());
    let (initiator_then, next) = initiator.on_line(answer.send->Some_0);
    let left = (rounds - 1) as nat;
    assert(negotiate(candidates, supported, rounds) == exchange(
        initiator_then,
        responder_then,
        next.send,
        left,
    ));
    if candidates.len() > 0 {
        lemma_proposals_run_in_order(initiator_then, responder_then, 0, left);
    } else {
        assert(exchange(initiator_then, responder_then, next.send, left) == (
            initiator_then,
            responder_then,
        ));
    }
}

/// `first_accepted` gives the first accepted candidate from `from` on.
pub proof fn lemma_first_accepted_is_first(
    candidates: Seq<Seq<u8>>,
    supported: Seq<Seq<u8>>,
    from: int,
)
    requires
        0 <= from,
    ensures
        ({
            let first = first_accepted(candidates, supported, from);
            &&& first <= candidates.len()
            &&& from <= candidates.len() ==> from <= first
            &&& first < candidates.len() ==> supported.contains(candidates[first])
            &&& forall|j: int| from <= j < first ==> !supported.contains(#[trigger] candidates[j])
        }),
    decreases candidates.len() - from,
{
    if from < candidates.len() && !supported.contains(candidates[from]) {
        lemma_first_accepted_is_first(candidates, supported, from + 1);
    }
}

/// A wrong header ends the negotiation at once: whatever line but the
/// header reaches a side that waits for the header, that side fails with
/// `UnsupportedNegotiation` and sends nothing.
pub proof fn lemma_wrong_header_aborts(n: NegotiatorView, line: Seq<u8>)
    requires
        n.phase is AwaitHeader,
        line != header_line(),
    ensures
        n.on_line(line).0.phase == PhaseView::Failed(StackError::UnsupportedNegotiation),
        n.on_line(line).1.send is None,
{
}

} // verus!
