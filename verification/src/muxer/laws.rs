//! What holds of every run of the multiplexer.

use crate::error::StackError;
use crate::frame::{lemma_decode_inverts_encode, spec_decode, spec_encode, FrameType, FrameView};
use crate::muxer::model::{
    close_frame, first_free, InboxView, MuxerView, StreamState, StreamView, ID_LIMIT,
    INBOX_CAPACITY,
};
use vstd::prelude::*;

verus! {

/// Something that happens to a multiplexer while it runs.
pub enum MuxEvent {
    /// A record arrives from the peer.
    Record(Seq<u8>),
    /// The owner of a stream reads its inbox.
    Read(u32),
}

impl MuxerView {
    /// The multiplexer after one event.
    pub open spec fn step(self, e: MuxEvent) -> MuxerView {
        match e {
            MuxEvent::Record(record) => self.dispatch(record).0,
            MuxEvent::Read(id) => self.read(id).0,
        }
    }

    /// The multiplexer after a run of events, first to last.
    pub open spec fn run(self, events: Seq<MuxEvent>) -> MuxerView
        decreases events.len(),
    {
        if events.len() == 0 {
            self
        } else {
            self.step(events[0]).run(events.drop_first())
        }
    }

    /// The payloads that the owner of stream `s` is handed by one event.
    pub open spec fn handed(self, e: MuxEvent, s: u32) -> Seq<Seq<u8>> {
        match e {
            MuxEvent::Read(id) if id == s => match self.read(s).1 {
                Ok(InboxView::Data(payload)) => seq![payload],
                _ => Seq::empty(),
            },
            _ => Seq::empty(),
        }
    }

    /// The payloads that the owner of stream `s` is handed over a run of
    /// events, in the order of the reads.
    pub open spec fn observed(self, events: Seq<MuxEvent>, s: u32) -> Seq<Seq<u8>>
        decreases events.len(),
    {
        if events.len() == 0 {
            Seq::empty()
        } else {
            self.handed(events[0], s) + self.step(events[0]).observed(events.drop_first(), s)
        }
    }

    /// Whether a run of events leaves stream `s` undisturbed: every record
    /// is a frame, every frame on `s` is DATA, and none of them finds the
    /// inbox of `s` full.
    pub open spec fn steady(self, events: Seq<MuxEvent>, s: u32) -> bool
        decreases events.len(),
    {
        if events.len() == 0 {
            true
        } else {
            &&& match events[0] {
                MuxEvent::Record(record) => match spec_decode(record) {
                    Ok((f, _)) => f.stream_id == s ==> f.t is Data && self.streams[s].inbox.len()
                        < INBOX_CAPACITY,
                    Err(_) => false,
                },
                MuxEvent::Read(_) => true,
            }
            &&& self.step(events[0]).steady(events.drop_first(), s)
        }
    }
}

/// The payloads of the DATA frames on stream `s` among the records of a run
/// of events, in the order of arrival.
pub open spec fn arrivals(events: Seq<MuxEvent>, s: u32) -> Seq<Seq<u8>>
    decreases events.len(),
{
    if events.len() == 0 {
        Seq::empty()
    } else {
        let first = match events[0] {
            MuxEvent::Record(record) => match spec_decode(record) {
                Ok((f, _)) if f.stream_id == s && f.t is Data => seq![f.payload],
                _ => Seq::empty(),
            },
            MuxEvent::Read(_) => Seq::empty(),
        };
        first + arrivals(events.drop_first(), s)
    }
}

/// The id that `open_stream` allots is the least one, from the cursor on
/// and of this side's parity, that the table does not hold: odd for the
/// initiator, even for the responder, and never one seen before.
pub proof fn lemma_first_free_is_least(used: Set<u32>, from: int)
    requires
        0 <= from,
    ensures
        from <= first_free(used, from) <= if from < ID_LIMIT {
            ID_LIMIT + 1
        } else {
            from
        },
        (first_free(used, from) - from) % 2 == 0,
        first_free(used, from) < ID_LIMIT ==> !used.contains(first_free(used, from) as u32),
        forall|j: int|
            from <= j < first_free(used, from) && (j - from) % 2 == 0 && j < ID_LIMIT
                ==> used.contains(#[trigger] (j as u32)),
    decreases ID_LIMIT + 2 - from,
{
    if from < ID_LIMIT && used.contains(from as u32) {
        lemma_first_free_is_least(used, from + 2);
        assert forall|j: int|
            from <= j < first_free(used, from) && (j - from) % 2 == 0 && j < ID_LIMIT
            implies used.contains(#[trigger] (j as u32)) by {
            if j > from {
                assert((j - (from + 2)) % 2 == 0);
            }
        }
    }
}

/// Stream ids carry the parity of the side that opened them: every stream
/// that `open_stream` opens has an odd id on the initiator and an even id on
/// the responder, the id was not in the table before, and no stream that
/// this side opened before has it.
pub proof fn lemma_open_parity(m: MuxerView, protocol: Seq<char>)
    requires
        m.wf(),
    ensures
        m.open(protocol).0.wf(),
        m.open(protocol).1 matches Ok((id, _)) ==> {
            &&& id % 2 == m.parity()
            &&& m.initiator ==> id % 2 == 1
            &&& !m.initiator ==> id % 2 == 0
            &&& id >= m.next_id
            &&& !m.streams.contains_key(id)
            &&& m.open(protocol).0.in_state(id, StreamState::Opening)
            &&& m.open(protocol).0.streams[id].local
        },
{
    lemma_first_free_is_least(m.streams.dom(), m.next_id);
}

/// Every operation and every event leaves a well-formed multiplexer
/// well-formed.
pub proof fn lemma_wf_is_kept(m: MuxerView, id: u32, record: Seq<u8>)
    requires
        m.wf(),
    ensures
        m.confirm(id).0.wf(),
        m.close(id).0.wf(),
        m.reset(id).0.wf(),
        m.accept().0.wf(),
        m.read(id).0.wf(),
        m.dispatch(record).0.wf(),
        m.shut().wf(),
{
}

/// One event leaves a well-formed multiplexer well-formed.
pub proof fn lemma_step_keeps_wf(m: MuxerView, e: MuxEvent)
    requires
        m.wf(),
    ensures
        m.step(e).wf(),
{
    match e {
        MuxEvent::Record(record) => lemma_wf_is_kept(m, 0, record),
        MuxEvent::Read(id) => lemma_wf_is_kept(m, id, Seq::empty()),
    }
}

/// Per-stream order. While stream `s` receives and is left undisturbed,
/// its owner is handed the payloads of the DATA frames on `s` in the exact
/// order in which the records arrived, whatever else arrives in between:
/// what was handed out, followed by what still waits, is what waited
/// before, followed by the payloads that arrived.
pub proof fn lemma_per_stream_order(m: MuxerView, events: Seq<MuxEvent>, s: u32)
    requires
        m.wf(),
        !m.terminated,
        m.receives(s),
        m.steady(events, s),
    ensures
        !m.run(events).terminated,
        m.run(events).receives(s),
        m.observed(events, s) + m.run(events).streams[s].inbox == m.streams[s].inbox + arrivals(
            events,
            s,
        ),
    decreases events.len(),
{
    if events.len() == 0 {
        assert(m.observed(events, s) + m.run(events).streams[s].inbox =~= m.streams[s].inbox
            + arrivals(events, s));
    } else {
        let e = events[0];
        let rest = events.drop_first();
        let next = m.step(e);
        lemma_step_keeps_wf(m, e);
        match e {
            MuxEvent::Record(record) => {
                let f = spec_decode(record)->Ok_0.0;
                if f.stream_id == s {
                    assert(next.streams[s].inbox == m.streams[s].inbox.push(f.payload));
                } else {
                    lemma_other_streams_untouched(m, record, s);
                }
            },
            MuxEvent::Read(id) => {},
        }
        assert(next.receives(s));
        lemma_per_stream_order(next, rest, s);
        let tail = next.observed(rest, s) + next.run(rest).streams[s].inbox;
        assert(tail == next.streams[s].inbox + arrivals(rest, s));
        assert(m.observed(events, s) + m.run(events).streams[s].inbox =~= m.handed(e, s) + tail);
        assert(m.handed(e, s) + (next.streams[s].inbox + arrivals(rest, s)) =~= m.streams[s].inbox
            + arrivals(events, s));
    }
}

/// Cross-stream independence, one record at a time: a frame for one stream
/// changes nothing about any other stream, neither its state nor what waits
/// in its inbox nor whether it is in the table.
pub proof fn lemma_other_streams_untouched(m: MuxerView, record: Seq<u8>, s: u32)
    requires
        !m.terminated,
        spec_decode(record) matches Ok((f, _)) && f.stream_id != s,
    ensures
        m.dispatch(record).0.streams.contains_key(s) == m.streams.contains_key(s),
        m.dispatch(record).0.streams[s] == m.streams[s],
        !m.dispatch(record).0.terminated,
{
}

/// Cross-stream independence, over a run: reads and frames on other streams
/// change nothing about stream `s`. Between the inboxes of two streams no
/// order is kept and none is needed.
pub proof fn lemma_run_of_others_is_invisible(m: MuxerView, events: Seq<MuxEvent>, s: u32)
    requires
        !m.terminated,
        forall|i: int|
            0 <= i < events.len() ==> match #[trigger] events[i] {
                MuxEvent::Record(record) => spec_decode(record) matches Ok((f, _)) && f.stream_id
                    != s,
                MuxEvent::Read(id) => id != s,
            },
    ensures
        m.run(events).streams.contains_key(s) == m.streams.contains_key(s),
        m.run(events).streams[s] == m.streams[s],
        !m.run(events).terminated,
        m.observed(events, s) == Seq::<Seq<u8>>::empty(),
    decreases events.len(),
{
    if events.len() > 0 {
        let e = events[0];
        let rest = events.drop_first();
        match e {
            MuxEvent::Record(record) => lemma_other_streams_untouched(m, record, s),
            MuxEvent::Read(id) => {},
        }
        assert forall|i: int| 0 <= i < rest.len() implies match #[trigger] rest[i] {
            MuxEvent::Record(record) => spec_decode(record) matches Ok((f, _)) && f.stream_id != s,
            MuxEvent::Read(id) => id != s,
        } by {
            assert(rest[i] == events[i + 1]);
        }
        lemma_run_of_others_is_invisible(m.step(e), rest, s);
        assert(m.observed(events, s) =~= Seq::<Seq<u8>>::empty());
    }
}

/// Something that happens to one stream: a frame for it arrives, or its
/// owner reads its inbox.
pub enum OwnEvent {
    Frame(FrameView),
    Read,
}

/// The events of a run that concern stream `s`, in order: the frames on
/// `s` among the records, and the reads of its inbox.
pub open spec fn own_events(events: Seq<MuxEvent>, s: u32) -> Seq<OwnEvent>
    decreases events.len(),
{
    if events.len() == 0 {
        Seq::empty()
    } else {
        let first = match events[0] {
            MuxEvent::Record(record) => match spec_decode(record) {
                Ok((f, _)) if f.stream_id == s => seq![OwnEvent::Frame(f)],
                _ => Seq::empty(),
            },
            MuxEvent::Read(id) => if id == s {
                seq![OwnEvent::Read]
            } else {
                Seq::empty()
            },
        };
        first + own_events(events.drop_first(), s)
    }
}

/// A multiplexer that holds nothing but one stream, or nothing at all.
pub open spec fn solo(entry: Option<StreamView>, s: u32) -> MuxerView {
    MuxerView {
        initiator: true,
        next_id: 1,
        terminated: false,
        streams: match entry {
            Some(stream) => Map::<u32, StreamView>::empty().insert(s, stream),
            None => Map::empty(),
        },
        incoming: Seq::empty(),
    }
}

/// What stream `s` goes through on its own: what becomes of it, and the
/// payloads that its owner is handed, over a run of its own events on a
/// multiplexer that holds nothing else.
pub open spec fn alone(entry: Option<StreamView>, own: Seq<OwnEvent>, s: u32) -> (
    Option<StreamView>,
    Seq<Seq<u8>>,
)
    decreases own.len(),
{
    if own.len() == 0 {
        (entry, Seq::empty())
    } else {
        let q = solo(entry, s);
        let (next, handed) = match own[0] {
            OwnEvent::Frame(f) => (q.on_frame(f).0.entry(s), Seq::<Seq<u8>>::empty()),
            OwnEvent::Read => (q.read(s).0.entry(s), q.handed(MuxEvent::Read(s), s)),
        };
        let (last, later) = alone(next, own.drop_first(), s);
        (last, handed + later)
    }
}

impl MuxerView {
    /// What the table holds of stream `s`, if it holds it.
    pub open spec fn entry(self, s: u32) -> Option<StreamView> {
        if self.streams.contains_key(s) {
            Some(self.streams[s])
        } else {
            None
        }
    }

    /// Whether a run of events goes through unobstructed: every record is
    /// a frame, and none is refused because the queue it is for is full.
    pub open spec fn unobstructed(self, events: Seq<MuxEvent>) -> bool
        decreases events.len(),
    {
        if events.len() == 0 {
            true
        } else {
            &&& match events[0] {
                MuxEvent::Record(record) => spec_decode(record) is Ok && !(self.dispatch(record).1
                    is Backpressure),
                MuxEvent::Read(_) => true,
            }
            &&& self.step(events[0]).unobstructed(events.drop_first())
        }
    }
}

/// One frame on stream `s` does to the stream what it would do on a
/// multiplexer that holds nothing else, unless a full queue refuses it.
proof fn lemma_frame_acts_on_entry(m: MuxerView, f: FrameView)
    requires
        !m.terminated,
        !(m.on_frame(f).1 is Backpressure),
    ensures
        m.on_frame(f).0.entry(f.stream_id) == solo(
            m.entry(f.stream_id),
            f.stream_id,
        ).on_frame(f).0.entry(f.stream_id),
        !m.on_frame(f).0.terminated,
{
}

/// One read of stream `s` does to the stream, and hands its owner, what it
/// would on a multiplexer that holds nothing else.
proof fn lemma_read_acts_on_entry(m: MuxerView, s: u32)
    requires
        !m.terminated,
    ensures
        m.read(s).0.entry(s) == solo(m.entry(s), s).read(s).0.entry(s),
        m.handed(MuxEvent::Read(s), s) == solo(m.entry(s), s).handed(MuxEvent::Read(s), s),
        !m.read(s).0.terminated,
{
}

/// Over an unobstructed run, what becomes of stream `s` and what its owner
/// is handed are fixed by the stream's own events: they are what the
/// stream goes through on its own.
pub proof fn lemma_run_follows_own_events(m: MuxerView, events: Seq<MuxEvent>, s: u32)
    requires
        !m.terminated,
        m.unobstructed(events),
    ensures
        !m.run(events).terminated,
        (m.run(events).entry(s), m.observed(events, s)) == alone(
            m.entry(s),
            own_events(events, s),
            s,
        ),
    decreases events.len(),
{
    if events.len() == 0 {
        assert(m.observed(events, s) =~= Seq::<Seq<u8>>::empty());
    } else {
        let e = events[0];
        let rest = events.drop_first();
        let next = m.step(e);
        let own = own_events(events, s);
        let later = own_events(rest, s);
        match e {
            MuxEvent::Record(record) => {
                let f = spec_decode(record)->Ok_0.0;
                lemma_frame_acts_on_entry(m, f);
                if f.stream_id == s {
                    assert(own =~= seq![OwnEvent::Frame(f)] + later);
                    assert(own[0] == OwnEvent::Frame(f));
                    assert(own.drop_first() =~= later);
                } else {
                    lemma_other_streams_untouched(m, record, s);
                    assert(own =~= later);
                }
            },
            MuxEvent::Read(id) => {
                lemma_read_acts_on_entry(m, id);
                if id == s {
                    assert(own =~= seq![OwnEvent::Read] + later);
                    assert(own[0] == OwnEvent::Read);
                    assert(own.drop_first() =~= later);
                } else {
                    assert(own =~= later);
                }
            },
        }
        lemma_run_follows_own_events(next, rest, s);
        let tail = alone(next.entry(s), later, s);
        assert(m.observed(events, s) =~= m.handed(e, s) + tail.1);
        if !(own =~= later) {
            assert(alone(m.entry(s), own, s).1 =~= m.handed(e, s) + tail.1);
        } else {
            assert(m.handed(e, s) =~= Seq::<Seq<u8>>::empty());
            assert(next.entry(s) == m.entry(s));
        }
    }
}

/// Cross-stream independence, over two whole runs. Let two runs of
/// records and reads go through unobstructed, on multiplexers that hold
/// the same of stream `s`, and let the frames on `s` and the reads of `s`
/// be the same in both, in the same order, while everything else differs
/// or is interleaved differently. Then both runs leave the same of stream
/// `s` behind and hand its owner the same payloads in the same order.
/// Nothing is said of the order between the inboxes of different streams.
pub proof fn lemma_streams_are_independent(
    m: MuxerView,
    f: Seq<MuxEvent>,
    n: MuxerView,
    g: Seq<MuxEvent>,
    s: u32,
)
    requires
        !m.terminated,
        !n.terminated,
        m.entry(s) == n.entry(s),
        m.unobstructed(f),
        n.unobstructed(g),
        own_events(f, s) == own_events(g, s),
    ensures
        m.run(f).entry(s) == n.run(g).entry(s),
        m.observed(f, s) == n.observed(g, s),
{
    lemma_run_follows_own_events(m, f, s);
    lemma_run_follows_own_events(n, g, s);
}

/// Cross-stream independence, in pairs: two DATA frames on different
/// streams leave the same multiplexer behind in either order of arrival.
pub proof fn lemma_data_on_two_streams_commutes(m: MuxerView, a: FrameView, b: FrameView)
    requires
        a.t is Data,
        b.t is Data,
        a.stream_id != b.stream_id,
    ensures
        m.on_frame(a).0.on_frame(b).0 == m.on_frame(b).0.on_frame(a).0,
        m.on_frame(a).0.on_frame(b).1 == m.on_frame(b).1,
        m.on_frame(b).0.on_frame(a).1 == m.on_frame(a).1,
{
    let ab = m.on_frame(a).0.on_frame(b).0;
    let ba = m.on_frame(b).0.on_frame(a).0;
    assert(ab.streams =~= ba.streams);
}

/// Close is not repeated: on a session that has not ended, a second
/// `close_stream` on the same id fails with `InvalidState` and changes
/// nothing, so the two calls give one CLOSE frame where the stream could be
/// closed and none where it could not.
pub proof fn lemma_close_twice(m: MuxerView, s: u32)
    requires
        !m.terminated,
    ensures
        m.close(s).1 is Ok <==> m.can_close(s),
        m.close(s).1 is Ok ==> m.close(s).1 == Ok::<Seq<u8>, StackError>(close_frame(s)),
        m.close(s).0.close(s).1 == Err::<Seq<u8>, StackError>(StackError::InvalidState),
        m.close(s).0.close(s).0 == m.close(s).0,
{
}

/// After a stream was closed or reset from this side, `send_data` on it
/// fails with `InvalidState`.
pub proof fn lemma_no_send_after_teardown(m: MuxerView, s: u32, data: Seq<u8>)
    requires
        !m.terminated,
    ensures
        m.close(s).1 is Ok ==> m.close(s).0.send(s, data) == Err::<Seq<u8>, StackError>(
            StackError::InvalidState,
        ),
        m.reset(s).1 is Ok ==> m.reset(s).0.send(s, data) == Err::<Seq<u8>, StackError>(
            StackError::InvalidState,
        ),
{
}

/// An id is used once: an OPEN frame for an id that the table holds, be the
/// stream live, closed or reset, is a protocol violation and leaves the
/// stream reset.
pub proof fn lemma_open_on_known_id_is_violation(m: MuxerView, s: u32, protocol: Seq<u8>)
    requires
        !m.terminated,
        m.streams.contains_key(s),
        protocol.len() <= u32::MAX,
    ensures
        ({
            let open = FrameView { t: FrameType::Open, stream_id: s, payload: protocol };
            let (after, outcome) = m.dispatch(spec_encode(open));
            &&& outcome is Violation
            &&& after.in_state(s, StreamState::Reset)
            &&& after.streams[s].local == m.streams[s].local
        }),
{
    let open = FrameView { t: FrameType::Open, stream_id: s, payload: protocol };
    lemma_decode_inverts_encode(open);
}

/// No stream becomes `HalfClosedLocal`: where no stream is in that state,
/// no operation and no record puts one there.
pub proof fn lemma_half_closed_local_is_not_entered(
    m: MuxerView,
    id: u32,
    record: Seq<u8>,
    protocol: Seq<char>,
)
    requires
        forall|s: u32| m.streams.contains_key(s) ==> !(#[trigger] m.streams[s].state
            is HalfClosedLocal),
    ensures
        ({
            let none = |after: MuxerView|
                forall|s: u32| after.streams.contains_key(s) ==> !(#[trigger] after.streams[s].state
                    is HalfClosedLocal);
            &&& none(m.open(protocol).0)
            &&& none(m.confirm(id).0)
            &&& none(m.close(id).0)
            &&& none(m.reset(id).0)
            &&& none(m.accept().0)
            &&& none(m.read(id).0)
            &&& none(m.dispatch(record).0)
        }),
{
}

/// A stream keeps the side that opened it: no operation and no record
/// moves an id from one side to the other, or takes it out of the table,
/// while the session lasts.
pub proof fn lemma_origin_is_kept(m: MuxerView, id: u32, other: u32, record: Seq<u8>)
    requires
        m.wf(),
        m.streams.contains_key(id),
    ensures
        ({
            let kept = |after: MuxerView|
                !after.terminated ==> after.streams.contains_key(id) && after.streams[id].local
                    == m.streams[id].local;
            &&& kept(m.confirm(other).0)
            &&& kept(m.close(other).0)
            &&& kept(m.reset(other).0)
            &&& kept(m.accept().0)
            &&& kept(m.read(other).0)
            &&& kept(m.dispatch(record).0)
            &&& forall|protocol: Seq<char>| kept(#[trigger] m.open(protocol).0)
        }),
{
    assert forall|protocol: Seq<char>|
        !(#[trigger] m.open(protocol).0).terminated implies m.open(protocol).0.streams.contains_key(
        id,
    ) && m.open(protocol).0.streams[id].local == m.streams[id].local by {
        lemma_first_free_is_least(m.streams.dom(), m.next_id);
    }
}

} // verus!
