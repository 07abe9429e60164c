//! The secure session: a Noise XX handshake, then sealed records.
//!
//! Both halves are driven from outside. A [`Handshake`] says whose turn it
//! is, writes the message to send and reads the message that came; once it
//! is finished it becomes an [`EncryptedStream`], which seals each outgoing
//! plaintext into one record and opens each incoming record.

use crate::error::StackError;
use crate::noise::{
    build_initiator, build_responder, generate_keypair, handshake_length_of,
    handshake_my_turn_of, handshake_position_of, handshake_reads, opened_by, receiving_nonce_of,
    sealed_by, sending_nonce_of, xx_pattern, KEY_LEN, MAX_MESSAGE, TAG_LEN,
};
use snow::{HandshakeState, TransportState};
use vstd::prelude::*;

verus! {

/// The largest plaintext of one record: 65535 less the 16 octets that the
/// cipher adds.
pub const MAX_PLAINTEXT: usize = 65519;

/// The messages of a Noise XX handshake.
pub const HANDSHAKE_MESSAGES: u8 = 3;

/// The Noise protocol that both sides run.
pub fn noise_pattern() -> (name: &'static str)
    ensures
        name@ == xx_pattern(),
{
    "Noise_XX_25519_ChaChaPoly_BLAKE2s"
}

/// What every handshake message carries as payload: nothing.
pub fn handshake_payload() -> (payload: Vec<u8>)
    ensures
        payload@ == Seq::<u8>::empty(),
{
    Vec::new()
}

/// A static key pair of the 25519 curve.
#[derive(Debug, Clone)]
pub struct Keypair {
    pub private: Vec<u8>,
    pub public: Vec<u8>,
}

impl Keypair {
    /// The key pair made of what the engine drew, private key first: the
    /// pair as drawn where both keys are 32 octets long, and
    /// `HandshakeFailed` where they are not or the engine drew none.
    pub fn from_drawn(drawn: Option<(Vec<u8>, Vec<u8>)>) -> (r: Result<Keypair, StackError>)
        ensures
            match drawn {
                Some((private, public)) if private@.len() == KEY_LEN && public@.len() == KEY_LEN
                    => r matches Ok(pair) && pair.private == private && pair.public == public,
                _ => r matches Err(e) && e == StackError::HandshakeFailed,
            },
    {
        match drawn {
            Some((private, public)) => {
                if private.len() == KEY_LEN && public.len() == KEY_LEN {
                    Ok(Keypair { private, public })
                } else {
                    Err(StackError::HandshakeFailed)
                }
            },
            None => Err(StackError::HandshakeFailed),
        }
    }
}

/// Draws a fresh static key pair. Fails with `HandshakeFailed` when the
/// engine has none to give or gives keys that are not 32 octets long.
pub fn generate_static_keypair() -> (r: Result<Keypair, StackError>)
    ensures
        match r {
            Ok(pair) => pair.private@.len() == KEY_LEN && pair.public@.len() == KEY_LEN,
            Err(e) => e == StackError::HandshakeFailed,
        },
{
    let drawn = match generate_keypair(noise_pattern()) {
        Ok(pair) => Some(pair),
        Err(_) => None,
    };
    Keypair::from_drawn(drawn)
}

/// What a handshake asks of its driver next.
#[derive(Debug, Clone, Copy, PartialEq, Eq, Structural)]
pub enum Turn {
    /// Write the next message and send it.
    Send,
    /// Read one record and hand it in.
    Receive,
    /// All three messages are through: enter transport mode.
    Finished,
    /// A step failed: close the transport.
    Failed,
}

/// A handshake as a mathematical value.
pub struct HandshakeView {
    pub initiator: bool,
    /// The messages that the engine has written or read, 0 to 3.
    pub step: int,
    /// The messages in the engine's pattern.
    pub messages: int,
    /// Whether the engine is the one to write the next message.
    pub engine_turn: bool,
    pub failed: bool,
}

impl HandshakeView {
    /// A handshake before its first message.
    pub open spec fn fresh(initiator: bool) -> HandshakeView {
        HandshakeView {
            initiator,
            step: 0,
            messages: HANDSHAKE_MESSAGES as int,
            engine_turn: initiator,
            failed: false,
        }
    }

    /// Whether this side writes message number `step`, counted from zero:
    /// the initiator writes the first and the third, the responder the
    /// second.
    pub open spec fn writes(self) -> bool {
        self.initiator == (self.step % 2 == 0)
    }

    /// What holds of every handshake that the operations can reach: the
    /// engine runs a pattern of three messages, and until they are through
    /// it takes the turns that the sides take.
    pub open spec fn wf(self) -> bool {
        &&& self.messages == HANDSHAKE_MESSAGES
        &&& 0 <= self.step <= self.messages
        &&& self.step < self.messages ==> self.engine_turn == self.writes()
    }

    /// What the handshake asks of its driver next.
    pub open spec fn turn(self) -> Turn {
        if self.failed {
            Turn::Failed
        } else if self.step >= self.messages {
            Turn::Finished
        } else if self.writes() {
            Turn::Send
        } else {
            Turn::Receive
        }
    }

    /// Whether a message is due in the direction `expected`.
    pub open spec fn is_due(self, expected: Turn) -> bool {
        self.turn() == expected && (expected is Send || expected is Receive)
    }

    /// The handshake after a step in the direction `expected`, given
    /// whether the engine carried the step out: one message further, with
    /// the turn on the other side, where the step was due and the engine
    /// carried it out; failed in every other case.
    pub open spec fn after(self, expected: Turn, engine_ok: bool) -> HandshakeView {
        if self.is_due(expected) && engine_ok {
            HandshakeView { step: self.step + 1, engine_turn: expected is Receive, ..self }
        } else {
            HandshakeView { failed: true, ..self }
        }
    }
}

/// One side of a Noise XX handshake.
pub struct Handshake {
    noise: HandshakeState,
    initiator: bool,
    failed: bool,
}

impl View for Handshake {
    type V = HandshakeView;

    closed spec fn view(&self) -> HandshakeView {
        HandshakeView {
            initiator: self.initiator,
            step: handshake_position_of(self.noise) as int,
            messages: handshake_length_of(self.noise) as int,
            engine_turn: handshake_my_turn_of(self.noise),
            failed: self.failed,
        }
    }
}

/// A secure session as a mathematical value.
pub struct SessionView {
    /// The Noise nonce of the next record to seal.
    pub sending_nonce: int,
    /// The Noise nonce of the next record to open.
    pub receiving_nonce: int,
    pub terminated: bool,
}

impl SessionView {
    /// A session right after the handshake.
    pub open spec fn fresh() -> SessionView {
        SessionView { sending_nonce: 0, receiving_nonce: 0, terminated: false }
    }

    /// The session after an attempt to seal a plaintext of `len` octets,
    /// given whether the engine sealed it: with the sending nonce one
    /// further, or terminated. A session that has ended, and a plaintext
    /// that no record can hold, leave it as it is.
    pub open spec fn after_send(self, len: nat, engine_ok: bool) -> SessionView {
        if self.terminated || len > MAX_PLAINTEXT {
            self
        } else if engine_ok {
            SessionView { sending_nonce: self.sending_nonce + 1, ..self }
        } else {
            SessionView { terminated: true, ..self }
        }
    }

    /// What `send` answers where it gives no record.
    pub open spec fn send_error(self, len: nat) -> StackError {
        if self.terminated {
            StackError::SessionTerminated
        } else if len > MAX_PLAINTEXT {
            StackError::PayloadTooLarge
        } else {
            StackError::SessionTerminated
        }
    }

    /// The session after an attempt to open a record, given whether the
    /// engine opened it: with the receiving nonce one further, or
    /// terminated. A session that has ended stays as it is.
    pub open spec fn after_recv(self, engine_ok: bool) -> SessionView {
        if self.terminated {
            self
        } else if engine_ok {
            SessionView { receiving_nonce: self.receiving_nonce + 1, ..self }
        } else {
            SessionView { terminated: true, ..self }
        }
    }
}

/// The sealed duplex channel that a finished handshake leaves behind.
pub struct EncryptedStream {
    noise: TransportState,
    terminated: bool,
}

impl View for EncryptedStream {
    type V = SessionView;

    closed spec fn view(&self) -> SessionView {
        SessionView {
            sending_nonce: sending_nonce_of(self.noise) as int,
            receiving_nonce: receiving_nonce_of(self.noise) as int,
            terminated: self.terminated,
        }
    }
}

impl Handshake {
    /// Whether the engine, as it stands, reads `record` as the next
    /// handshake message.
    pub closed spec fn reads(&self, record: Seq<u8>) -> bool {
        handshake_reads(self.noise, record)
    }

    /// One side of a handshake, with `local_private` as its static key. It
    /// succeeds exactly for a key of 32 octets; for any other the answer is
    /// `HandshakeFailed`.
    pub fn new(initiator: bool, local_private: &[u8]) -> (r: Result<Handshake, StackError>)
        ensures
            r is Ok <==> local_private@.len() == KEY_LEN,
            match r {
                Ok(h) => h@ == HandshakeView::fresh(initiator) && h@.wf(),
                Err(e) => e == StackError::HandshakeFailed,
            },
    {
        if local_private.len() != KEY_LEN {
            return Err(StackError::HandshakeFailed);
        }
        let built = if initiator {
            build_initiator(noise_pattern(), local_private)
        } else {
            build_responder(noise_pattern(), local_private)
        };
        match built {
            Ok(noise) => Ok(Handshake { noise, initiator, failed: false }),
            Err(_) => Err(StackError::HandshakeFailed),
        }
    }

    /// Whether this side sends first.
    pub fn is_initiator(&self) -> (b: bool)
        ensures
            b == self@.initiator,
    {
        self.initiator
    }

    /// What the handshake asks of its driver next.
    pub fn turn(&self) -> (t: Turn)
        requires
            self@.wf(),
        ensures
            t == self@.turn(),
    {
        if self.failed {
            Turn::Failed
        } else if self.noise.is_handshake_finished() {
            Turn::Finished
        } else if self.noise.is_my_turn() {
            Turn::Send
        } else {
            Turn::Receive
        }
    }

    /// Settles a step once the engine has been asked, or has not: `due`
    /// says whether the step was this side's to take, and `outcome` is what
    /// the engine gave, `None` where it failed or was not asked. A step
    /// that was due and that the engine carried out gives what the engine
    /// gave; in every other case the handshake has failed. The engine is
    /// left as it is.
    pub fn settle(&mut self, due: bool, outcome: Option<Vec<u8>>) -> (r: Result<
        Vec<u8>,
        StackError,
    >)
        ensures
            final(self)@ == (HandshakeView {
                failed: old(self)@.failed || !due || outcome is None,
                ..old(self)@
            }),
            r == if due {
                match outcome {
                    Some(octets) => Ok::<Vec<u8>, StackError>(octets),
                    None => Err(StackError::HandshakeFailed),
                }
            } else {
                Err(StackError::HandshakeFailed)
            },
    {
        match outcome {
            Some(octets) => {
                if due {
                    Ok(octets)
                } else {
                    self.failed = true;
                    Err(StackError::HandshakeFailed)
                }
            },
            None => {
                self.failed = true;
                Err(StackError::HandshakeFailed)
            },
        }
    }

    /// Writes the next handshake message, with an empty payload, and gives
    /// it as one record to send. A success takes the engine one message
    /// further. Out of turn the engine is not asked; then, and when the
    /// engine fails, the handshake has failed and the answer is
    /// `HandshakeFailed`.
    pub fn write_message(&mut self) -> (r: Result<Vec<u8>, StackError>)
        requires
            old(self)@.wf(),
        ensures
            final(self)@.wf(),
            final(self)@ == old(self)@.after(Turn::Send, r is Ok),
            r matches Ok(record) ==> record@.len() <= MAX_MESSAGE,
            r matches Err(e) ==> e == StackError::HandshakeFailed,
            old(self)@.turn() != Turn::Send ==> r is Err,
    {
        if self.turn() != Turn::Send {
            return self.settle(false, None);
        }
        let payload = handshake_payload();
        let mut buf: Vec<u8> = vec![0u8; MAX_MESSAGE];
        let outcome = match self.noise.write_message(payload.as_slice(), buf.as_mut_slice()) {
            Ok(n) => {
                buf.truncate(n);
                Some(buf)
            },
            Err(_) => None,
        };
        self.settle(true, outcome)
    }

    /// Reads the handshake message in `record`. What the message carries
    /// as payload is dropped. It succeeds exactly when it is this side's
    /// turn to read and the engine reads the record; a success takes the
    /// engine one message further. Out of turn the engine is not asked;
    /// then, and when the engine refuses the message, the handshake has
    /// failed and the answer is `HandshakeFailed`.
    pub fn read_message(&mut self, record: &[u8]) -> (r: Result<(), StackError>)
        requires
            old(self)@.wf(),
        ensures
            r is Ok <==> old(self)@.turn() == Turn::Receive && old(self).reads(record@),
            final(self)@.wf(),
            final(self)@ == old(self)@.after(Turn::Receive, r is Ok),
            r matches Err(e) ==> e == StackError::HandshakeFailed,
            old(self)@.turn() != Turn::Receive || record@.len() > MAX_MESSAGE ==> r is Err,
    {
        if self.turn() != Turn::Receive {
            return match self.settle(false, None) {
                Ok(_) => Ok(()),
                Err(e) => Err(e),
            };
        }
        let mut buf: Vec<u8> = vec![0u8; MAX_MESSAGE];
        let outcome = match self.noise.read_message(record, buf.as_mut_slice()) {
            Ok(_) => Some(Vec::new()),
            Err(_) => None,
        };
        match self.settle(true, outcome) {
            Ok(_) => Ok(()),
            Err(e) => Err(e),
        }
    }

    /// Turns a finished handshake into the secure session, whose nonces
    /// both start at zero. It succeeds exactly when all three messages are
    /// through and no step has failed; otherwise the answer is
    /// `HandshakeFailed`.
    pub fn into_transport_mode(self) -> (r: Result<EncryptedStream, StackError>)
        requires
            self@.wf(),
        ensures
            r is Ok <==> self@.turn() == Turn::Finished,
            r matches Ok(session) ==> session@ == SessionView::fresh(),
            r matches Err(e) ==> e == StackError::HandshakeFailed,
    {
        if self.turn() != Turn::Finished {
            return Err(StackError::HandshakeFailed);
        }
        match self.noise.into_transport_mode() {
            Ok(noise) => Ok(EncryptedStream { noise, terminated: false }),
            Err(_) => Err(StackError::HandshakeFailed),
        }
    }
}

impl EncryptedStream {
    /// The record that the session seals `msg` into; `None` where the
    /// engine refuses to seal it.
    pub closed spec fn seals(&self, msg: Seq<u8>) -> Option<Seq<u8>> {
        sealed_by(self.noise, msg)
    }

    /// The plaintext that the session opens `record` to; `None` where the
    /// engine refuses the record.
    pub closed spec fn opens(&self, record: Seq<u8>) -> Option<Seq<u8>> {
        opened_by(self.noise, record)
    }

    /// Whether the session has ended.
    pub fn is_terminated(&self) -> (b: bool)
        ensures
            b == self@.terminated,
    {
        self.terminated
    }

    /// The Noise nonce of the next record to seal.
    pub fn sending_nonce(&self) -> (n: u64)
        ensures
            n == self@.sending_nonce,
    {
        self.noise.sending_nonce()
    }

    /// The Noise nonce of the next record to open.
    pub fn receiving_nonce(&self) -> (n: u64)
        ensures
            n == self@.receiving_nonce,
    {
        self.noise.receiving_nonce()
    }

    /// Ends the session, as when the byte transport has closed. Every later
    /// `send` and `recv` fails with `SessionTerminated`.
    pub fn terminate(&mut self)
        ensures
            final(self)@ == (SessionView { terminated: true, ..old(self)@ }),
    {
        self.terminated = true;
    }

    /// Concludes a `send` or a `recv` once the engine has been asked:
    /// `outcome` is what the engine gave, `None` where it refused. What the
    /// engine gave is the answer; a refusal ends the session and the answer
    /// is `SessionTerminated`. The engine is left as it is.
    pub fn conclude(&mut self, outcome: Option<Vec<u8>>) -> (r: Result<Vec<u8>, StackError>)
        ensures
            final(self)@ == (SessionView {
                terminated: old(self)@.terminated || outcome is None,
                ..old(self)@
            }),
            forall|octets: Seq<u8>| final(self).seals(octets) == old(self).seals(octets),
            forall|octets: Seq<u8>| final(self).opens(octets) == old(self).opens(octets),
            r == match outcome {
                Some(octets) => Ok::<Vec<u8>, StackError>(octets),
                None => Err(StackError::SessionTerminated),
            },
    {
        match outcome {
            Some(octets) => Ok(octets),
            None => {
                self.terminated = true;
                Err(StackError::SessionTerminated)
            },
        }
    }

    /// Seals `msg` into one record and gives the record to write.
    ///
    /// It succeeds exactly when the session has not ended, `msg` has at
    /// most `MAX_PLAINTEXT` octets and the engine seals it; the record is
    /// what the engine seals `msg` into, 16 octets longer than `msg`. Every
    /// success moves the sending nonce on by exactly one and leaves the
    /// receiving nonce alone. Fails with `SessionTerminated` once the
    /// session has ended, and with `PayloadTooLarge`, the session left as
    /// it is, for more than `MAX_PLAINTEXT` octets. When the engine refuses
    /// the session ends and the answer is `SessionTerminated`.
    pub fn send(&mut self, msg: &[u8]) -> (r: Result<Vec<u8>, StackError>)
        ensures
            r is Ok <==> !old(self)@.terminated && msg@.len() <= MAX_PLAINTEXT && old(self).seals(
                msg@,
            ) is Some,
            r matches Ok(record) ==> {
                &&& Some(record@) == old(self).seals(msg@)
                &&& record@.len() == msg@.len() + TAG_LEN
                &&& final(self)@.sending_nonce == old(self)@.sending_nonce + 1
                &&& final(self)@.receiving_nonce == old(self)@.receiving_nonce
            },
            r matches Err(e) ==> e == old(self)@.send_error(msg@.len()),
            final(self)@ == old(self)@.after_send(msg@.len(), r is Ok),
    {
        if self.terminated {
            return Err(StackError::SessionTerminated);
        }
        if msg.len() > MAX_PLAINTEXT {
            return Err(StackError::PayloadTooLarge);
        }
        let mut buf: Vec<u8> = vec![0u8; MAX_MESSAGE];
        let outcome = match self.noise.write_message(msg, buf.as_mut_slice()) {
            Ok(n) => {
                buf.truncate(n);
                Some(buf)
            },
            Err(_) => None,
        };
        self.conclude(outcome)
    }

    /// Opens one record and gives the plaintext in it.
    ///
    /// It succeeds exactly when the session has not ended and the engine
    /// opens the record; the plaintext is what the engine opens the record
    /// to, 16 octets shorter than the record. Every success moves the
    /// receiving nonce on by exactly one and leaves the sending nonce
    /// alone. A record that does not open is fatal: the session ends and
    /// the answer is `SessionTerminated`, as it is for every call after
    /// that.
    pub fn recv(&mut self, record: &[u8]) -> (r: Result<Vec<u8>, StackError>)
        ensures
            r is Ok <==> !old(self)@.terminated && old(self).opens(record@) is Some,
            r matches Ok(plaintext) ==> {
                &&& Some(plaintext@) == old(self).opens(record@)
                &&& plaintext@.len() + TAG_LEN == record@.len()
                &&& record@.len() <= MAX_MESSAGE
                &&& final(self)@.receiving_nonce == old(self)@.receiving_nonce + 1
                &&& final(self)@.sending_nonce == old(self)@.sending_nonce
            },
            r matches Err(e) ==> e == StackError::SessionTerminated,
            final(self)@ == old(self)@.after_recv(r is Ok),
    {
        if self.terminated {
            return Err(StackError::SessionTerminated);
        }
        let mut buf: Vec<u8> = vec![0u8; MAX_MESSAGE];
        let outcome = match self.noise.read_message(record, buf.as_mut_slice()) {
            Ok(n) => {
                buf.truncate(n);
                Some(buf)
            },
            Err(_) => None,
        };
        self.conclude(outcome)
    }
}

} // verus!
