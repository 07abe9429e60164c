//! The Noise engine of the `snow` crate, as verified code sees it.
//!
//! A handshake state and a transport state are opaque to the verifier. Of a
//! handshake state the contracts below name the position in the pattern,
//! the length of the pattern, whose turn it is, and whether it reads a
//! message. Of a transport state
//! they name the two counters that the engine keeps, one per direction,
//! and what it seals a payload into and opens a record to: those are fixed
//! by the state and the octets handed in, whatever the keys in the state
//! are. Of a handshake message they claim a bound on its length only: it
//! carries a key drawn at random.

use snow::{Builder, HandshakeState, TransportState};
use vstd::prelude::*;

verus! {

#[verifier::external_type_specification]
#[verifier::external_body]
pub struct ExHandshakeState(HandshakeState);

#[verifier::external_type_specification]
#[verifier::external_body]
pub struct ExTransportState(TransportState);

#[verifier::external_type_specification]
#[verifier::external_body]
pub struct ExNoiseError(snow::Error);

/// The largest Noise message, in octets.
pub const MAX_MESSAGE: usize = 65535;

/// Octets that the cipher adds to a plaintext.
pub const TAG_LEN: usize = 16;

/// Octets in a static private key of the 25519 curve.
pub const KEY_LEN: usize = 32;

/// The nonce under which a transport state seals its next record.
pub uninterp spec fn sending_nonce_of(state: TransportState) -> u64;

/// The nonce under which a transport state opens its next record.
pub uninterp spec fn receiving_nonce_of(state: TransportState) -> u64;

/// The record that a transport state seals `payload` into, given room for
/// it; `None` where the state refuses to seal it.
pub uninterp spec fn sealed_by(state: TransportState, payload: Seq<u8>) -> Option<Seq<u8>>;

/// The plaintext that a transport state opens the record `message` to,
/// given room for it; `None` where the state refuses the record.
pub uninterp spec fn opened_by(state: TransportState, message: Seq<u8>) -> Option<Seq<u8>>;

/// The number of handshake messages that a handshake state has written or
/// read.
pub uninterp spec fn handshake_position_of(state: HandshakeState) -> nat;

/// The number of handshake messages in the pattern of a handshake state.
pub uninterp spec fn handshake_length_of(state: HandshakeState) -> nat;

/// Whether a handshake state is the one to write the next message.
pub uninterp spec fn handshake_my_turn_of(state: HandshakeState) -> bool;

/// Whether a handshake state, given room for what the message carries,
/// reads `message` as its next handshake message.
pub uninterp spec fn handshake_reads(state: HandshakeState, message: Seq<u8>) -> bool;

/// The name of the Noise protocol with the XX pattern, whose handshake has
/// three messages.
pub open spec fn xx_pattern() -> Seq<char> {
    "Noise_XX_25519_ChaChaPoly_BLAKE2s"@
}

/// `TransportState::sending_nonce` reads the counter of the sending
/// direction.
pub assume_specification[ TransportState::sending_nonce ](state: &TransportState) -> (n: u64)
    ensures
        n == sending_nonce_of(*state),
;

/// `TransportState::receiving_nonce` reads the counter of the receiving
/// direction.
pub assume_specification[ TransportState::receiving_nonce ](state: &TransportState) -> (n: u64)
    ensures
        n == receiving_nonce_of(*state),
;

/// `TransportState::write_message` seals `payload` into the front of
/// `message` and gives the length of the record. It succeeds exactly where
/// the state seals the payload and the record fits in `message`. Under the
/// ciphers of the engine's own resolver a record is 16 octets longer than
/// its payload, and none is sealed that would pass 65535 octets. A success
/// moves the sending counter on by one; a failure leaves it; the receiving
/// counter is never touched.
pub assume_specification[ TransportState::write_message ](
    state: &mut TransportState,
    payload: &[u8],
    message: &mut [u8],
) -> (r: Result<usize, snow::Error>)
    ensures
        final(message)@.len() == old(message)@.len(),
        r is Ok <==> sealed_by(*old(state), payload@) is Some && payload@.len() + TAG_LEN <= old(
            message,
        )@.len(),
        r matches Ok(n) ==> n <= old(message)@.len() && Some(
            final(message)@.subrange(0, n as int),
        ) == sealed_by(*old(state), payload@),
        sealed_by(*old(state), payload@) matches Some(record) ==> record.len() == payload@.len()
            + TAG_LEN,
        payload@.len() + TAG_LEN > MAX_MESSAGE ==> sealed_by(*old(state), payload@) is None,
        r is Ok ==> sending_nonce_of(*final(state)) == sending_nonce_of(*old(state)) + 1,
        r is Err ==> sending_nonce_of(*final(state)) == sending_nonce_of(*old(state)),
        receiving_nonce_of(*final(state)) == receiving_nonce_of(*old(state)),
;

/// `TransportState::read_message` opens the record `message` into the
/// front of `payload` and gives the length of the plaintext. It succeeds
/// exactly where the state opens the record and the plaintext fits in
/// `payload`. A plaintext is 16 octets shorter than its record, and no
/// record of more than 65535 octets is opened. A success moves the
/// receiving counter on by one; a failure leaves it; the sending counter is
/// never touched.
pub assume_specification[ TransportState::read_message ](
    state: &mut TransportState,
    message: &[u8],
    payload: &mut [u8],
) -> (r: Result<usize, snow::Error>)
    ensures
        final(payload)@.len() == old(payload)@.len(),
        r is Ok <==> opened_by(*old(state), message@) is Some && message@.len() <= old(
            payload,
        )@.len() + TAG_LEN,
        r matches Ok(n) ==> n <= old(payload)@.len() && Some(
            final(payload)@.subrange(0, n as int),
        ) == opened_by(*old(state), message@),
        opened_by(*old(state), message@) matches Some(plaintext) ==> plaintext.len() + TAG_LEN
            == message@.len(),
        message@.len() > MAX_MESSAGE ==> opened_by(*old(state), message@) is None,
        r is Ok ==> receiving_nonce_of(*final(state)) == receiving_nonce_of(*old(state)) + 1,
        r is Err ==> receiving_nonce_of(*final(state)) == receiving_nonce_of(*old(state)),
        sending_nonce_of(*final(state)) == sending_nonce_of(*old(state)),
;

/// `HandshakeState::is_my_turn` says whether this side writes the next
/// message.
pub assume_specification[ HandshakeState::is_my_turn ](state: &HandshakeState) -> (mine: bool)
    ensures
        mine == handshake_my_turn_of(*state),
;

/// `HandshakeState::is_handshake_finished` says whether every message of
/// the pattern is through.
pub assume_specification[ HandshakeState::is_handshake_finished ](state: &HandshakeState) -> (done:
    bool)
    ensures
        done == (handshake_position_of(*state) == handshake_length_of(*state)),
;

/// `HandshakeState::write_message` writes the next handshake message, with
/// `payload` in it, into `message`. With room for the largest Noise message
/// it does not panic; a message that it gives has at most 65535 octets. It
/// fails out of turn and after the last message. A success moves the
/// position on by one and hands the turn to the peer; a failure leaves
/// both.
pub assume_specification[ HandshakeState::write_message ](
    state: &mut HandshakeState,
    payload: &[u8],
    message: &mut [u8],
) -> (r: Result<usize, snow::Error>)
    requires
        old(message)@.len() >= MAX_MESSAGE,
    ensures
        final(message)@.len() == old(message)@.len(),
        r matches Ok(n) ==> n <= MAX_MESSAGE,
        handshake_length_of(*final(state)) == handshake_length_of(*old(state)),
        !handshake_my_turn_of(*old(state)) || handshake_position_of(*old(state))
            >= handshake_length_of(*old(state)) ==> r is Err,
        r is Ok ==> handshake_position_of(*final(state)) == handshake_position_of(*old(state)) + 1
            && !handshake_my_turn_of(*final(state)),
        r is Err ==> handshake_position_of(*final(state)) == handshake_position_of(*old(state))
            && handshake_my_turn_of(*final(state)) == handshake_my_turn_of(*old(state)),
;

/// `HandshakeState::read_message` reads the next handshake message from
/// `message` and writes what it carried into `payload`. Reading draws
/// nothing at random: with room for the largest Noise message, whether it
/// succeeds is fixed by the state and the message. It fails on a message
/// of more than 65535 octets, out of turn and after the last message. A
/// success moves the position on by one and takes the turn; a failure
/// leaves both.
pub assume_specification[ HandshakeState::read_message ](
    state: &mut HandshakeState,
    message: &[u8],
    payload: &mut [u8],
) -> (r: Result<usize, snow::Error>)
    ensures
        final(payload)@.len() == old(payload)@.len(),
        old(payload)@.len() >= MAX_MESSAGE ==> (r is Ok <==> handshake_reads(
            *old(state),
            message@,
        )),
        handshake_length_of(*final(state)) == handshake_length_of(*old(state)),
        message@.len() > MAX_MESSAGE || handshake_my_turn_of(*old(state)) || handshake_position_of(
            *old(state),
        ) >= handshake_length_of(*old(state)) ==> r is Err,
        r is Ok ==> handshake_position_of(*final(state)) == handshake_position_of(*old(state)) + 1
            && handshake_my_turn_of(*final(state)),
        r is Err ==> handshake_position_of(*final(state)) == handshake_position_of(*old(state))
            && handshake_my_turn_of(*final(state)) == handshake_my_turn_of(*old(state)),
;

/// `HandshakeState::into_transport_mode` turns a handshake into a
/// transport state. It succeeds exactly where every message of the pattern
/// is through. Both counters of the transport state start at zero.
pub assume_specification[ HandshakeState::into_transport_mode ](state: HandshakeState) -> (r:
    Result<TransportState, snow::Error>)
    ensures
        r is Ok <==> handshake_position_of(state) == handshake_length_of(state),
        r matches Ok(transport) ==> sending_nonce_of(transport) == 0 && receiving_nonce_of(
            transport,
        ) == 0,
;

/// `NoiseParams::from_str`, `Builder::new`, `Builder::local_private_key`
/// and `Builder::build_initiator`: a handshake state for the side that
/// sends first, for the Noise protocol called `pattern` and with
/// `local_private` as the static key. A key of at most 32 octets is copied
/// without panic. A state that comes back stands before its first message
/// with the turn on this side. For the XX protocol, whose every part the
/// engine's own resolver provides, a state does come back, and its pattern
/// has three messages.
#[verifier::external_body]
pub(crate) fn build_initiator(pattern: &str, local_private: &[u8]) -> (r: Result<
    HandshakeState,
    snow::Error,
>)
    requires
        local_private@.len() <= KEY_LEN,
    ensures
        pattern@ == xx_pattern() ==> r is Ok,
        r matches Ok(state) ==> {
            &&& handshake_position_of(state) == 0
            &&& handshake_my_turn_of(state)
            &&& pattern@ == xx_pattern() ==> handshake_length_of(state) == 3
        },
{
    Builder::new(pattern.parse()?).local_private_key(local_private)?.build_initiator()
}

/// `NoiseParams::from_str`, `Builder::new`, `Builder::local_private_key`
/// and `Builder::build_responder`: a handshake state for the side that
/// reads first, for the Noise protocol called `pattern` and with
/// `local_private` as the static key. A key of at most 32 octets is copied
/// without panic. A state that comes back stands before its first message
/// with the turn on the peer's side. For the XX protocol, whose every part
/// the engine's own resolver provides, a state does come back, and its
/// pattern has three messages.
#[verifier::external_body]
pub(crate) fn build_responder(pattern: &str, local_private: &[u8]) -> (r: Result<
    HandshakeState,
    snow::Error,
>)
    requires
        local_private@.len() <= KEY_LEN,
    ensures
        pattern@ == xx_pattern() ==> r is Ok,
        r matches Ok(state) ==> {
            &&& handshake_position_of(state) == 0
            &&& !handshake_my_turn_of(state)
            &&& pattern@ == xx_pattern() ==> handshake_length_of(state) == 3
        },
{
    Builder::new(pattern.parse()?).local_private_key(local_private)?.build_responder()
}

/// `NoiseParams::from_str`, `Builder::new` and `Builder::generate_keypair`:
/// a fresh static key pair for the Noise protocol called `pattern`, private
/// key first. The keys are drawn at random: nothing is claimed of them.
#[verifier::external_body]
pub(crate) fn generate_keypair(pattern: &str) -> (r: Result<(Vec<u8>, Vec<u8>), snow::Error>) {
    let pair = Builder::new(pattern.parse()?).generate_keypair()?;
    Ok((pair.private, pair.public))
}

} // verus!
