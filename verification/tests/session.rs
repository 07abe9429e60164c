use p2p_transport::error::StackError;
use p2p_transport::session::{
    generate_static_keypair, handshake_payload, noise_pattern, EncryptedStream, Handshake, Keypair,
    Turn,
};

fn handshake_pair() -> (EncryptedStream, EncryptedStream) {
    let ik = generate_static_keypair().unwrap();
    let rk = generate_static_keypair().unwrap();
    let mut i = Handshake::new(true, &ik.private).unwrap();
    let mut r = Handshake::new(false, &rk.private).unwrap();
    assert_eq!(i.turn(), Turn::Send);
    assert_eq!(r.turn(), Turn::Receive);
    let m1 = i.write_message().unwrap();
    r.read_message(&m1).unwrap();
    assert_eq!(i.turn(), Turn::Receive);
    assert_eq!(r.turn(), Turn::Send);
    let m2 = r.write_message().unwrap();
    i.read_message(&m2).unwrap();
    let m3 = i.write_message().unwrap();
    r.read_message(&m3).unwrap();
    assert_eq!(i.turn(), Turn::Finished);
    assert_eq!(r.turn(), Turn::Finished);
    (i.into_transport_mode().unwrap(), r.into_transport_mode().unwrap())
}

#[test]
fn hello_crosses_the_secure_session() {
    let (mut i, mut r) = handshake_pair();
    let record = i.send(b"hello").unwrap();
    assert_ne!(&record[..], b"hello");
    assert_eq!(record.len(), 5 + 16);
    assert_eq!(r.recv(&record).unwrap(), b"hello".to_vec());
}

#[test]
fn nonces_move_by_one_per_success() {
    let (mut i, mut r) = handshake_pair();
    assert_eq!(i.sending_nonce(), 0);
    assert_eq!(i.receiving_nonce(), 0);
    let a = i.send(b"a").unwrap();
    assert_eq!(i.sending_nonce(), 1);
    assert_eq!(i.receiving_nonce(), 0);
    let b = i.send(b"b").unwrap();
    assert_eq!(i.sending_nonce(), 2);
    r.recv(&a).unwrap();
    assert_eq!(r.receiving_nonce(), 1);
    assert_eq!(r.sending_nonce(), 0);
    r.recv(&b).unwrap();
    assert_eq!(r.receiving_nonce(), 2);
}

#[test]
fn bad_record_terminates_the_session() {
    let (mut i, mut r) = handshake_pair();
    let mut record = i.send(b"hello").unwrap();
    record[0] ^= 1;
    assert_eq!(r.recv(&record), Err(StackError::SessionTerminated));
    assert!(r.is_terminated());
    assert_eq!(r.receiving_nonce(), 0);
    let good = i.send(b"again").unwrap();
    assert_eq!(r.recv(&good), Err(StackError::SessionTerminated));
    assert_eq!(r.send(b"x"), Err(StackError::SessionTerminated));
}

#[test]
fn oversize_plaintext_is_refused_without_harm() {
    let (mut i, mut r) = handshake_pair();
    let big = vec![0u8; 65520];
    assert_eq!(i.send(&big), Err(StackError::PayloadTooLarge));
    assert!(!i.is_terminated());
    assert_eq!(i.sending_nonce(), 0);
    let most = vec![7u8; 65519];
    let record = i.send(&most).unwrap();
    assert_eq!(record.len(), 65535);
    assert_eq!(r.recv(&record).unwrap(), most);
}

#[test]
fn handshake_out_of_turn_fails() {
    let k = generate_static_keypair().unwrap();
    let mut r = Handshake::new(false, &k.private).unwrap();
    assert_eq!(r.write_message(), Err(StackError::HandshakeFailed));
    assert_eq!(r.turn(), Turn::Failed);
    assert!(r.into_transport_mode().is_err());
}

#[test]
fn handshake_rejects_garbage_message() {
    let k = generate_static_keypair().unwrap();
    let mut r = Handshake::new(false, &k.private).unwrap();
    assert_eq!(r.read_message(&[1, 2, 3]), Err(StackError::HandshakeFailed));
    assert_eq!(r.turn(), Turn::Failed);
}

#[test]
fn handshake_needs_a_32_octet_key() {
    assert!(Handshake::new(true, &[0u8; 31]).is_err());
    assert!(Handshake::new(true, &[0u8; 33]).is_err());
    assert!(Handshake::new(true, &[9u8; 32]).is_ok());
}

#[test]
fn unfinished_handshake_gives_no_session() {
    let k = generate_static_keypair().unwrap();
    let i = Handshake::new(true, &k.private).unwrap();
    assert!(i.into_transport_mode().is_err());
}

#[test]
fn keypairs_are_32_octets_and_differ() {
    let a = generate_static_keypair().unwrap();
    let b = generate_static_keypair().unwrap();
    assert_eq!(a.private.len(), 32);
    assert_eq!(a.public.len(), 32);
    assert_ne!(a.private, b.private);
}

#[test]
fn handshake_messages_have_the_lengths_of_noise_xx() {
    let ik = generate_static_keypair().unwrap();
    let rk = generate_static_keypair().unwrap();
    let mut i = Handshake::new(true, &ik.private).unwrap();
    let mut r = Handshake::new(false, &rk.private).unwrap();
    assert!(i.is_initiator());
    assert!(!r.is_initiator());
    let m1 = i.write_message().unwrap();
    assert_eq!(m1.len(), 32);
    r.read_message(&m1).unwrap();
    let m2 = r.write_message().unwrap();
    assert_eq!(m2.len(), 32 + 48 + 16);
    i.read_message(&m2).unwrap();
    let m3 = i.write_message().unwrap();
    assert_eq!(m3.len(), 48 + 16);
    r.read_message(&m3).unwrap();
    assert_eq!(i.write_message(), Err(StackError::HandshakeFailed));
    assert_eq!(i.turn(), Turn::Failed);
}

#[test]
fn pattern_and_payload_of_the_handshake() {
    assert_eq!(noise_pattern(), "Noise_XX_25519_ChaChaPoly_BLAKE2s");
    assert!(handshake_payload().is_empty());
}

#[test]
fn settle_fixes_the_answer_for_every_outcome() {
    let k = generate_static_keypair().unwrap();
    let mut h = Handshake::new(true, &k.private).unwrap();
    assert_eq!(h.settle(true, Some(vec![1, 2])), Ok(vec![1, 2]));
    assert_eq!(h.turn(), Turn::Send);
    assert_eq!(h.settle(true, None), Err(StackError::HandshakeFailed));
    assert_eq!(h.turn(), Turn::Failed);
    let mut h = Handshake::new(true, &k.private).unwrap();
    assert_eq!(h.settle(false, Some(vec![1])), Err(StackError::HandshakeFailed));
    assert_eq!(h.turn(), Turn::Failed);
    let mut h = Handshake::new(false, &k.private).unwrap();
    assert_eq!(h.settle(false, None), Err(StackError::HandshakeFailed));
    assert_eq!(h.turn(), Turn::Failed);
}

#[test]
fn conclude_fixes_the_answer_for_every_outcome() {
    let (mut i, _) = handshake_pair();
    assert_eq!(i.conclude(Some(vec![9, 8, 7])), Ok(vec![9, 8, 7]));
    assert!(!i.is_terminated());
    assert_eq!(i.sending_nonce(), 0);
    assert_eq!(i.conclude(None), Err(StackError::SessionTerminated));
    assert!(i.is_terminated());
    assert_eq!(i.conclude(Some(vec![1])), Ok(vec![1]));
    assert!(i.is_terminated());
}

#[test]
fn key_pairs_are_taken_as_drawn_when_32_octets_long() {
    let pair = Keypair::from_drawn(Some((vec![1u8; 32], vec![2u8; 32]))).unwrap();
    assert_eq!(pair.private, vec![1u8; 32]);
    assert_eq!(pair.public, vec![2u8; 32]);
    assert_eq!(
        Keypair::from_drawn(Some((vec![1u8; 31], vec![2u8; 32]))).unwrap_err(),
        StackError::HandshakeFailed
    );
    assert_eq!(
        Keypair::from_drawn(Some((vec![1u8; 32], vec![2u8; 33]))).unwrap_err(),
        StackError::HandshakeFailed
    );
    assert_eq!(Keypair::from_drawn(None).unwrap_err(), StackError::HandshakeFailed);
}

#[test]
fn records_are_16_octets_longer_than_their_plaintext() {
    let (mut i, mut r) = handshake_pair();
    for len in [0usize, 1, 100, 4096] {
        let msg = vec![0x42u8; len];
        let record = i.send(&msg).unwrap();
        assert_eq!(record.len(), len + 16);
        let back = r.recv(&record).unwrap();
        assert_eq!(back, msg);
    }
    assert_eq!(r.recv(&[0u8; 15]), Err(StackError::SessionTerminated));
}

#[test]
fn terminate_ends_the_session() {
    let (mut i, _) = handshake_pair();
    i.terminate();
    assert!(i.is_terminated());
    assert_eq!(i.send(b"x"), Err(StackError::SessionTerminated));
    let big = vec![0u8; 70000];
    assert_eq!(i.send(&big), Err(StackError::SessionTerminated));
    assert_eq!(i.sending_nonce(), 0);
}

#[test]
fn a_handshake_comes_for_every_key_of_32_octets() {
    for key in [[0u8; 32], [0xffu8; 32], [7u8; 32]] {
        assert!(Handshake::new(true, &key).is_ok());
        assert!(Handshake::new(false, &key).is_ok());
    }
    for len in [0usize, 1, 31, 33, 64] {
        assert!(Handshake::new(true, &vec![1u8; len]).is_err());
    }
}

#[test]
fn a_message_that_the_engine_refuses_fails_the_read() {
    let ik = generate_static_keypair().unwrap();
    let rk = generate_static_keypair().unwrap();
    let mut i = Handshake::new(true, &ik.private).unwrap();
    let mut r = Handshake::new(false, &rk.private).unwrap();
    let m1 = i.write_message().unwrap();
    assert_eq!(r.read_message(&m1), Ok(()));
    let mut m2 = r.write_message().unwrap();
    m2[40] ^= 1;
    assert_eq!(i.read_message(&m2), Err(StackError::HandshakeFailed));
    assert_eq!(i.turn(), Turn::Failed);
    let mut late = Handshake::new(true, &ik.private).unwrap();
    assert_eq!(late.read_message(&m1), Err(StackError::HandshakeFailed));
}
