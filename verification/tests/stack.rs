use p2p_transport::catalogue::{supported_protocols, Category};
use p2p_transport::connection::{Event, Stage};
use p2p_transport::muxer::{Dispatch, Inbox, Muxer};
use p2p_transport::negotiation::{Negotiator, Status};
use p2p_transport::ping::{ping_request, pong_reply};
use p2p_transport::session::{generate_static_keypair, EncryptedStream, Handshake, Turn};

/// Runs a negotiation; `carry` takes a line from one side to the other.
fn negotiate(
    candidates: Vec<Vec<u8>>,
    supported: Vec<Vec<u8>>,
    carry: &mut dyn FnMut(bool, Vec<u8>) -> Vec<u8>,
) -> (Status, Status) {
    let mut i = Negotiator::new(true, candidates).unwrap();
    let mut r = Negotiator::new(false, supported).unwrap();
    let mut in_flight = i.opening();
    while let Some(line) = in_flight.take() {
        let answer = r.on_line(&carry(true, line));
        match answer.send {
            Some(back) => in_flight = i.on_line(&carry(false, back)).send,
            None => break,
        }
    }
    (i.status(), r.status())
}

fn handshake() -> (EncryptedStream, EncryptedStream) {
    let mut i = Handshake::new(true, &generate_static_keypair().unwrap().private).unwrap();
    let mut r = Handshake::new(false, &generate_static_keypair().unwrap().private).unwrap();
    let mut messages = 0;
    loop {
        match (i.turn(), r.turn()) {
            (Turn::Send, Turn::Receive) => r.read_message(&i.write_message().unwrap()).unwrap(),
            (Turn::Receive, Turn::Send) => i.read_message(&r.write_message().unwrap()).unwrap(),
            (Turn::Finished, Turn::Finished) => break,
            other => panic!("handshake out of step: {:?}", other),
        }
        messages += 1;
    }
    assert_eq!(messages, 3);
    (i.into_transport_mode().unwrap(), r.into_transport_mode().unwrap())
}

#[test]
fn whole_stack_ping() {
    let catalogue = supported_protocols();
    let mut stage_i = Stage::start();
    let mut stage_r = Stage::start();

    let (i, r) = negotiate(
        catalogue.provided(Category::Security),
        catalogue.provided(Category::Security),
        &mut |_, line| line,
    );
    assert_eq!(i, r);
    let agreed = match i {
        Status::Agreed(id) => id,
        other => panic!("no security protocol: {:?}", other),
    };
    assert_eq!(agreed, b"/noise/xx".to_vec());
    stage_i = stage_i.advance(Event::Agreed(&agreed));
    stage_r = stage_r.advance(Event::Agreed(&agreed));
    assert_eq!(stage_i, Stage::Handshake);

    let (mut si, mut sr) = handshake();
    stage_i = stage_i.advance(Event::Secured);
    stage_r = stage_r.advance(Event::Secured);

    let hello = si.send(b"hello").unwrap();
    assert_eq!(sr.recv(&hello).unwrap(), b"hello".to_vec());

    let (i, r) = negotiate(
        catalogue.provided(Category::Multiplexing),
        catalogue.provided(Category::Multiplexing),
        &mut |to_responder, line| {
            if to_responder {
                let record = si.send(&line).unwrap();
                sr.recv(&record).unwrap()
            } else {
                let record = sr.send(&line).unwrap();
                si.recv(&record).unwrap()
            }
        },
    );
    assert_eq!(i, Status::Agreed(b"/mplex".to_vec()));
    assert_eq!(r, Status::Agreed(b"/mplex".to_vec()));
    stage_i = stage_i.advance(Event::Agreed(b"/mplex"));
    stage_r = stage_r.advance(Event::Agreed(b"/mplex"));
    assert_eq!(stage_i, Stage::Running);
    assert_eq!(stage_r, Stage::Running);

    let mut mi = Muxer::new(true);
    let mut mr = Muxer::new(false);
    let (id, open) = mi.open_stream("/ping/1.0.0").unwrap();
    let record = si.send(&open).unwrap();
    mi.confirm_open(id).unwrap();
    assert!(matches!(mr.on_record(&sr.recv(&record).unwrap()), Dispatch::Incoming { stream_id: 1 }));
    let (accepted, protocol) = mr.accept_stream().unwrap().unwrap();
    assert_eq!((accepted, protocol.as_str()), (1, "/ping/1.0.0"));

    let ping = mi.send_data(id, &ping_request(b"hi")).unwrap();
    let record = si.send(&ping).unwrap();
    assert!(matches!(mr.on_record(&sr.recv(&record).unwrap()), Dispatch::Delivered { stream_id: 1 }));
    let asked = match mr.read_inbox(1).unwrap() {
        Inbox::Data(b) => b,
        other => panic!("no ping: {:?}", other),
    };
    assert_eq!(&asked[..], b"PING hi\n");
    let pong = mr.send_data(1, &pong_reply(&asked).unwrap()).unwrap();
    let record = sr.send(&pong).unwrap();
    assert!(matches!(mi.on_record(&si.recv(&record).unwrap()), Dispatch::Delivered { stream_id: 1 }));
    match mi.read_inbox(1).unwrap() {
        Inbox::Data(b) => assert_eq!(&b[..], b"PONG hi\n"),
        other => panic!("no pong: {:?}", other),
    }
    assert_eq!(si.sending_nonce(), 5);
    assert_eq!(sr.receiving_nonce(), 5);
    assert_eq!(sr.sending_nonce(), 3);
    assert_eq!(si.receiving_nonce(), 3);
    assert_eq!(stage_i.advance(Event::Quit).exit_code(), 0);
}

#[test]
fn session_failure_tears_the_muxer_down() {
    let (mut si, mut sr) = handshake();
    let mut mr = Muxer::new(false);
    let mut mi = Muxer::new(true);
    let (_, open) = mi.open_stream("/x").unwrap();
    let mut record = si.send(&open).unwrap();
    let last = record.len() - 1;
    record[last] ^= 0x80;
    assert!(sr.recv(&record).is_err());
    mr.terminate();
    assert!(mr.is_terminated());
    assert!(matches!(mr.read_inbox(1), Ok(Inbox::EndOfStream)));
}

#[test]
fn two_endpoints_with_the_built_in_catalogue_reach_the_muxer() {
    let catalogue = supported_protocols();
    let mut stage_i = Stage::start();
    let mut stage_r = Stage::start();
    for category in [Category::Security, Category::Multiplexing] {
        assert_eq!(stage_i.category(), Some(category));
        let (i, r) = negotiate(
            catalogue.provided(category),
            catalogue.provided(category),
            &mut |_, line| line,
        );
        assert_eq!(i, r);
        let agreed = match i {
            Status::Agreed(id) => id,
            other => panic!("no agreement: {:?}", other),
        };
        stage_i = stage_i.advance(Event::Agreed(&agreed));
        stage_r = stage_r.advance(Event::Agreed(&agreed));
        if category == Category::Security {
            assert_eq!(stage_i, Stage::Handshake);
            stage_i = stage_i.advance(Event::Secured);
            stage_r = stage_r.advance(Event::Secured);
        }
    }
    assert_eq!(stage_i, Stage::Running);
    assert_eq!(stage_r, Stage::Running);
}

#[test]
fn the_whole_listing_would_agree_on_what_is_not_provided() {
    let catalogue = supported_protocols();
    let (i, r) = negotiate(
        catalogue.candidates(Category::Multiplexing),
        catalogue.candidates(Category::Multiplexing),
        &mut |_, line| line,
    );
    assert_eq!(i, Status::Agreed(b"/yamux{unimplemented}".to_vec()));
    assert_eq!(r, i);
    let stage = Stage::MuxNegotiation.advance(Event::Agreed(b"/yamux{unimplemented}"));
    assert_eq!(stage.exit_code(), 1);
}
