use p2p_transport::catalogue::{is_provided, supported_protocols, Category};
use p2p_transport::connection::{select_muxer, select_security, Event, MuxProtocol, SecurityProtocol, Stage};
use p2p_transport::error::StackError;
use p2p_transport::frame::FrameDecodeError;
use p2p_transport::text::{bytes_eq, str_eq, trim};

#[test]
fn built_in_catalogue() {
    let c = supported_protocols();
    assert_eq!(c.security, vec!["/noise/xx", "/tls{unimplemented}"]);
    assert_eq!(c.protocol, vec!["/ping/1.0.0"]);
    assert_eq!(c.multiplexing, vec!["/yamux{unimplemented}", "/mplex"]);
    assert_eq!(c.get(Category::Security), &vec!["/noise/xx", "/tls{unimplemented}"]);
    assert_eq!(c.get(Category::Multiplexing), &vec!["/yamux{unimplemented}", "/mplex"]);
    assert_eq!(c.get(Category::Protocol), &vec!["/ping/1.0.0"]);
}

#[test]
fn catalogue_lookup_by_name() {
    let c = supported_protocols();
    assert_eq!(c.lookup("security"), Some(&vec!["/noise/xx", "/tls{unimplemented}"]));
    assert_eq!(c.lookup("protocol"), Some(&vec!["/ping/1.0.0"]));
    assert_eq!(c.lookup("multiplexing"), Some(&vec!["/yamux{unimplemented}", "/mplex"]));
    assert_eq!(c.lookup("Security"), None);
    assert_eq!(c.lookup(""), None);
    assert_eq!(Category::from_name("multiplexing"), Some(Category::Multiplexing));
    assert_eq!(Category::from_name("mux"), None);
    assert_eq!(Category::Security.name(), "security");
    assert_eq!(Category::Multiplexing.name(), "multiplexing");
    assert_eq!(Category::Protocol.name(), "protocol");
}

#[test]
fn candidates_are_the_octets_in_order() {
    let c = supported_protocols();
    assert_eq!(
        c.candidates(Category::Multiplexing),
        vec![b"/yamux{unimplemented}".to_vec(), b"/mplex".to_vec()]
    );
    assert_eq!(c.candidates(Category::Protocol), vec![b"/ping/1.0.0".to_vec()]);
}

#[test]
fn dispatch_on_the_agreed_protocol() {
    assert_eq!(select_security(b"/noise/xx"), Ok(SecurityProtocol::NoiseXx));
    assert_eq!(select_security(b"/tls{unimplemented}"), Err(StackError::NotImplemented));
    assert_eq!(select_security(b""), Err(StackError::NotImplemented));
    assert_eq!(select_muxer(b"/mplex"), Ok(MuxProtocol::Mplex));
    assert_eq!(select_muxer(b"/yamux"), Err(StackError::NotImplemented));
    assert_eq!(select_muxer(b"/yamux{unimplemented}"), Err(StackError::NotImplemented));
    assert_eq!(select_muxer(b"/mplex "), Err(StackError::NotImplemented));
}

#[test]
fn bring_up_runs_through_its_stages() {
    let s = Stage::start();
    assert_eq!(s, Stage::SecurityNegotiation);
    assert_eq!(s.category(), Some(Category::Security));
    let s = s.advance(Event::Agreed(b"/noise/xx"));
    assert_eq!(s, Stage::Handshake);
    assert_eq!(s.category(), None);
    let s = s.advance(Event::Secured);
    assert_eq!(s, Stage::MuxNegotiation);
    assert_eq!(s.category(), Some(Category::Multiplexing));
    let s = s.advance(Event::Agreed(b"/mplex"));
    assert_eq!(s, Stage::Running);
    assert!(!s.is_over());
    assert_eq!(s.exit_code(), 0);
    let s = s.advance(Event::Quit);
    assert_eq!(s, Stage::Closed);
    assert!(s.is_over());
    assert_eq!(s.exit_code(), 0);
    assert_eq!(s.advance(Event::Failure(StackError::Transport)), Stage::Closed);
}

#[test]
fn bring_up_aborts_with_exit_code_one() {
    let s = Stage::start().advance(Event::Failure(StackError::UnsupportedNegotiation));
    assert_eq!(s, Stage::Failed(StackError::UnsupportedNegotiation));
    assert_eq!(s.exit_code(), 1);
    let s = Stage::MuxNegotiation.advance(Event::Agreed(b"/yamux"));
    assert_eq!(s, Stage::Failed(StackError::NotImplemented));
    assert_eq!(s.exit_code(), 1);
    let s = Stage::Handshake.advance(Event::Failure(StackError::HandshakeFailed));
    assert_eq!(s.exit_code(), 1);
    assert_eq!(s.advance(Event::Secured), s);
    let s = Stage::SecurityNegotiation.advance(Event::Agreed(b"/tls{unimplemented}"));
    assert_eq!(s, Stage::Failed(StackError::NotImplemented));
}

#[test]
fn unexpected_events_leave_the_stage() {
    assert_eq!(Stage::SecurityNegotiation.advance(Event::Secured), Stage::SecurityNegotiation);
    assert_eq!(Stage::Handshake.advance(Event::Agreed(b"/mplex")), Stage::Handshake);
    assert_eq!(Stage::Running.advance(Event::Agreed(b"/mplex")), Stage::Running);
}

#[test]
fn which_failures_end_the_connection() {
    assert!(StackError::Transport.is_fatal());
    assert!(StackError::UnsupportedNegotiation.is_fatal());
    assert!(StackError::NoAgreement.is_fatal());
    assert!(StackError::HandshakeFailed.is_fatal());
    assert!(StackError::SessionTerminated.is_fatal());
    assert!(StackError::FrameDecode(FrameDecodeError::TooShort).is_fatal());
    assert!(StackError::NotImplemented.is_fatal());
    assert!(!StackError::InvalidState.is_fatal());
    assert!(!StackError::ProtocolViolation.is_fatal());
    assert!(!StackError::PayloadTooLarge.is_fatal());
}

#[test]
fn text_helpers() {
    assert!(bytes_eq(b"abc", b"abc"));
    assert!(!bytes_eq(b"abc", b"abd"));
    assert!(!bytes_eq(b"abc", b"ab"));
    assert!(bytes_eq(b"", b""));
    assert!(str_eq("/mplex", "/mplex"));
    assert!(!str_eq("/mplex", "/Mplex"));
    assert_eq!(trim(b"  hi there \r\n"), b"hi there");
    assert_eq!(trim(b"\t\x0b\x0c"), b"");
    assert_eq!(trim(b""), b"");
    assert_eq!(trim(b"x"), b"x");
    assert_eq!(trim(b"\0 x \0"), b"\0 x \0");
}

#[test]
fn trim_takes_off_what_unicode_calls_white_space() {
    let spaces = [
        "\u{9}", "\u{a}", "\u{b}", "\u{c}", "\u{d}", " ", "\u{85}", "\u{a0}", "\u{1680}",
        "\u{2000}", "\u{2001}", "\u{2005}", "\u{200a}", "\u{2028}", "\u{2029}", "\u{202f}",
        "\u{205f}", "\u{3000}",
    ];
    for sp in spaces {
        let text = format!("{sp}{sp}a{sp}b{sp}");
        assert_eq!(trim(text.as_bytes()), text.trim().as_bytes());
        assert_eq!(trim(text.as_bytes()), format!("a{sp}b").as_bytes());
        assert_eq!(trim(sp.as_bytes()), b"");
    }
    for not_space in ["\u{200b}", "\u{feff}", "\u{2060}", "\u{180e}", "\u{84}", "\u{e9}", "\u{200c}"] {
        let text = format!("{not_space}a{not_space}");
        assert_eq!(trim(text.as_bytes()), text.trim().as_bytes());
        assert_eq!(trim(text.as_bytes()), text.as_bytes());
    }
    assert_eq!(trim(&[0xc2]), &[0xc2]);
    assert_eq!(trim(&[0xe2, 0x80]), &[0xe2, 0x80]);
    assert_eq!(trim(&[0x85, b'a', 0xa0]), &[0x85, b'a', 0xa0]);
}

#[test]
fn provided_lists_hold_what_the_endpoint_can_run() {
    let c = supported_protocols();
    assert_eq!(c.provided(Category::Security), vec![b"/noise/xx".to_vec()]);
    assert_eq!(c.provided(Category::Multiplexing), vec![b"/mplex".to_vec()]);
    assert_eq!(c.provided(Category::Protocol), vec![b"/ping/1.0.0".to_vec()]);
    assert!(is_provided(Category::Security, b"/noise/xx"));
    assert!(!is_provided(Category::Security, b"/tls{unimplemented}"));
    assert!(is_provided(Category::Multiplexing, b"/mplex"));
    assert!(!is_provided(Category::Multiplexing, b"/yamux{unimplemented}"));
    assert!(!is_provided(Category::Multiplexing, b"/noise/xx"));
    assert!(is_provided(Category::Protocol, b"/anything"));
}

#[test]
fn provided_keeps_the_order_of_the_listing() {
    let mut c = supported_protocols();
    c.multiplexing = vec!["/mplex", "/yamux", "/mplex", "/other"];
    assert_eq!(c.provided(Category::Multiplexing), vec![b"/mplex".to_vec(), b"/mplex".to_vec()]);
    c.security = vec![];
    assert!(c.provided(Category::Security).is_empty());
    c.protocol = vec!["/b", "/a"];
    assert_eq!(c.provided(Category::Protocol), vec![b"/b".to_vec(), b"/a".to_vec()]);
}
