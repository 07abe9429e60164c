use p2p_transport::command::{parse_command, parse_id, split_word, Command};
use p2p_transport::ping::{ping_request, pong_echo, pong_reply, replace_pings};
use p2p_transport::shell::{Action, Shell};

#[test]
fn ping_request_wraps_the_trimmed_input() {
    assert_eq!(ping_request(b"hi"), b"PING hi\n".to_vec());
    assert_eq!(ping_request(b"  hi there \n"), b"PING hi there\n".to_vec());
    assert_eq!(ping_request(b""), b"PING \n".to_vec());
}

#[test]
fn pong_reply_turns_ping_into_pong() {
    assert_eq!(pong_reply(b"PING hi\n"), Some(b"PONG hi\n".to_vec()));
    assert_eq!(pong_reply(b"  PING A-3  \r\n"), Some(b"PONG A-3\n".to_vec()));
    assert_eq!(pong_reply(b"PING"), Some(b"PONG\n".to_vec()));
    assert_eq!(pong_reply(b"PING PING xPINGy PIN"), Some(b"PONG PONG xPONGy PIN\n".to_vec()));
    assert_eq!(pong_reply(b"PINGPING"), Some(b"PONGPONG\n".to_vec()));
}

#[test]
fn pong_reply_is_for_pings_only() {
    assert_eq!(pong_reply(b"hello PING"), None);
    assert_eq!(pong_reply(b"ping hi"), None);
    assert_eq!(pong_reply(b"PIN"), None);
    assert_eq!(pong_reply(b""), None);
    assert_eq!(pong_reply(b"PONG hi"), None);
}

#[test]
fn ids_are_decimal_numbers_of_32_bits() {
    assert_eq!(parse_id(b"0"), Some(0));
    assert_eq!(parse_id(b"1"), Some(1));
    assert_eq!(parse_id(b"007"), Some(7));
    assert_eq!(parse_id(b"+5"), Some(5));
    assert_eq!(parse_id(b"4294967295"), Some(u32::MAX));
    assert_eq!(parse_id(b"4294967296"), None);
    assert_eq!(parse_id(b"99999999999999999999999999"), None);
    assert_eq!(parse_id(b""), None);
    assert_eq!(parse_id(b"+"), None);
    assert_eq!(parse_id(b"-1"), None);
    assert_eq!(parse_id(b"1a"), None);
    assert_eq!(parse_id(b"a1"), None);
    assert_eq!(parse_id(b"1 "), None);
    assert_eq!(parse_id(b"++1"), None);
}

#[test]
fn words_are_cut_at_the_first_blank() {
    assert_eq!(split_word(b"/send 1 hi there"), (&b"/send"[..], &b"1 hi there"[..]));
    assert_eq!(split_word(b"/list"), (&b"/list"[..], &b""[..]));
    assert_eq!(split_word(b" x"), (&b""[..], &b"x"[..]));
    assert_eq!(split_word(b"x "), (&b"x"[..], &b""[..]));
    assert_eq!(split_word(b""), (&b""[..], &b""[..]));
}

#[test]
fn commands_parse() {
    assert_eq!(parse_command(b""), Command::Empty);
    assert_eq!(parse_command(b"   \n"), Command::Empty);
    assert_eq!(
        parse_command(b"/open /ping/1.0.0\n"),
        Command::Open { protocol: b"/ping/1.0.0".to_vec() }
    );
    assert_eq!(parse_command(b"/open"), Command::OpenUsage);
    assert_eq!(parse_command(b"/open  /ping/1.0.0"), Command::OpenUsage);
    assert_eq!(
        parse_command(b"/open /a ignored words"),
        Command::Open { protocol: b"/a".to_vec() }
    );
    assert_eq!(
        parse_command(b"/send 3 hello world  \n"),
        Command::Send { stream_id: 3, message: b"hello world".to_vec() }
    );
    assert_eq!(parse_command(b"/send 3"), Command::SendUsage);
    assert_eq!(parse_command(b"/send"), Command::SendUsage);
    assert_eq!(parse_command(b"/send  3 x"), Command::SendUsage);
    assert_eq!(parse_command(b"/send x hello"), Command::InvalidId { text: b"x".to_vec() });
    assert_eq!(parse_command(b"/close 5"), Command::Close { stream_id: 5 });
    assert_eq!(parse_command(b"/close"), Command::CloseUsage);
    assert_eq!(parse_command(b"/close five"), Command::InvalidId { text: b"five".to_vec() });
    assert_eq!(parse_command(b"/list"), Command::List);
    assert_eq!(parse_command(b"  /quit  "), Command::Quit);
    assert_eq!(parse_command(b"/nope 1 2"), Command::Unknown { verb: b"/nope".to_vec() });
    assert_eq!(parse_command(b"/OPEN x"), Command::Unknown { verb: b"/OPEN".to_vec() });
}

#[test]
fn shell_sends_only_on_streams_it_has_open() {
    let mut shell = Shell::new();
    assert_eq!(shell.on_line(b"/send 1 hi"), Action::UnknownStream { stream_id: 1 });
    assert_eq!(shell.on_line(b"/close 1"), Action::UnknownStream { stream_id: 1 });
    assert_eq!(shell.on_line(b"/open /chat"), Action::Open { protocol: b"/chat".to_vec() });
    shell.opened(1, b"/chat");
    assert!(shell.is_open(1));
    assert_eq!(shell.open_count(), 1);
    assert_eq!(
        shell.on_line(b"/send 1 hi there"),
        Action::Send { stream_id: 1, payload: b"hi there\n".to_vec() }
    );
    assert_eq!(shell.on_line(b"/close 1"), Action::Close { stream_id: 1 });
    shell.closed(1);
    assert!(!shell.is_open(1));
    assert_eq!(shell.on_line(b"/send 1 hi"), Action::UnknownStream { stream_id: 1 });
    assert!(shell.open_streams().is_empty());
}

#[test]
fn shell_asks_for_the_ping_message_after_a_ping_stream() {
    let mut shell = Shell::new();
    assert_eq!(
        shell.on_line(b"/open /ping/1.0.0"),
        Action::Open { protocol: b"/ping/1.0.0".to_vec() }
    );
    shell.opened(1, b"/ping/1.0.0");
    assert_eq!(
        shell.on_line(b" hi \n"),
        Action::Send { stream_id: 1, payload: b"PING hi\n".to_vec() }
    );
    assert_eq!(shell.on_line(b"/list"), Action::List);
    shell.opened(3, b"/ping/1.0.0");
    assert_eq!(shell.on_line(b"  \n"), Action::NoMessage);
    assert_eq!(shell.on_line(b"/quit"), Action::Quit);
}

#[test]
fn shell_explains_what_it_cannot_carry_out() {
    let mut shell = Shell::new();
    assert_eq!(shell.on_line(b""), Action::Nothing);
    assert_eq!(shell.on_line(b"/open"), Action::Explain { command: Command::OpenUsage });
    assert_eq!(shell.on_line(b"/send 1"), Action::Explain { command: Command::SendUsage });
    assert_eq!(shell.on_line(b"/close"), Action::Explain { command: Command::CloseUsage });
    assert_eq!(
        shell.on_line(b"/close x"),
        Action::Explain { command: Command::InvalidId { text: b"x".to_vec() } }
    );
    assert_eq!(
        shell.on_line(b"hello"),
        Action::Explain { command: Command::Unknown { verb: b"hello".to_vec() } }
    );
}

#[test]
fn pong_echo_answers_the_payload_as_it_came() {
    assert_eq!(pong_echo(b"PING hi\n"), Some(b"PONG hi\n".to_vec()));
    assert_eq!(pong_echo(b"  PING A-3  \r\n"), Some(b"  PONG A-3  \r\n".to_vec()));
    assert_eq!(pong_echo(b"PING"), Some(b"PONG".to_vec()));
    assert_eq!(pong_echo(b"\tPING PING x"), Some(b"\tPONG PONG x".to_vec()));
    assert_eq!(pong_echo(b"hello PING"), None);
    assert_eq!(pong_echo(b""), None);
    assert_eq!(replace_pings(b"xPINGPINGy PIN G"), b"xPONGPONGy PIN G".to_vec());
    assert_eq!(replace_pings(b""), Vec::<u8>::new());
}

#[test]
fn pong_echo_is_what_text_replacement_gives() {
    for msg in ["PING hi\n", " PING a PING b ", "\u{a0}PING\u{3000}", "PINGPINGPING", "pING", "x"] {
        let expected = if msg.trim().starts_with("PING") {
            Some(msg.replace("PING", "PONG").into_bytes())
        } else {
            None
        };
        assert_eq!(pong_echo(msg.as_bytes()), expected);
        let reply = if msg.trim().starts_with("PING") {
            Some(format!("{}\n", msg.trim().replace("PING", "PONG")).into_bytes())
        } else {
            None
        };
        assert_eq!(pong_reply(msg.as_bytes()), reply);
    }
}

#[test]
fn commands_are_trimmed_of_unicode_white_space() {
    assert_eq!(parse_command("\u{a0}/quit\u{2003}".as_bytes()), Command::Quit);
    assert_eq!(parse_command("\u{3000}\u{85}".as_bytes()), Command::Empty);
    assert_eq!(
        parse_command("/send 1 \u{2028}hi\u{a0}".as_bytes()),
        Command::Send { stream_id: 1, message: b"hi".to_vec() }
    );
}
