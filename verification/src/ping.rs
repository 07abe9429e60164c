//! The ping application: a line `PING <text>` is answered by the same line
//! with every `PING` turned into `PONG`.

use crate::text::{trim, trimmed, BLANK, NEWLINE};
use vstd::prelude::*;
use vstd::slice::slice_to_vec;

verus! {

/// The octet of the letter `P`.
pub const LETTER_P: u8 = 80;

/// The octet of the letter `I`.
pub const LETTER_I: u8 = 73;

/// The octet of the letter `N`.
pub const LETTER_N: u8 = 78;

/// The octet of the letter `G`.
pub const LETTER_G: u8 = 71;

/// The octet of the letter `O`.
pub const LETTER_O: u8 = 79;

/// Whether the word `PING` stands in `s` at index `at`.
pub open spec fn ping_at(s: Seq<u8>, at: int) -> bool {
    &&& 0 <= at
    &&& at + 4 <= s.len()
    &&& s[at] == LETTER_P
    &&& s[at + 1] == LETTER_I
    &&& s[at + 2] == LETTER_N
    &&& s[at + 3] == LETTER_G
}

/// `s` with every `PING` turned into `PONG`: the `I` of each one becomes an
/// `O`, and nothing else changes.
pub open spec fn ponged(s: Seq<u8>) -> Seq<u8> {
    Seq::new(
        s.len(),
        |j: int|
            if ping_at(s, j - 1) {
                LETTER_O
            } else {
                s[j]
            },
    )
}

/// The line that asks for a pong: `PING`, a blank, `input` without the
/// white space around it, and a newline.
pub open spec fn spec_ping_request(input: Seq<u8>) -> Seq<u8> {
    seq![LETTER_P, LETTER_I, LETTER_N, LETTER_G, BLANK] + trimmed(input) + seq![NEWLINE]
}

/// The answer to a message: for a message that, without the white space
/// around it, starts with `PING`, that message with every `PING` turned
/// into `PONG` and a newline after it; for any other message none.
pub open spec fn spec_pong_reply(msg: Seq<u8>) -> Option<Seq<u8>> {
    if ping_at(trimmed(msg), 0) {
        Some(ponged(trimmed(msg)) + seq![NEWLINE])
    } else {
        None
    }
}

/// The echo of a payload on a stream: for a payload that, without the
/// white space around it, starts with `PING`, the payload as it came with
/// every `PING` turned into `PONG`; for any other payload none.
pub open spec fn spec_pong_echo(msg: Seq<u8>) -> Option<Seq<u8>> {
    if ping_at(trimmed(msg), 0) {
        Some(ponged(msg))
    } else {
        None
    }
}

fn has_ping_at(s: &[u8], at: usize) -> (b: bool)
    ensures
        b == ping_at(s@, at as int),
{
    at <= s.len() && s.len() - at >= 4 && s[at] == LETTER_P && s[at + 1] == LETTER_I && s[at + 2]
        == LETTER_N && s[at + 3] == LETTER_G
}

/// The line that asks for a pong about `input`.
pub fn ping_request(input: &[u8]) -> (line: Vec<u8>)
    ensures
        line@ == spec_ping_request(input@),
{
    let text = trim(input);
    let mut line: Vec<u8> = vec![LETTER_P, LETTER_I, LETTER_N, LETTER_G, BLANK];
    line.extend_from_slice(text);
    line.push(NEWLINE);
    assert(line@ =~= spec_ping_request(input@));
    line
}

/// `text` with every `PING` turned into `PONG`.
pub fn replace_pings(text: &[u8]) -> (line: Vec<u8>)
    ensures
        line@ == ponged(text@),
{
    let mut line = slice_to_vec(text);
    let mut i: usize = 1;
    while i < text.len()
        invariant
            1 <= i,
            line@.len() == text@.len(),
            forall|j: int| 0 <= j < i && j < text@.len() ==> line@[j] == ponged(text@)[j],
            forall|j: int| i <= j < text@.len() ==> line@[j] == text@[j],
        decreases text@.len() - i,
    {
        if has_ping_at(text, i - 1) {
            line.set(i, LETTER_O);
        }
        i = i + 1;
    }
    assert(line@ =~= ponged(text@));
    line
}

/// The answer to `msg`, if it asks for one: `msg` without the white space
/// around it, with every `PING` turned into `PONG`, and a newline.
pub fn pong_reply(msg: &[u8]) -> (reply: Option<Vec<u8>>)
    ensures
        match reply {
            Some(line) => spec_pong_reply(msg@) == Some(line@),
            None => spec_pong_reply(msg@) is None,
        },
{
    let text = trim(msg);
    if !has_ping_at(text, 0) {
        return None;
    }
    let mut line = replace_pings(text);
    line.push(NEWLINE);
    Some(line)
}

/// The echo of a payload on a stream, if it asks for one: for a payload
/// that, without the white space around it, starts with `PING`, the
/// payload as it came with every `PING` turned into `PONG`; for any other
/// payload none.
pub fn pong_echo(msg: &[u8]) -> (echo: Option<Vec<u8>>)
    ensures
        match echo {
            Some(payload) => spec_pong_echo(msg@) == Some(payload@),
            None => spec_pong_echo(msg@) is None,
        },
{
    if !has_ping_at(trim(msg), 0) {
        return None;
    }
    Some(replace_pings(msg))
}

} // verus!
