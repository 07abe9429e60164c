//! The line protocol of the interactive client: `/open <protocol>`,
//! `/send <id> <message>`, `/close <id>`, `/list` and `/quit`.
//!
//! A line is cut at its first two blanks into a verb, a second word and the
//! rest. [`parse_command`] reads one line; a [`Shell`] keeps the streams
//! that the user has open and turns each line into what to do next.

use crate::text::{bytes_eq, trim, trimmed, BLANK};
use vstd::prelude::*;
use vstd::slice::{slice_subrange, slice_to_vec};
use vstd::string::StringSliceAdditionalSpecFns;

verus! {

/// The octet of the digit zero.
pub const DIGIT_ZERO: u8 = 48;

/// The octet of the digit nine.
pub const DIGIT_NINE: u8 = 57;

/// The octet of the plus sign.
pub const PLUS: u8 = 43;

/// The number of octets of `s` before its first blank.
pub open spec fn first_blank(s: Seq<u8>) -> nat
    decreases s.len(),
{
    if s.len() == 0 || s[0] == BLANK {
        0
    } else {
        1 + first_blank(s.drop_first())
    }
}

/// The first word of `s`: what stands before its first blank.
pub open spec fn word(s: Seq<u8>) -> Seq<u8> {
    s.subrange(0, first_blank(s) as int)
}

/// What stands after the first blank of `s`; nothing where `s` has none.
pub open spec fn after_word(s: Seq<u8>) -> Seq<u8> {
    if first_blank(s) < s.len() {
        s.subrange(first_blank(s) as int + 1, s.len() as int)
    } else {
        Seq::empty()
    }
}

/// Whether an octet is a decimal digit.
pub open spec fn is_digit(b: u8) -> bool {
    DIGIT_ZERO <= b <= DIGIT_NINE
}

/// The number that a run of decimal digits spells.
pub open spec fn digits_value(s: Seq<u8>) -> nat
    decreases s.len(),
{
    if s.len() == 0 {
        0
    } else {
        digits_value(s.drop_last()) * 10 + (s.last() - DIGIT_ZERO) as nat
    }
}

/// The digits of a number as written: `s` without a plus sign in front.
pub open spec fn unsigned(s: Seq<u8>) -> Seq<u8> {
    if s.len() > 0 && s[0] == PLUS {
        s.drop_first()
    } else {
        s
    }
}

/// The stream id that `s` spells: one or more decimal digits, with or
/// without a plus sign in front, whose value fits 32 bits. `None` for
/// anything else.
pub open spec fn spec_parse_id(s: Seq<u8>) -> Option<u32> {
    let digits = unsigned(s);
    if digits.len() > 0 && (forall|j: int| 0 <= j < digits.len() ==> is_digit(#[trigger] digits[j]))
        && digits_value(digits) <= u32::MAX {
        Some(digits_value(digits) as u32)
    } else {
        None
    }
}

/// One line of the user, as a mathematical value.
pub enum CommandView {
    Empty,
    Open { protocol: Seq<u8> },
    OpenUsage,
    Send { stream_id: u32, message: Seq<u8> },
    SendUsage,
    Close { stream_id: u32 },
    CloseUsage,
    InvalidId { text: Seq<u8> },
    List,
    Quit,
    Unknown { verb: Seq<u8> },
}

/// One line of the user.
#[derive(Debug, Clone, PartialEq, Eq)]
pub enum Command {
    /// A line of white space only.
    Empty,
    /// `/open <protocol>`.
    Open { protocol: Vec<u8> },
    /// `/open` without a protocol.
    OpenUsage,
    /// `/send <id> <message>`; the message stands without the white space
    /// around it.
    Send { stream_id: u32, message: Vec<u8> },
    /// `/send` without an id or without a message.
    SendUsage,
    /// `/close <id>`.
    Close { stream_id: u32 },
    /// `/close` without an id.
    CloseUsage,
    /// `/send` or `/close` with an id that is no number of 32 bits.
    InvalidId { text: Vec<u8> },
    /// `/list`.
    List,
    /// `/quit`.
    Quit,
    /// A line that starts with any other word.
    Unknown { verb: Vec<u8> },
}

impl View for Command {
    type V = CommandView;

    open spec fn view(&self) -> CommandView {
        match self {
            Command::Empty => CommandView::Empty,
            Command::Open { protocol } => CommandView::Open { protocol: protocol@ },
            Command::OpenUsage => CommandView::OpenUsage,
            Command::Send { stream_id, message } => CommandView::Send {
                stream_id: *stream_id,
                message: message@,
            },
            Command::SendUsage => CommandView::SendUsage,
            Command::Close { stream_id } => CommandView::Close { stream_id: *stream_id },
            Command::CloseUsage => CommandView::CloseUsage,
            Command::InvalidId { text } => CommandView::InvalidId { text: text@ },
            Command::List => CommandView::List,
            Command::Quit => CommandView::Quit,
            Command::Unknown { verb } => CommandView::Unknown { verb: verb@ },
        }
    }
}

/// What `/send` and `/close` make of their second word.
pub open spec fn spec_with_id(second: Seq<u8>, then: spec_fn(u32) -> CommandView) -> CommandView {
    match spec_parse_id(second) {
        Some(id) => then(id),
        None => CommandView::InvalidId { text: second },
    }
}

/// The command that a line spells. The line is taken without the white
/// space around it and cut at its first two blanks into a verb, a second
/// word and the rest.
pub open spec fn spec_parse_command(line: Seq<u8>) -> CommandView {
    let text = trimmed(line);
    let verb = word(text);
    let second = word(after_word(text));
    let rest = after_word(after_word(text));
    if text.len() == 0 {
        CommandView::Empty
    } else if verb == "/open".spec_bytes() {
        if trimmed(second).len() == 0 {
            CommandView::OpenUsage
        } else {
            CommandView::Open { protocol: trimmed(second) }
        }
    } else if verb == "/send".spec_bytes() {
        if second.len() == 0 || trimmed(rest).len() == 0 {
            CommandView::SendUsage
        } else {
            spec_with_id(
                second,
                |id: u32| CommandView::Send { stream_id: id, message: trimmed(rest) },
            )
        }
    } else if verb == "/close".spec_bytes() {
        if second.len() == 0 {
            CommandView::CloseUsage
        } else {
            spec_with_id(second, |id: u32| CommandView::Close { stream_id: id })
        }
    } else if verb == "/list".spec_bytes() {
        CommandView::List
    } else if verb == "/quit".spec_bytes() {
        CommandView::Quit
    } else {
        CommandView::Unknown { verb }
    }
}

proof fn lemma_first_blank_is(s: Seq<u8>, n: int)
    requires
        0 <= n <= s.len(),
        forall|j: int| 0 <= j < n ==> #[trigger] s[j] != BLANK,
        n < s.len() ==> s[n] == BLANK,
    ensures
        first_blank(s) == n,
    decreases s.len(),
{
    if n > 0 {
        assert(s[0] != BLANK);
        let rest = s.drop_first();
        assert forall|j: int| 0 <= j < n - 1 implies #[trigger] rest[j] != BLANK by {
            assert(rest[j] == s[j + 1]);
        }
        lemma_first_blank_is(rest, n - 1);
    }
}

/// A longer run of digits spells no smaller a number.
proof fn lemma_digits_value_grows(s: Seq<u8>, n: int)
    requires
        0 <= n <= s.len(),
        forall|j: int| 0 <= j < s.len() ==> is_digit(#[trigger] s[j]),
    ensures
        digits_value(s.subrange(0, n)) <= digits_value(s),
    decreases s.len() - n,
{
    if n < s.len() {
        lemma_digits_value_grows(s, n + 1);
        let longer = s.subrange(0, n + 1);
        assert(longer.drop_last() =~= s.subrange(0, n));
        assert(is_digit(s[n]));
    } else {
        assert(s.subrange(0, n) =~= s);
    }
}

fn find_blank(s: &[u8]) -> (n: usize)
    ensures
        n == first_blank(s@),
        n <= s@.len(),
{
    let mut n: usize = 0;
    while n < s.len() && s[n] != BLANK
        invariant
            n <= s@.len(),
            forall|j: int| 0 <= j < n ==> #[trigger] s@[j] != BLANK,
        decreases s@.len() - n,
    {
        n = n + 1;
    }
    proof {
        lemma_first_blank_is(s@, n as int);
    }
    n
}

/// Cuts `s` at its first blank: the first word, and what stands after the
/// blank.
pub fn split_word(s: &[u8]) -> (parts: (&[u8], &[u8]))
    ensures
        parts.0@ == word(s@),
        parts.1@ == after_word(s@),
{
    let n = find_blank(s);
    let head = slice_subrange(s, 0, n);
    if n < s.len() {
        (head, slice_subrange(s, n + 1, s.len()))
    } else {
        let tail = slice_subrange(s, n, n);
        assert(tail@ =~= Seq::<u8>::empty());
        (head, tail)
    }
}

/// The stream id that `s` spells, if it spells one.
pub fn parse_id(s: &[u8]) -> (id: Option<u32>)
    ensures
        id == spec_parse_id(s@),
{
    let digits = if s.len() > 0 && s[0] == PLUS {
        slice_subrange(s, 1, s.len())
    } else {
        s
    };
    assert(digits@ =~= unsigned(s@));
    if digits.len() == 0 {
        return None;
    }
    let mut value: u64 = 0;
    let mut i: usize = 0;
    while i < digits.len()
        invariant
            i <= digits@.len(),
            digits@ == unsigned(s@),
            forall|j: int| 0 <= j < i ==> is_digit(#[trigger] digits@[j]),
            value == digits_value(digits@.subrange(0, i as int)),
            value <= u32::MAX,
        decreases digits@.len() - i,
    {
        let b = digits[i];
        if b < DIGIT_ZERO || b > DIGIT_NINE {
            assert(!is_digit(digits@[i as int]));
            return None;
        }
        let ghost longer = digits@.subrange(0, i + 1);
        assert(longer.drop_last() =~= digits@.subrange(0, i as int));
        let next = value * 10 + (b - DIGIT_ZERO) as u64;
        if next > 0xffff_ffff {
            proof {
                if forall|j: int| 0 <= j < digits@.len() ==> is_digit(#[trigger] digits@[j]) {
                    lemma_digits_value_grows(digits@, i + 1);
                }
            }
            return None;
        }
        value = next;
        i = i + 1;
    }
    assert(digits@.subrange(0, i as int) =~= digits@);
    Some(value as u32)
}

/// Reads one line of the user.
pub fn parse_command(line: &[u8]) -> (c: Command)
    ensures
        c@ == spec_parse_command(line@),
{
    let text = trim(line);
    if text.len() == 0 {
        return Command::Empty;
    }
    let (verb, after) = split_word(text);
    let (second, rest) = split_word(after);
    if bytes_eq(verb, "/open".as_bytes()) {
        let protocol = trim(second);
        if protocol.len() == 0 {
            Command::OpenUsage
        } else {
            Command::Open { protocol: slice_to_vec(protocol) }
        }
    } else if bytes_eq(verb, "/send".as_bytes()) {
        let message = trim(rest);
        if second.len() == 0 || message.len() == 0 {
            Command::SendUsage
        } else {
            match parse_id(second) {
                Some(stream_id) => Command::Send { stream_id, message: slice_to_vec(message) },
                None => Command::InvalidId { text: slice_to_vec(second) },
            }
        }
    } else if bytes_eq(verb, "/close".as_bytes()) {
        if second.len() == 0 {
            Command::CloseUsage
        } else {
            match parse_id(second) {
                Some(stream_id) => Command::Close { stream_id },
                None => Command::InvalidId { text: slice_to_vec(second) },
            }
        }
    } else if bytes_eq(verb, "/list".as_bytes()) {
        Command::List
    } else if bytes_eq(verb, "/quit".as_bytes()) {
        Command::Quit
    } else {
        Command::Unknown { verb: slice_to_vec(verb) }
    }
}

} // verus!
