//! The interactive client: which streams the user has open, and what each
//! line of the user asks for.

use crate::command::{parse_command, spec_parse_command, Command, CommandView};
use crate::ping::{ping_request, spec_ping_request};
use crate::text::{bytes_eq, trim, trimmed, NEWLINE};
use std::collections::HashSet;
use vstd::prelude::*;
use vstd::string::StringSliceAdditionalSpecFns;

verus! {

broadcast use vstd::std_specs::hash::group_hash_axioms;

/// What to do about a line of the user, as a mathematical value.
pub enum ActionView {
    Nothing,
    Open { protocol: Seq<u8> },
    Send { stream_id: u32, payload: Seq<u8> },
    Close { stream_id: u32 },
    List,
    Quit,
    Explain { command: CommandView },
    UnknownStream { stream_id: u32 },
    NoMessage,
}

/// What to do about a line of the user.
#[derive(Debug, Clone, PartialEq, Eq)]
pub enum Action {
    /// Nothing: the line was blank.
    Nothing,
    /// Open a stream for `protocol`, then call [`Shell::opened`].
    Open { protocol: Vec<u8> },
    /// Send `payload` as DATA on the stream.
    Send { stream_id: u32, payload: Vec<u8> },
    /// Close the stream, then call [`Shell::closed`].
    Close { stream_id: u32 },
    /// Show the open streams.
    List,
    /// Leave.
    Quit,
    /// Tell the user how the command is used, or that it is unknown.
    Explain { command: Command },
    /// Tell the user that the shell has no such stream open.
    UnknownStream { stream_id: u32 },
    /// Tell the user that no ping message was entered; nothing is sent.
    NoMessage,
}

impl View for Action {
    type V = ActionView;

    open spec fn view(&self) -> ActionView {
        match self {
            Action::Nothing => ActionView::Nothing,
            Action::Open { protocol } => ActionView::Open { protocol: protocol@ },
            Action::Send { stream_id, payload } => ActionView::Send {
                stream_id: *stream_id,
                payload: payload@,
            },
            Action::Close { stream_id } => ActionView::Close { stream_id: *stream_id },
            Action::List => ActionView::List,
            Action::Quit => ActionView::Quit,
            Action::Explain { command } => ActionView::Explain { command: command@ },
            Action::UnknownStream { stream_id } => ActionView::UnknownStream {
                stream_id: *stream_id,
            },
            Action::NoMessage => ActionView::NoMessage,
        }
    }
}

/// The identifier of the ping protocol.
pub open spec fn ping_id() -> Seq<u8> {
    "/ping/1.0.0".spec_bytes()
}

/// The interactive client as a mathematical value.
pub struct ShellView {
    /// The streams that the user has opened and not closed.
    pub open: Set<u32>,
    /// The ping stream that was just opened and waits for its message.
    pub awaiting_ping: Option<u32>,
}

impl ShellView {
    /// A shell with no stream open.
    pub open spec fn fresh() -> ShellView {
        ShellView { open: Set::empty(), awaiting_ping: None }
    }

    /// What a command asks for. `/send` and `/close` are carried out only
    /// on a stream that the user has open; a message is sent with a newline
    /// after it.
    pub open spec fn act(self, command: CommandView) -> ActionView {
        match command {
            CommandView::Empty => ActionView::Nothing,
            CommandView::Open { protocol } => ActionView::Open { protocol },
            CommandView::Send { stream_id, message } => if self.open.contains(stream_id) {
                ActionView::Send { stream_id, payload: message.push(NEWLINE) }
            } else {
                ActionView::UnknownStream { stream_id }
            },
            CommandView::Close { stream_id } => if self.open.contains(stream_id) {
                ActionView::Close { stream_id }
            } else {
                ActionView::UnknownStream { stream_id }
            },
            CommandView::List => ActionView::List,
            CommandView::Quit => ActionView::Quit,
            other => ActionView::Explain { command: other },
        }
    }

    /// What a line of the user does. Right after a ping stream was opened,
    /// the line is the message to ping with: it is sent on that stream as
    /// `PING <message>`, unless it is blank. Any other line is a command.
    pub open spec fn on_line(self, line: Seq<u8>) -> (ShellView, ActionView) {
        match self.awaiting_ping {
            Some(stream_id) => (
                ShellView { awaiting_ping: None, ..self },
                if trimmed(line).len() == 0 {
                    ActionView::NoMessage
                } else {
                    ActionView::Send { stream_id, payload: spec_ping_request(line) }
                },
            ),
            None => (self, self.act(spec_parse_command(line))),
        }
    }

    /// The shell after a stream was opened for `protocol`.
    pub open spec fn opened(self, stream_id: u32, protocol: Seq<u8>) -> ShellView {
        ShellView {
            open: self.open.insert(stream_id),
            awaiting_ping: if protocol == ping_id() {
                Some(stream_id)
            } else {
                None
            },
        }
    }

    /// The shell after a stream was closed.
    pub open spec fn closed(self, stream_id: u32) -> ShellView {
        ShellView { open: self.open.remove(stream_id), ..self }
    }
}

/// The interactive client.
pub struct Shell {
    open_streams: HashSet<u32>,
    awaiting_ping: Option<u32>,
}

impl View for Shell {
    type V = ShellView;

    closed spec fn view(&self) -> ShellView {
        ShellView { open: self.open_streams@, awaiting_ping: self.awaiting_ping }
    }
}

impl Shell {
    /// A shell with no stream open.
    pub fn new() -> (shell: Shell)
        ensures
            shell@ == ShellView::fresh(),
    {
        Shell { open_streams: HashSet::new(), awaiting_ping: None }
    }

    /// Whether the user has stream `stream_id` open.
    pub fn is_open(&self, stream_id: u32) -> (b: bool)
        ensures
            b == self@.open.contains(stream_id),
    {
        self.open_streams.contains(&stream_id)
    }

    /// The number of streams that the user has open.
    pub fn open_count(&self) -> (n: usize)
        ensures
            n == self@.open.len(),
    {
        self.open_streams.len()
    }

    /// The streams that the user has open, in no particular order.
    pub fn open_streams(&self) -> (set: &HashSet<u32>)
        ensures
            set@ == self@.open,
    {
        &self.open_streams
    }

    fn act(&self, command: Command) -> (a: Action)
        ensures
            a@ == self@.act(command@),
    {
        match command {
            Command::Empty => Action::Nothing,
            Command::Open { protocol } => Action::Open { protocol },
            Command::Send { stream_id, message } => {
                if self.open_streams.contains(&stream_id) {
                    let mut payload = message;
                    payload.push(NEWLINE);
                    Action::Send { stream_id, payload }
                } else {
                    Action::UnknownStream { stream_id }
                }
            },
            Command::Close { stream_id } => {
                if self.open_streams.contains(&stream_id) {
                    Action::Close { stream_id }
                } else {
                    Action::UnknownStream { stream_id }
                }
            },
            Command::List => Action::List,
            Command::Quit => Action::Quit,
            other => Action::Explain { command: other },
        }
    }

    /// Takes one line of the user and says what to do about it.
    pub fn on_line(&mut self, line: &[u8]) -> (a: Action)
        ensures
            final(self)@ == old(self)@.on_line(line@).0,
            a@ == old(self)@.on_line(line@).1,
    {
        match self.awaiting_ping {
            Some(stream_id) => {
                self.awaiting_ping = None;
                if trim(line).len() == 0 {
                    Action::NoMessage
                } else {
                    Action::Send { stream_id, payload: ping_request(line) }
                }
            },
            None => self.act(parse_command(line)),
        }
    }

    /// Records that stream `stream_id` was opened for `protocol`. After a
    /// ping stream the next line of the user is the message to ping with.
    pub fn opened(&mut self, stream_id: u32, protocol: &[u8])
        ensures
            final(self)@ == old(self)@.opened(stream_id, protocol@),
    {
        self.open_streams.insert(stream_id);
        if bytes_eq(protocol, "/ping/1.0.0".as_bytes()) {
            self.awaiting_ping = Some(stream_id);
        } else {
            self.awaiting_ping = None;
        }
    }

    /// Records that stream `stream_id` was closed.
    pub fn closed(&mut self, stream_id: u32)
        ensures
            final(self)@ == old(self)@.closed(stream_id),
    {
        self.open_streams.remove(&stream_id);
    }
}

} // verus!
