//! The protocol of one connection: log in first, then relay.
//!
//! A [`Session`] decides; it performs nothing. Whoever owns the socket and
//! the hub subscription tells the session what happened (an [`Event`]) and
//! carries out, in order, what the session asks for (its [`Action`]s). When
//! an action cannot be carried out, the rest of the list is dropped and the
//! matching failure is reported as the next event.

use vstd::prelude::*;
use vstd::string::StringExecFns;
use vstd::utf8::{decode_utf8, valid_utf8};
use crate::message::{
    get_time, is_clock, normal_line, normal_msg_at, system_line, system_msg_at, BAD_LOGIN_MSG,
    LOGIN_PROMPT, WELCOME_MSG,
};
use crate::text::{decode_lossy, lossy_text, skip_trailing, trim_both, trim_tail, trimmed};

verus! {

/// How many lines a subscription to the hub may fall behind before it
/// loses the oldest of them.
pub const HUB_DEPTH: usize = 16;

/// Where a session stands.
#[derive(Clone, Copy, Debug, PartialEq, Eq, Structural)]
pub enum Phase {
    /// Waiting for a login that the validator accepts.
    Authenticating,
    /// Logged in: lines go to the hub, and lines of the hub go to the socket.
    Relaying,
    /// Over, because the peer closed the connection.
    Closed,
    /// Over, because reading, writing or publishing failed.
    Failed,
}

/// What happened on a connection.
#[derive(Debug)]
pub enum Event {
    /// One read from the socket gave these bytes; none means that the peer
    /// closed the connection.
    Received(Vec<u8>),
    /// The validator answered the last `Validate`: the name it accepted, or
    /// nothing.
    Verdict(Option<String>),
    /// The hub subscription delivered this line.
    Delivered(String),
    /// The hub subscription fell behind and lost lines.
    Lagged,
    /// Reading from the socket failed.
    ReadFailed,
    /// Writing to the socket failed.
    WriteFailed,
    /// The hub did not take a line.
    PublishFailed,
}

/// What a session asks for.
#[derive(Debug)]
pub enum Action {
    /// Write this line to the socket.
    Write(String),
    /// Ask the validator about this login and report its `Verdict`.
    Validate(String),
    /// Subscribe to the hub; lines published from now on are to be reported
    /// as `Delivered`.
    Subscribe,
    /// Publish this line to the hub.
    Publish(String),
}

/// An event, as contracts see it.
pub enum EventView {
    Received(Seq<u8>),
    Verdict(Option<Seq<char>>),
    Delivered(Seq<char>),
    Lagged,
    ReadFailed,
    WriteFailed,
    PublishFailed,
}

/// An action, as contracts see it.
pub enum ActionView {
    Write(Seq<char>),
    Validate(Seq<char>),
    Subscribe,
    Publish(Seq<char>),
}

/// A session, as contracts see it.
pub struct SessionView {
    pub phase: Phase,
    pub username: Option<Seq<char>>,
}

impl View for Event {
    type V = EventView;

    open spec fn view(&self) -> EventView {
        match self {
            Event::Received(bytes) => EventView::Received(bytes@),
            Event::Verdict(Some(name)) => EventView::Verdict(Some(name@)),
            Event::Verdict(None) => EventView::Verdict(None),
            Event::Delivered(line) => EventView::Delivered(line@),
            Event::Lagged => EventView::Lagged,
            Event::ReadFailed => EventView::ReadFailed,
            Event::WriteFailed => EventView::WriteFailed,
            Event::PublishFailed => EventView::PublishFailed,
        }
    }
}

impl View for Action {
    type V = ActionView;

    open spec fn view(&self) -> ActionView {
        match self {
            Action::Write(line) => ActionView::Write(line@),
            Action::Validate(login) => ActionView::Validate(login@),
            Action::Subscribe => ActionView::Subscribe,
            Action::Publish(line) => ActionView::Publish(line@),
        }
    }
}

impl DeepView for Action {
    type V = ActionView;

    open spec fn deep_view(&self) -> ActionView {
        self@
    }
}

/// The login that a read of `bytes` stands for: the text of the bytes
/// without the whitespace at its end.
pub open spec fn login_text(bytes: Seq<u8>) -> Seq<char> {
    skip_trailing(lossy_text(bytes))
}

/// The chat text that a read of `bytes` stands for: the text of the bytes
/// without the whitespace at either end.
pub open spec fn chat_text(bytes: Seq<u8>) -> Seq<char> {
    trimmed(lossy_text(bytes))
}

/// `event` gives the session `s` well-formed bytes to decode: it is a read
/// of bytes, not none, that are UTF-8 as they stand, and the session is
/// not over.
pub open spec fn decodes(s: SessionView, event: EventView) -> bool {
    &&& s.phase == Phase::Authenticating || s.phase == Phase::Relaying
    &&& event matches EventView::Received(bytes)
    &&& bytes.len() > 0
    &&& valid_utf8(bytes)
}

/// The notice that `uname` has joined.
pub open spec fn join_notice(uname: Seq<char>) -> Seq<char> {
    uname + " logged in"@
}

/// The notice that `uname` has left.
pub open spec fn leave_notice(uname: Seq<char>) -> Seq<char> {
    uname + " logged out"@
}

/// A session is valid when it has a name exactly from the login on.
pub open spec fn valid_session(s: SessionView) -> bool {
    &&& s.phase == Phase::Authenticating ==> s.username is None
    &&& s.phase == Phase::Relaying ==> s.username is Some
}

/// The session of a connection that was just accepted.
pub open spec fn fresh_session() -> SessionView {
    SessionView { phase: Phase::Authenticating, username: None }
}

/// What a new session asks for at `time`: the login prompt.
pub open spec fn spec_start(time: Seq<char>) -> Seq<ActionView> {
    seq![ActionView::Write(system_line(time, LOGIN_PROMPT@))]
}

/// `s` in another phase.
pub open spec fn in_phase(s: SessionView, phase: Phase) -> SessionView {
    SessionView { phase, username: s.username }
}

/// The session after `event` at `time`, and what it asks for.
pub open spec fn spec_step(s: SessionView, event: EventView, time: Seq<char>) -> (
    SessionView,
    Seq<ActionView>,
) {
    match (s.phase, event) {
        (Phase::Failed, _) => (s, seq![]),
        (_, EventView::ReadFailed) | (_, EventView::WriteFailed) => (
            in_phase(s, Phase::Failed),
            seq![],
        ),
        (_, EventView::PublishFailed) => (in_phase(s, Phase::Failed), seq![]),
        (Phase::Closed, _) => (s, seq![]),
        (Phase::Authenticating, EventView::Received(bytes)) => if bytes.len() == 0 {
            (in_phase(s, Phase::Closed), seq![])
        } else {
            (s, seq![ActionView::Validate(login_text(bytes))])
        },
        (Phase::Authenticating, EventView::Verdict(Some(uname))) => (
            SessionView { phase: Phase::Relaying, username: Some(uname) },
            seq![
                ActionView::Write(system_line(time, WELCOME_MSG@)),
                ActionView::Subscribe,
                ActionView::Publish(system_line(time, join_notice(uname))),
            ],
        ),
        (Phase::Authenticating, EventView::Verdict(None)) => (
            s,
            seq![ActionView::Write(system_line(time, BAD_LOGIN_MSG@))],
        ),
        (Phase::Authenticating, _) => (s, seq![]),
        (Phase::Relaying, EventView::Received(bytes)) => if bytes.len() == 0 {
            (
                in_phase(s, Phase::Closed),
                seq![ActionView::Publish(system_line(time, leave_notice(s.username->0)))],
            )
        } else {
            (
                s,
                seq![ActionView::Publish(normal_line(time, s.username->0, chat_text(bytes)))],
            )
        },
        (Phase::Relaying, EventView::Delivered(line)) => (s, seq![ActionView::Write(line)]),
        (Phase::Relaying, _) => (s, seq![]),
    }
}

/// The state of one connection.
pub struct Session {
    phase: Phase,
    username: Option<String>,
}

impl View for Session {
    type V = SessionView;

    closed spec fn view(&self) -> SessionView {
        SessionView {
            phase: self.phase,
            username: match self.username {
                Some(name) => Some(name@),
                None => None,
            },
        }
    }
}

impl Session {
    #[verifier::type_invariant]
    spec fn well_formed(self) -> bool {
        valid_session(self@)
    }

    /// The session of a newly accepted connection, with the prompt that is
    /// to be written to it, dated `time`.
    pub fn start_at(time: &str) -> (r: (Session, Vec<Action>))
        ensures
            r.0@ == fresh_session(),
            r.1.deep_view() == spec_start(time@),
    {
        let session = Session { phase: Phase::Authenticating, username: None };
        let mut actions: Vec<Action> = Vec::new();
        actions.push(Action::Write(system_msg_at(time, LOGIN_PROMPT)));
        assert(actions.deep_view() =~= spec_start(time@));
        (session, actions)
    }

    /// The session of a newly accepted connection, with the prompt that is
    /// to be written to it, dated now.
    pub fn start() -> (r: (Session, Vec<Action>))
        ensures
            r.0@ == fresh_session(),
            exists|time: Seq<char>|
                is_clock(time) && r.1.deep_view() == #[trigger] spec_start(time),
    {
        let time = get_time();
        Session::start_at(time.as_str())
    }

    /// Where the session stands.
    pub fn phase(&self) -> (phase: Phase)
        ensures
            phase == self@.phase,
            valid_session(self@),
    {
        proof {
            use_type_invariant(self);
        }
        self.phase
    }

    /// Whether the session is over.
    pub fn is_over(&self) -> (over: bool)
        ensures
            over == (self@.phase == Phase::Closed || self@.phase == Phase::Failed),
    {
        match self.phase {
            Phase::Closed | Phase::Failed => true,
            _ => false,
        }
    }

    /// The name under which the session is logged in, if it is.
    pub fn username(&self) -> (name: Option<&str>)
        ensures
            name is Some == self@.username is Some,
            name is Some ==> name->0@ == self@.username->0,
    {
        match &self.username {
            Some(name) => Some(name.as_str()),
            None => None,
        }
    }

    /// Takes in `event`, which happened at `time`, and returns what is to be
    /// done about it.
    pub fn step_at(&mut self, event: Event, time: &str) -> (actions: Vec<Action>)
        ensures
            (final(self)@, actions.deep_view()) == spec_step(old(self)@, event@, time@),
            decodes(old(self)@, event@) ==> lossy_text(event@->Received_0) == decode_utf8(
                event@->Received_0,
            ),
    {
        proof {
            use_type_invariant(&*self);
        }
        let mut actions: Vec<Action> = Vec::new();
        let ghost before = self@;
        let ghost expected = spec_step(before, event@, time@);
        match self.phase {
            Phase::Failed => {},
            Phase::Closed => {
                match event {
                    Event::ReadFailed | Event::WriteFailed | Event::PublishFailed => {
                        self.phase = Phase::Failed;
                    },
                    _ => {},
                }
            },
            Phase::Authenticating => {
                match event {
                    Event::ReadFailed | Event::WriteFailed | Event::PublishFailed => {
                        self.phase = Phase::Failed;
                    },
                    Event::Received(bytes) => {
                        if bytes.len() == 0 {
                            self.phase = Phase::Closed;
                        } else {
                            let text = decode_lossy(bytes.as_slice());
                            let login = trim_tail(text.as_str());
                            actions.push(Action::Validate(login));
                        }
                    },
                    Event::Verdict(Some(uname)) => {
                        let mut notice = uname.clone();
                        notice.append(" logged in");
                        actions.push(Action::Write(system_msg_at(time, WELCOME_MSG)));
                        actions.push(Action::Subscribe);
                        actions.push(Action::Publish(system_msg_at(time, notice.as_str())));
                        *self = Session { phase: Phase::Relaying, username: Some(uname) };
                    },
                    Event::Verdict(None) => {
                        actions.push(Action::Write(system_msg_at(time, BAD_LOGIN_MSG)));
                    },
                    _ => {},
                }
            },
            Phase::Relaying => {
                match event {
                    Event::ReadFailed | Event::WriteFailed | Event::PublishFailed => {
                        self.phase = Phase::Failed;
                    },
                    Event::Received(bytes) => {
                        let uname = match &self.username {
                            Some(name) => name.clone(),
                            None => String::new(),
                        };
                        if bytes.len() == 0 {
                            let mut notice = uname;
                            notice.append(" logged out");
                            actions.push(Action::Publish(system_msg_at(time, notice.as_str())));
                            self.phase = Phase::Closed;
                        } else {
                            let text = decode_lossy(bytes.as_slice());
                            let msg = trim_both(text.as_str());
                            actions.push(
                                Action::Publish(normal_msg_at(time, uname.as_str(), msg.as_str())),
                            );
                        }
                    },
                    Event::Delivered(line) => {
                        actions.push(Action::Write(line));
                    },
                    _ => {},
                }
            },
        }
        assert(actions.deep_view() =~= expected.1);
        assert(self@ == expected.0);
        actions
    }

    /// Takes in `event`, which happened just now, and returns what is to be
    /// done about it.
    pub fn step(&mut self, event: Event) -> (actions: Vec<Action>)
        ensures
            exists|time: Seq<char>|
                is_clock(time) && (final(self)@, actions.deep_view()) == #[trigger] spec_step(
                    old(self)@,
                    event@,
                    time,
                ),
            decodes(old(self)@, event@) ==> lossy_text(event@->Received_0) == decode_utf8(
                event@->Received_0,
            ),
    {
        let time = get_time();
        self.step_at(event, time.as_str())
    }
}

} // verus!
