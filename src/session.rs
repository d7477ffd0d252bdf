use vstd::prelude::*;

use crate::protocol::{parse_nick, parse_nick_spec};
use crate::registry::{held_by_other, Member, NameTaken, Registry};
use crate::router::{route, route_spec, Action, ActionView};
use crate::text::{decimal, decimal_spec};

verus! {

/// What one wait for the next line from the socket produced.
#[derive(Debug, Clone, PartialEq, Eq)]
pub enum Read {
    Line(String),
    /// The peer closed the stream.
    Ended,
    /// Reading failed.
    Failed,
    /// The wait ran out.
    TimedOut,
}

/// Why a handshake ended without registration.
#[derive(Debug, Clone, Copy, PartialEq, Eq, Structural)]
pub enum Rejection {
    /// No line came within the handshake window.
    HandshakeTimeout,
    /// The first line was not `NICK <name>`.
    HandshakeMalformed,
    /// Another connection holds the nickname.
    NameTaken,
    /// The stream ended or failed before a line came.
    ReadFailure,
}

impl Rejection {
    /// The line sent to the peer before the connection closes, if any.
    pub fn reply(&self) -> (r: Option<String>)
        ensures
            match self {
                Rejection::HandshakeTimeout => r matches Some(t) && t@
                    == "ERR timeout waiting for NICK"@,
                Rejection::HandshakeMalformed => r matches Some(t) && t@
                    == "ERR expected: NICK <name>"@,
                Rejection::NameTaken => r matches Some(t) && t@ == "ERR name already in use"@,
                Rejection::ReadFailure => r is None,
            },
    {
        match self {
            Rejection::HandshakeTimeout => Some(String::from_str("ERR timeout waiting for NICK")),
            Rejection::HandshakeMalformed => Some(String::from_str("ERR expected: NICK <name>")),
            Rejection::NameTaken => Some(String::from_str("ERR name already in use")),
            Rejection::ReadFailure => None,
        }
    }
}

/// The outcome of a handshake for connection `id` whose first read was `read`,
/// against registry `m`: the accepted nickname, or why it was refused.
pub open spec fn handshake_spec<Q, K>(
    m: Map<u64, Member<Q, K>>,
    id: u64,
    read: Read,
) -> Result<Seq<char>, Rejection> {
    match read {
        Read::Line(line) => match parse_nick_spec(line@) {
            Some(name) => if held_by_other(m, id, name) {
                Err(Rejection::NameTaken)
            } else {
                Ok(name)
            },
            None => Err(Rejection::HandshakeMalformed),
        },
        Read::TimedOut => Err(Rejection::HandshakeTimeout),
        Read::Ended => Err(Rejection::ReadFailure),
        Read::Failed => Err(Rejection::ReadFailure),
    }
}

/// Runs the handshake of connection `id`: on a well-formed `NICK <name>` whose
/// name is free, registers `id` with its two handles and returns the name;
/// otherwise leaves the registry as it was and says why.
pub fn handshake<Q, K>(
    reg: &mut Registry<Q, K>,
    id: u64,
    read: Read,
    queue: Q,
    cancel: K,
) -> (r: Result<String, Rejection>)
    requires
        old(reg).wf(),
    ensures
        final(reg).wf(),
        match r {
            Ok(name) => handshake_spec(old(reg)@, id, read) == Ok::<Seq<char>, Rejection>(name@)
                && final(reg)@ == old(reg)@.insert(
                id,
                (Member { name: final(reg)@[id].name, queue: queue, cancel: cancel }),
            ) && final(reg)@[id].name@ == name@,
            Err(e) => handshake_spec(old(reg)@, id, read) == Err::<Seq<char>, Rejection>(e)
                && final(reg)@ == old(reg)@,
        },
{
    let line = match read {
        Read::Line(line) => line,
        Read::TimedOut => return Err(Rejection::HandshakeTimeout),
        Read::Ended => return Err(Rejection::ReadFailure),
        Read::Failed => return Err(Rejection::ReadFailure),
    };
    let name = match parse_nick(line.as_str()) {
        Some(n) => n,
        None => return Err(Rejection::HandshakeMalformed),
    };
    let kept = name.clone();
    match reg.register(id, name, queue, cancel) {
        Ok(()) => Ok(kept),
        Err(NameTaken) => Err(Rejection::NameTaken),
    }
}

/// `WELCOME <id> <name>`.
pub open spec fn welcome_spec(id: u64, name: Seq<char>) -> Seq<char> {
    "WELCOME "@ + decimal_spec(id as nat) + " "@ + name
}

/// The first line a registered connection receives.
pub fn welcome(id: u64, name: &str) -> (r: String)
    ensures
        r@ == welcome_spec(id, name@),
{
    let digits = decimal(id);
    String::from_str("WELCOME ").concat(digits.as_str()).concat(" ").concat(name)
}

/// The command summary sent after the welcome line.
pub fn commands_summary() -> (r: String)
    ensures
        r@ == "[server] commands: TO <name> <msg> | TOID <id> <msg> | KICK <name> | KICKID <id>"@,
{
    String::from_str("[server] commands: TO <name> <msg> | TOID <id> <msg> | KICK <name> | KICKID <id>")
}

/// What woke the reader of a registered connection.
#[derive(Debug, Clone, PartialEq, Eq)]
pub enum Wake {
    Read(Read),
    /// The session's cancellation handle fired: it was kicked.
    Cancelled,
}

/// What the reader of a registered connection does next.
#[derive(Debug, Clone, PartialEq, Eq)]
pub enum Step {
    /// Carry out the action, then wait for the next line.
    Act(Action),
    /// Send the notice to the connection itself (if any, best effort), then
    /// deregister it and close.
    Close(Option<String>),
}

/// A `Step` with its text as character sequences.
pub enum StepView {
    Act(ActionView),
    Close(Option<Seq<char>>),
}

impl View for Step {
    type V = StepView;

    open spec fn view(&self) -> StepView {
        match self {
            Step::Act(a) => StepView::Act(a@),
            Step::Close(Some(t)) => StepView::Close(Some(t@)),
            Step::Close(None) => StepView::Close(None),
        }
    }
}

/// The step of connection `id`, registered as `name`, after `wake`.
pub open spec fn active_spec<Q, K>(
    m: Map<u64, Member<Q, K>>,
    id: u64,
    name: Seq<char>,
    wake: Wake,
) -> StepView {
    match wake {
        Wake::Read(Read::Line(line)) => StepView::Act(route_spec(m, id, name, line@)),
        Wake::Read(Read::TimedOut) => StepView::Close(Some("[server] timed out due to inactivity"@)),
        Wake::Cancelled => StepView::Close(Some("[server] disconnected"@)),
        Wake::Read(Read::Ended) => StepView::Close(None),
        Wake::Read(Read::Failed) => StepView::Close(None),
    }
}

/// Decides the next step of a registered connection. The registry is only read.
pub fn active_step<Q, K>(reg: &Registry<Q, K>, id: u64, name: &str, wake: Wake) -> (r: Step)
    requires
        reg.wf(),
    ensures
        r@ == active_spec(reg@, id, name@, wake),
{
    match wake {
        Wake::Read(Read::Line(line)) => Step::Act(route(reg, id, name, line.as_str())),
        Wake::Read(Read::TimedOut) => Step::Close(
            Some(String::from_str("[server] timed out due to inactivity")),
        ),
        Wake::Cancelled => Step::Close(Some(String::from_str("[server] disconnected"))),
        Wake::Read(Read::Ended) => Step::Close(None),
        Wake::Read(Read::Failed) => Step::Close(None),
    }
}

} // verus!
