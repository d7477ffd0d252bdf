use vstd::prelude::*;

use crate::protocol::{command_spec, kick_prefix, kickid_prefix, parse_command, Command, CommandView};
use crate::text::{strip_prefix_spec, trim_spec};
use crate::registry::{owner_of, Member, Registry};
use crate::text::{decimal, decimal_spec, same_text};

verus! {

/// What the session of the sender does with one line it read.
#[derive(Debug, Clone, PartialEq, Eq)]
pub enum Action {
    /// Send `text` to the sender alone.
    Reply(String),
    /// Send `notice` to `target` (best effort), tear the target's session down,
    /// then send `reply` to the sender.
    Kick { target: u64, notice: String, reply: String },
    /// Deliver `payload` to `target`; if that fails, send `on_fail` to the sender.
    Deliver { target: u64, payload: String, on_fail: String },
}

/// An `Action` with its text as character sequences.
pub enum ActionView {
    Reply(Seq<char>),
    Kick { target: u64, notice: Seq<char>, reply: Seq<char> },
    Deliver { target: u64, payload: Seq<char>, on_fail: Seq<char> },
}

impl View for Action {
    type V = ActionView;

    open spec fn view(&self) -> ActionView {
        match self {
            Action::Reply(t) => ActionView::Reply(t@),
            Action::Kick { target, notice, reply } => ActionView::Kick {
                target: *target,
                notice: notice@,
                reply: reply@,
            },
            Action::Deliver { target, payload, on_fail } => ActionView::Deliver {
                target: *target,
                payload: payload@,
                on_fail: on_fail@,
            },
        }
    }
}

/// The nickname that may kick by id.
pub open spec fn admin_name() -> Seq<char> {
    "admin"@
}

/// `from <name>(<id>): <message>`.
pub open spec fn payload_spec(name: Seq<char>, id: u64, msg: Seq<char>) -> Seq<char> {
    "from "@ + name + "("@ + decimal_spec(id as nat) + "): "@ + msg
}

/// Kicking `target`: the notice it gets and the reply the sender gets.
pub open spec fn kick_action(target: u64) -> ActionView {
    ActionView::Kick {
        target,
        notice: "[server] kicked"@,
        reply: "[server] user kicked"@,
    }
}

/// What the sender `id`, registered as `name`, causes by sending `line`, with
/// `m` the registry at that moment.
pub open spec fn route_spec<Q, K>(
    m: Map<u64, Member<Q, K>>,
    id: u64,
    name: Seq<char>,
    line: Seq<char>,
) -> ActionView {
    match command_spec(line) {
        CommandView::Kick(target_name) => match owner_of(m, target_name) {
            Some(target) => kick_action(target),
            None => ActionView::Reply("[server] user not found"@),
        },
        CommandView::KickId(target) => if name != admin_name() {
            ActionView::Reply("[server] permission denied"@)
        } else {
            match target {
                Some(t) => kick_action(t),
                None => ActionView::Reply("[server] invalid ID"@),
            }
        },
        CommandView::To(target_name, msg) => match owner_of(m, target_name) {
            Some(target) => ActionView::Deliver {
                target,
                payload: payload_spec(name, id, msg),
                on_fail: "[server] target disconnected"@,
            },
            None => ActionView::Reply("[server] target not found"@),
        },
        CommandView::ToId(target, msg) => ActionView::Deliver {
            target,
            payload: payload_spec(name, id, msg),
            on_fail: "[server] target offline"@,
        },
        CommandView::Unknown => ActionView::Reply("[server] commands: TO | TOID | KICK | KICKID"@),
    }
}

/// Builds `from <name>(<id>): <message>`.
pub fn payload(name: &str, id: u64, msg: &str) -> (r: String)
    ensures
        r@ == payload_spec(name@, id, msg@),
{
    let digits = decimal(id);
    String::from_str("from ").concat(name).concat("(").concat(digits.as_str()).concat(
        "): ",
    ).concat(msg)
}

fn kick(target: u64) -> (r: Action)
    ensures
        r@ == kick_action(target),
{
    Action::Kick {
        target,
        notice: String::from_str("[server] kicked"),
        reply: String::from_str("[server] user kicked"),
    }
}

fn reply(text: &str) -> (r: Action)
    ensures
        r@ == ActionView::Reply(text@),
{
    Action::Reply(String::from_str(text))
}

/// Decides what the line `line` from connection `id`, registered as `name`,
/// causes. The registry is only read.
pub fn route<Q, K>(reg: &Registry<Q, K>, id: u64, name: &str, line: &str) -> (r: Action)
    requires
        reg.wf(),
    ensures
        r@ == route_spec(reg@, id, name@, line@),
{
    match parse_command(line) {
        Command::Kick(target_name) => match reg.lookup_by_name(target_name.as_str()) {
            Some(target) => kick(target),
            None => reply("[server] user not found"),
        },
        Command::KickId(target) => {
            if !same_text(name, "admin") {
                reply("[server] permission denied")
            } else {
                match target {
                    Some(t) => kick(t),
                    None => reply("[server] invalid ID"),
                }
            }
        },
        Command::To(target_name, msg) => match reg.lookup_by_name(target_name.as_str()) {
            Some(target) => Action::Deliver {
                target,
                payload: payload(name, id, msg.as_str()),
                on_fail: String::from_str("[server] target disconnected"),
            },
            None => reply("[server] target not found"),
        },
        Command::ToId(target, msg) => Action::Deliver {
            target,
            payload: payload(name, id, msg.as_str()),
            on_fail: String::from_str("[server] target offline"),
        },
        Command::Unknown => reply("[server] commands: TO | TOID | KICK | KICKID"),
    }
}

/// A `KICKID` line from any nickname but the administrator's is answered with
/// `permission denied` and names no target, whatever the registry holds and
/// whatever the id.
pub proof fn lemma_kickid_needs_admin<Q, K>(
    m: Map<u64, Member<Q, K>>,
    id: u64,
    name: Seq<char>,
    line: Seq<char>,
)
    requires
        strip_prefix_spec(trim_spec(line), kickid_prefix()) is Some,
        name != admin_name(),
    ensures
        route_spec(m, id, name, line) == ActionView::Reply("[server] permission denied"@),
{
    let t = trim_spec(line);
    assert(t.subrange(0, 7) == kickid_prefix());
    assert(t.subrange(0, 5)[4] == t.subrange(0, 7)[4]);
    assert(t.subrange(0, 5) != kick_prefix());
}

} // verus!
