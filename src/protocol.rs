use vstd::prelude::*;

use crate::text::{
    parse_u64, parse_u64_spec, same_text, split_once, split_once_spec, strip_prefix,
    strip_prefix_spec, trim, trim_spec, view_pair,
};

verus! {

/// `s` is `NICK` in any mix of ASCII case.
pub open spec fn is_nick_keyword(s: Seq<char>) -> bool {
    s.len() == 4 && (s[0] == 'N' || s[0] == 'n') && (s[1] == 'I' || s[1] == 'i') && (s[2] == 'C'
        || s[2] == 'c') && (s[3] == 'K' || s[3] == 'k')
}

/// The nickname that a handshake line claims: the line is cut at its first
/// space, the part before is `NICK` in any case, and the nickname is the part
/// after, trimmed.
pub open spec fn parse_nick_spec(line: Seq<char>) -> Option<Seq<char>> {
    match split_once_spec(line, ' ') {
        Some((cmd, rest)) => if is_nick_keyword(cmd) {
            Some(trim_spec(rest))
        } else {
            None
        },
        None => None,
    }
}

/// `TO <name> <message>`: the first word is exactly `TO`, the name runs to the
/// next space and the message is everything after it.
pub open spec fn parse_to_spec(line: Seq<char>) -> Option<(Seq<char>, Seq<char>)> {
    match split_once_spec(line, ' ') {
        Some((cmd, rest)) => if cmd == seq!['T', 'O'] {
            split_once_spec(rest, ' ')
        } else {
            None
        },
        None => None,
    }
}

/// `TOID <id> <message>`, with an id that reads as a `u64`.
pub open spec fn parse_toid_spec(line: Seq<char>) -> Option<(u64, Seq<char>)> {
    match split_once_spec(line, ' ') {
        Some((cmd, rest)) => if cmd == seq!['T', 'O', 'I', 'D'] {
            match split_once_spec(rest, ' ') {
                Some((id_text, msg)) => match parse_u64_spec(id_text) {
                    Some(id) => Some((id, msg)),
                    None => None,
                },
                None => None,
            }
        } else {
            None
        },
        None => None,
    }
}

fn is_nick_keyword_exec(s: &str) -> (r: bool)
    ensures
        r == is_nick_keyword(s@),
{
    if s.unicode_len() != 4 {
        return false;
    }
    let a = s.get_char(0);
    let b = s.get_char(1);
    let c = s.get_char(2);
    let d = s.get_char(3);
    (a == 'N' || a == 'n') && (b == 'I' || b == 'i') && (c == 'C' || c == 'c') && (d == 'K' || d
        == 'k')
}

/// Reads the nickname out of a handshake line.
pub fn parse_nick(line: &str) -> (r: Option<String>)
    ensures
        match r {
            Some(n) => parse_nick_spec(line@) == Some(n@),
            None => parse_nick_spec(line@) is None,
        },
{
    match split_once(line, ' ') {
        Some((cmd, nick)) => {
            if is_nick_keyword_exec(cmd) {
                Some(String::from_str(trim(nick)))
            } else {
                None
            }
        },
        None => None,
    }
}

/// Reads `TO <name> <message>`.
pub fn parse_to(line: &str) -> (r: Option<(&str, &str)>)
    ensures
        view_pair(r) == parse_to_spec(line@),
{
    match split_once(line, ' ') {
        Some((cmd, rest)) => {
            proof {
                reveal_strlit("TO");
                assert("TO"@ =~= seq!['T', 'O']);
            }
            if same_text(cmd, "TO") {
                split_once(rest, ' ')
            } else {
                None
            }
        },
        None => None,
    }
}

/// Reads `TOID <id> <message>`.
pub fn parse_toid(line: &str) -> (r: Option<(u64, &str)>)
    ensures
        match r {
            Some((id, msg)) => parse_toid_spec(line@) == Some((id, msg@)),
            None => parse_toid_spec(line@) is None,
        },
{
    match split_once(line, ' ') {
        Some((cmd, rest)) => {
            proof {
                reveal_strlit("TOID");
                assert("TOID"@ =~= seq!['T', 'O', 'I', 'D']);
            }
            if same_text(cmd, "TOID") {
                match split_once(rest, ' ') {
                    Some((id_text, msg)) => match parse_u64(id_text) {
                        Some(id) => Some((id, msg)),
                        None => None,
                    },
                    None => None,
                }
            } else {
                None
            }
        },
        None => None,
    }
}

/// A line that a registered connection sent, classified.
#[derive(Debug, Clone, PartialEq, Eq)]
pub enum Command {
    /// `KICK <name>`.
    Kick(String),
    /// `KICKID <id>`, with the id if it reads as one.
    KickId(Option<u64>),
    /// `TO <name> <message>`.
    To(String, String),
    /// `TOID <id> <message>`.
    ToId(u64, String),
    /// Anything else.
    Unknown,
}

/// A `Command` with its text as character sequences.
pub enum CommandView {
    Kick(Seq<char>),
    KickId(Option<u64>),
    To(Seq<char>, Seq<char>),
    ToId(u64, Seq<char>),
    Unknown,
}

impl View for Command {
    type V = CommandView;

    open spec fn view(&self) -> CommandView {
        match self {
            Command::Kick(n) => CommandView::Kick(n@),
            Command::KickId(i) => CommandView::KickId(*i),
            Command::To(n, m) => CommandView::To(n@, m@),
            Command::ToId(i, m) => CommandView::ToId(*i, m@),
            Command::Unknown => CommandView::Unknown,
        }
    }
}

/// `KICK ` with its space.
pub open spec fn kick_prefix() -> Seq<char> {
    seq!['K', 'I', 'C', 'K', ' ']
}

/// `KICKID ` with its space.
pub open spec fn kickid_prefix() -> Seq<char> {
    seq!['K', 'I', 'C', 'K', 'I', 'D', ' ']
}

/// What a line means: it is trimmed, then the first of these that fits wins:
/// `KICK `, `KICKID `, `TO`, `TOID`; anything else is unknown.
pub open spec fn command_spec(line: Seq<char>) -> CommandView {
    let t = trim_spec(line);
    match strip_prefix_spec(t, kick_prefix()) {
        Some(name) => CommandView::Kick(name),
        None => match strip_prefix_spec(t, kickid_prefix()) {
            Some(id_text) => CommandView::KickId(parse_u64_spec(id_text)),
            None => match parse_to_spec(t) {
                Some((name, msg)) => CommandView::To(name, msg),
                None => match parse_toid_spec(t) {
                    Some((id, msg)) => CommandView::ToId(id, msg),
                    None => CommandView::Unknown,
                },
            },
        },
    }
}

/// Classifies a line from a registered connection.
pub fn parse_command(line: &str) -> (r: Command)
    ensures
        r@ == command_spec(line@),
{
    let t = trim(line);
    proof {
        reveal_strlit("KICK ");
        reveal_strlit("KICKID ");
        assert("KICK "@ =~= kick_prefix());
        assert("KICKID "@ =~= kickid_prefix());
    }
    if let Some(name) = strip_prefix(t, "KICK ") {
        return Command::Kick(String::from_str(name));
    }
    if let Some(id_text) = strip_prefix(t, "KICKID ") {
        return Command::KickId(parse_u64(id_text));
    }
    if let Some((name, msg)) = parse_to(t) {
        return Command::To(String::from_str(name), String::from_str(msg));
    }
    if let Some((id, msg)) = parse_toid(t) {
        return Command::ToId(id, String::from_str(msg));
    }
    Command::Unknown
}

} // verus!
