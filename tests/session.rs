use chat_relay::registry::Registry;
use chat_relay::router::{payload, route, Action};
use chat_relay::session::{
    active_step, commands_summary, handshake, welcome, Read, Rejection, Step, Wake,
};

fn reply(t: &str) -> Action {
    Action::Reply(t.to_string())
}

fn two_users() -> Registry<u32, ()> {
    let mut reg = Registry::new();
    assert_eq!(reg.register(1, "alice".to_string(), 10, ()), Ok(()));
    assert_eq!(reg.register(2, "bob".to_string(), 20, ()), Ok(()));
    reg
}

#[test]
fn payload_and_welcome_text() {
    assert_eq!(payload("alice", 1, "hello"), "from alice(1): hello");
    assert_eq!(payload("bob", 1234567890, ""), "from bob(1234567890): ");
    assert_eq!(welcome(1, "alice"), "WELCOME 1 alice");
    assert_eq!(welcome(907, "bob"), "WELCOME 907 bob");
    assert_eq!(
        commands_summary(),
        "[server] commands: TO <name> <msg> | TOID <id> <msg> | KICK <name> | KICKID <id>"
    );
}

#[test]
fn kick_by_name_needs_no_privilege() {
    let reg = two_users();
    assert_eq!(
        route(&reg, 1, "alice", "KICK bob"),
        Action::Kick {
            target: 2,
            notice: "[server] kicked".to_string(),
            reply: "[server] user kicked".to_string(),
        }
    );
    assert_eq!(route(&reg, 1, "alice", "KICK carol"), reply("[server] user not found"));
}

#[test]
fn kick_by_id_is_for_admin_only() {
    let mut reg = two_users();
    assert_eq!(route(&reg, 1, "alice", "KICKID 2"), reply("[server] permission denied"));
    assert_eq!(route(&reg, 1, "alice", "KICKID nope"), reply("[server] permission denied"));
    assert_eq!(reg.lookup_by_id(2), Some(&20));
    assert_eq!(reg.register(3, "admin".to_string(), 30, ()), Ok(()));
    assert_eq!(
        route(&reg, 3, "admin", "KICKID 2"),
        Action::Kick {
            target: 2,
            notice: "[server] kicked".to_string(),
            reply: "[server] user kicked".to_string(),
        }
    );
    assert_eq!(
        route(&reg, 3, "admin", "KICKID 77"),
        Action::Kick {
            target: 77,
            notice: "[server] kicked".to_string(),
            reply: "[server] user kicked".to_string(),
        }
    );
    assert_eq!(route(&reg, 3, "admin", "KICKID x"), reply("[server] invalid ID"));
}

#[test]
fn messages_are_routed_by_name_and_id() {
    let reg = two_users();
    assert_eq!(
        route(&reg, 1, "alice", "TO bob hello"),
        Action::Deliver {
            target: 2,
            payload: "from alice(1): hello".to_string(),
            on_fail: "[server] target disconnected".to_string(),
        }
    );
    assert_eq!(route(&reg, 1, "alice", "TO carol hi"), reply("[server] target not found"));
    assert_eq!(
        route(&reg, 2, "bob", "TOID 9 hi"),
        Action::Deliver {
            target: 9,
            payload: "from bob(2): hi".to_string(),
            on_fail: "[server] target offline".to_string(),
        }
    );
}

#[test]
fn unknown_lines_get_the_usage_reply() {
    let reg = two_users();
    let usage = reply("[server] commands: TO | TOID | KICK | KICKID");
    assert_eq!(route(&reg, 1, "alice", "hello"), usage);
    assert_eq!(route(&reg, 1, "alice", "   "), usage);
    assert_eq!(route(&reg, 1, "alice", "TOID x hi"), usage);
}

#[test]
fn handshake_outcomes() {
    let mut reg: Registry<u32, ()> = Registry::new();
    assert_eq!(
        handshake(&mut reg, 1, Read::Line("NICK alice".to_string()), 10, ()),
        Ok("alice".to_string())
    );
    assert_eq!(
        handshake(&mut reg, 2, Read::Line("NICK alice".to_string()), 20, ()),
        Err(Rejection::NameTaken)
    );
    assert_eq!(
        handshake(&mut reg, 3, Read::Line("HELLO".to_string()), 30, ()),
        Err(Rejection::HandshakeMalformed)
    );
    assert_eq!(handshake(&mut reg, 4, Read::Ended, 40, ()), Err(Rejection::ReadFailure));
    assert_eq!(handshake(&mut reg, 5, Read::Failed, 50, ()), Err(Rejection::ReadFailure));
    for id in 2..6 {
        assert_eq!(reg.lookup_by_id(id), None);
    }
    assert_eq!(reg.lookup_by_name("alice"), Some(1));
}

#[test]
fn rejection_replies() {
    assert_eq!(
        Rejection::HandshakeTimeout.reply(),
        Some("ERR timeout waiting for NICK".to_string())
    );
    assert_eq!(
        Rejection::HandshakeMalformed.reply(),
        Some("ERR expected: NICK <name>".to_string())
    );
    assert_eq!(Rejection::NameTaken.reply(), Some("ERR name already in use".to_string()));
    assert_eq!(Rejection::ReadFailure.reply(), None);
}

#[test]
fn handshake_timeout_leaves_no_trace() {
    let mut reg: Registry<u32, ()> = Registry::new();
    let r = handshake(&mut reg, 1, Read::TimedOut, 10, ());
    assert_eq!(r, Err(Rejection::HandshakeTimeout));
    assert_eq!(
        Rejection::HandshakeTimeout.reply(),
        Some("ERR timeout waiting for NICK".to_string())
    );
    assert_eq!(reg.lookup_by_id(1), None);
    assert_eq!(reg.name_of(1), None);
}

#[test]
fn active_steps() {
    let reg = two_users();
    assert_eq!(
        active_step(&reg, 1, "alice", Wake::Read(Read::TimedOut)),
        Step::Close(Some("[server] timed out due to inactivity".to_string()))
    );
    assert_eq!(
        active_step(&reg, 1, "alice", Wake::Cancelled),
        Step::Close(Some("[server] disconnected".to_string()))
    );
    assert_eq!(active_step(&reg, 1, "alice", Wake::Read(Read::Ended)), Step::Close(None));
    assert_eq!(active_step(&reg, 1, "alice", Wake::Read(Read::Failed)), Step::Close(None));
    assert_eq!(
        active_step(&reg, 1, "alice", Wake::Read(Read::Line("KICK bob".to_string()))),
        Step::Act(Action::Kick {
            target: 2,
            notice: "[server] kicked".to_string(),
            reply: "[server] user kicked".to_string(),
        })
    );
}

#[test]
fn kick_frees_the_name() {
    let mut reg = two_users();
    let target = match route(&reg, 1, "alice", "KICK bob") {
        Action::Kick { target, notice, .. } => {
            assert_eq!(notice, "[server] kicked");
            target
        }
        other => panic!("expected a kick, got {:?}", other),
    };
    assert!(reg.deregister(target).is_some());
    assert_eq!(reg.lookup_by_name("bob"), None);
    assert_eq!(
        handshake(&mut reg, 3, Read::Line("NICK bob".to_string()), 30, ()),
        Ok("bob".to_string())
    );
    assert_eq!(reg.lookup_by_name("bob"), Some(3));
}

#[test]
fn two_clients_end_to_end() {
    let mut reg: Registry<u32, ()> = Registry::new();
    let a = handshake(&mut reg, 1, Read::Line("NICK alice".to_string()), 10, ()).unwrap();
    assert_eq!(welcome(1, &a), "WELCOME 1 alice");
    let b = handshake(&mut reg, 2, Read::Line("NICK bob".to_string()), 20, ()).unwrap();
    assert_eq!(welcome(2, &b), "WELCOME 2 bob");
    assert_eq!(
        route(&reg, 1, &a, "TO bob hello"),
        Action::Deliver {
            target: 2,
            payload: "from alice(1): hello".to_string(),
            on_fail: "[server] target disconnected".to_string(),
        }
    );
    assert_eq!(reg.lookup_by_id(2), Some(&20));
    assert_eq!(
        route(&reg, 2, &b, "TOID 1 hi"),
        Action::Deliver {
            target: 1,
            payload: "from bob(2): hi".to_string(),
            on_fail: "[server] target offline".to_string(),
        }
    );
    assert_eq!(reg.lookup_by_id(1), Some(&10));
    assert_eq!(
        active_step(&reg, 1, &a, Wake::Read(Read::Ended)),
        Step::Close(None)
    );
    assert!(reg.deregister(1).is_some());
    assert_eq!(route(&reg, 2, &b, "TO alice test"), reply("[server] target not found"));
}
