//! Tests of the projection, the subscription broadcaster and the client
//! session protocol.

use alarm_server::alarm::{ack_event, Alarm, AlarmAck, AlarmSeverity, AlarmState, MeasDecision};
use alarm_server::projection::Server;
use alarm_server::session::{
    do_handshake, parse_command, protocol_version, AckRoutes, Command, HandshakeReply, Incoming,
    Outgoing, Phase, Session,
};

fn set_event_ax() -> alarm_server::alarm::AlarmStatus {
    let alm = Alarm::new("a/x".to_string(), 1, 2, AlarmSeverity::High, "m1".to_string());
    match alm.on_measurement(1) {
        MeasDecision::EmitSet(e) => e,
        _ => panic!("set value emits"),
    }
}

#[test]
fn subscribe_is_idempotent() {
    let mut server = Server::new();
    let name = "a/x".to_string();
    assert!(server.subscribe(&name, 7));
    assert!(!server.subscribe(&name, 7));
    let targets = server.apply_event(&set_event_ax());
    assert_eq!(targets, vec![7u64]);
}

#[test]
fn fan_out_reaches_each_subscriber_once() {
    let mut server = Server::new();
    let name = "a/x".to_string();
    assert!(server.subscribe(&name, 1));
    assert!(server.subscribe(&name, 2));
    let targets = server.apply_event(&set_event_ax());
    assert_eq!(targets.len(), 2);
    assert!(targets.contains(&1));
    assert!(targets.contains(&2));
}

#[test]
fn reset_without_pending_ack_clears_projection() {
    let mut server = Server::new();
    let name = "a/x".to_string();
    server.subscribe(&name, 1);
    server.apply_event(&set_event_ax());
    let listed = server.get_all_subscribed(&vec![name.clone()]);
    assert_eq!(listed.len(), 1);
    assert_eq!(listed[0].state, AlarmState::Set_);
    // the clearing reset removes the entry
    let alm = Alarm::new("a/x".to_string(), 1, 2, AlarmSeverity::High, "m1".to_string());
    let mut store = alarm_server::history::History::new();
    store.apply_set(&alm);
    let reset = store.apply_reset(&alm).unwrap();
    assert_eq!(reset.ack, AlarmAck::None_);
    server.apply_event(&reset);
    assert!(server.get_all_subscribed(&vec![name]).is_empty());
}

#[test]
fn projection_keeps_acknowledged_events() {
    let mut server = Server::new();
    // a synthetic acknowledgement event is projected, not removed
    server.apply_event(&ack_event("a/x".to_string()));
    let listed = server.get_all_subscribed(&vec!["a/x".to_string()]);
    assert_eq!(listed.len(), 1);
    assert_eq!(listed[0].state, AlarmState::Unknown);
    assert_eq!(listed[0].ack, AlarmAck::Ack);
}

#[test]
fn get_all_subscribed_keeps_input_order() {
    let mut server = Server::new();
    server.apply_event(&set_event_ax());
    server.apply_event(&ack_event("b/y".to_string()));
    let names = vec!["b/y".to_string(), "missing".to_string(), "a/x".to_string()];
    let listed = server.get_all_subscribed(&names);
    assert_eq!(listed.len(), 2);
    assert_eq!(listed[0].name, "b/y");
    assert_eq!(listed[1].name, "a/x");
}

#[test]
fn parse_command_cases() {
    assert!(matches!(parse_command("::ka::"), Command::KeepAlive));
    match parse_command("::subscribe::a/x") {
        Command::Subscribe(a) => assert_eq!(a, "a/x"),
        _ => panic!("subscribe prefix"),
    }
    match parse_command("::ack::a/x") {
        Command::Ack(a) => assert_eq!(a, "a/x"),
        _ => panic!("ack prefix"),
    }
    assert!(matches!(parse_command("::ga::"), Command::GetAll));
    assert!(matches!(parse_command("anything else"), Command::Unknown));
}

#[test]
fn handshake_accepts_matching_version() {
    match do_handshake(Some(protocol_version())) {
        HandshakeReply::Accept(t) => {
            let mut expected = "::protocol_version:: ".to_string();
            expected.push_str(protocol_version());
            assert_eq!(t, expected);
        }
        _ => panic!("the matching version is accepted"),
    }
}

#[test]
fn handshake_rejects_differing_version() {
    // one byte off: close frame with protocol status and reason
    let mut wrong = protocol_version().to_string();
    wrong.push('x');
    match do_handshake(Some(wrong.as_str())) {
        HandshakeReply::Reject(code, reason) => {
            assert_eq!(code, 1002);
            assert_eq!(reason, "wrong version");
        }
        _ => panic!("a differing version is rejected"),
    }
}

#[test]
fn rejected_session_registers_nothing() {
    let mut server = Server::new();
    let routes = AckRoutes::new();
    let mut session = Session::new();
    let mut wrong = protocol_version().to_string();
    wrong.push('x');
    let out = session.on_message(&mut server, &routes, 7, Incoming::Text(wrong));
    match out {
        Some(Outgoing::SendClose(code, reason)) => {
            assert_eq!(code, 1002);
            assert_eq!(reason, "wrong version");
        }
        _ => panic!("a close frame is sent"),
    }
    assert_eq!(session.phase, Phase::Ended);
    // a subscribe sent before the close takes effect is not registered
    let out2 = session.on_message(
        &mut server,
        &routes,
        7,
        Incoming::Text("::subscribe::a/x".to_string()),
    );
    assert!(out2.is_none());
    let targets = server.apply_event(&set_event_ax());
    assert!(targets.is_empty());
}

#[test]
fn active_session_subscribes_and_lists() {
    let mut server = Server::new();
    let routes = AckRoutes::new();
    let mut session = Session::new();
    let out = session.on_message(
        &mut server,
        &routes,
        7,
        Incoming::Text(protocol_version().to_string()),
    );
    assert!(matches!(out, Some(Outgoing::Reply(_))));
    assert_eq!(session.phase, Phase::Active);
    let out = session.on_message(
        &mut server,
        &routes,
        7,
        Incoming::Text("::subscribe::a/x".to_string()),
    );
    assert!(out.is_none());
    let targets = server.apply_event(&set_event_ax());
    assert_eq!(targets, vec![7u64]);
    // the get-all reply lists the subscribed projection entry as JSON
    let out = session.on_message(&mut server, &routes, 7, Incoming::Text("::ga::".to_string()));
    match out {
        Some(Outgoing::Reply(t)) => {
            let expected = {
                let mut s = alarm_server::codec::encode(&set_event_ax());
                s.push('\n');
                s
            };
            assert_eq!(t, expected);
        }
        _ => panic!("get-all replies"),
    }
}

#[test]
fn ack_commands_route_or_report() {
    let mut server = Server::new();
    let mut routes = AckRoutes::new();
    routes.push("a/x".to_string());
    routes.push("a/y".to_string());
    let mut session = Session::new();
    session.on_message(
        &mut server,
        &routes,
        7,
        Incoming::Text(protocol_version().to_string()),
    );
    let out = session.on_message(
        &mut server,
        &routes,
        7,
        Incoming::Text("::ack::a/y".to_string()),
    );
    assert!(matches!(out, Some(Outgoing::RouteAck(1))));
    let out = session.on_message(
        &mut server,
        &routes,
        7,
        Incoming::Text("::ack::a/z".to_string()),
    );
    match out {
        Some(Outgoing::Reply(t)) => assert_eq!(t, "Couldn't find a/z to ack"),
        _ => panic!("an unknown name is reported"),
    }
}

#[test]
fn keep_alive_and_close_frames() {
    let mut server = Server::new();
    let routes = AckRoutes::new();
    let mut session = Session::new();
    session.on_message(
        &mut server,
        &routes,
        7,
        Incoming::Text(protocol_version().to_string()),
    );
    assert!(session
        .on_message(&mut server, &routes, 7, Incoming::Text("::ka::".to_string()))
        .is_none());
    assert!(session.on_message(&mut server, &routes, 7, Incoming::Binary).is_none());
    assert_eq!(session.phase, Phase::Active);
    assert!(session.on_message(&mut server, &routes, 7, Incoming::CloseFrame).is_none());
    assert_eq!(session.phase, Phase::Ended);
}

#[test]
fn handshake_needs_a_frame() {
    match do_handshake(None) {
        HandshakeReply::Reject(code, reason) => {
            assert_eq!(code, 1002);
            assert_eq!(reason, "wrong version");
        }
        _ => panic!("no frame is a failed handshake"),
    }
}

#[test]
fn binary_frame_fails_the_handshake() {
    let mut server = Server::new();
    let routes = AckRoutes::new();
    let mut session = Session::new();
    let out = session.on_message(&mut server, &routes, 7, Incoming::Binary);
    assert!(matches!(out, Some(Outgoing::SendClose(1002, _))));
    assert_eq!(session.phase, Phase::Ended);
}
