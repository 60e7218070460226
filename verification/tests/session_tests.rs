use chat_relay::session::{WsChatSession, SessionState, HubRequest, HbAction};
use chat_relay::ws::WsFrame;
use chat_relay::server::{ChatServer, Connect, Disconnect};

fn active_session(id: usize, now: u64) -> WsChatSession {
    let mut s = WsChatSession::new(now);
    assert_eq!(s.state, SessionState::Connecting);
    s.on_registered(id);
    assert_eq!(s.state, SessionState::Active);
    s
}

#[test]
fn new_session_starts_in_main() {
    let s = WsChatSession::new(7);
    assert_eq!(s.state, SessionState::Connecting);
    assert_eq!(s.id, 0);
    assert_eq!(s.hb, 7);
    assert_eq!(s.room, "Main");
    assert!(s.name.is_none());
}

#[test]
fn ping_refreshes_activity_and_pongs_payload() {
    let mut s = active_session(1, 0);
    let out = s.handle(WsFrame::Ping(vec![1, 2, 3]), 4);
    assert_eq!(s.hb, 4);
    assert_eq!(out.pong.as_deref(), Some(&[1u8, 2, 3][..]));
    assert!(out.texts.is_empty());
    assert!(out.request.is_none());
    assert!(!out.stop);
    assert_eq!(s.state, SessionState::Active);
}

#[test]
fn pong_refreshes_activity_only() {
    let mut s = active_session(1, 0);
    let out = s.handle(WsFrame::Pong(Vec::new()), 9);
    assert_eq!(s.hb, 9);
    assert!(out.pong.is_none());
    assert!(out.request.is_none());
    assert!(!out.stop);
}

#[test]
fn anonymous_broadcast_goes_to_current_room() {
    let mut s = active_session(5, 0);
    let out = s.handle(WsFrame::Text(String::from("Hello")), 1);
    match out.request {
        Some(HubRequest::Message(m)) => {
            assert_eq!(m.id, 5);
            assert_eq!(m.msg, "Hello");
            assert_eq!(m.room, "Main");
        },
        _ => panic!("expected a routed message"),
    }
}

#[test]
fn named_broadcast_is_prefixed() {
    let mut s = active_session(5, 0);
    let out = s.handle(WsFrame::Text(String::from("/name Alice")), 1);
    assert!(out.request.is_none());
    assert_eq!(s.name.as_deref(), Some("Alice"));
    let out = s.handle(WsFrame::Text(String::from("Hello")), 2);
    match out.request {
        Some(HubRequest::Message(m)) => assert_eq!(m.msg, "Alice: Hello"),
        _ => panic!("expected a routed message"),
    }
}

#[test]
fn join_command_updates_room_and_acknowledges() {
    let mut s = active_session(5, 0);
    let out = s.handle(WsFrame::Text(String::from("/join lobby")), 1);
    assert_eq!(s.room, "lobby");
    match out.request {
        Some(HubRequest::Join(j)) => {
            assert_eq!(j.id, 5);
            assert_eq!(j.room, "lobby");
        },
        _ => panic!("expected a join request"),
    }
    assert_eq!(out.texts, vec![String::from("joined")]);
}

#[test]
fn join_without_argument_reports_and_changes_nothing() {
    let mut s = active_session(5, 0);
    let out = s.handle(WsFrame::Text(String::from("/join")), 1);
    assert_eq!(out.texts, vec![String::from("!!! room name is required")]);
    assert!(out.request.is_none());
    assert_eq!(s.room, "Main");
    assert_eq!(s.state, SessionState::Active);
}

#[test]
fn list_command_asks_the_hub() {
    let mut s = active_session(5, 0);
    let out = s.handle(WsFrame::Text(String::from("/list")), 1);
    assert!(matches!(out.request, Some(HubRequest::List(_))));
}

#[test]
fn unknown_command_is_reported() {
    let mut s = active_session(5, 0);
    let out = s.handle(WsFrame::Text(String::from("/shout loudly")), 1);
    assert_eq!(out.texts, vec![String::from("!!! unknown command: /shout")]);
    assert!(out.request.is_none());
}

#[test]
fn input_is_trimmed_before_parsing() {
    let mut s = active_session(5, 0);
    let out = s.handle(WsFrame::Text(String::from("  /list  \r\n")), 1);
    assert!(matches!(out.request, Some(HubRequest::List(_))));
}

#[test]
fn close_frame_starts_teardown_and_deregisters() {
    let mut hub = ChatServer::default();
    let (a, _) = hub.handle_connect(Connect);
    let mut s = active_session(a, 0);
    let out = s.handle(WsFrame::Close, 1);
    assert!(out.stop);
    assert_eq!(s.state, SessionState::Closing);
    let d: Disconnect = s.stopping();
    assert_eq!(d.id, a);
    assert_eq!(s.state, SessionState::Closed);
    hub.handle_disconnect(d);
    assert!(hub.room_members("Main").is_empty());
}

#[test]
fn binary_frame_starts_teardown() {
    let mut s = active_session(5, 0);
    let out = s.handle(WsFrame::Binary(vec![0xde, 0xad]), 1);
    assert!(out.stop);
    assert_eq!(s.state, SessionState::Closing);
}

#[test]
fn undecodable_frame_starts_teardown() {
    let mut s = active_session(5, 0);
    let out = s.handle(WsFrame::Invalid, 1);
    assert!(out.stop);
    assert_eq!(s.state, SessionState::Closing);
}

#[test]
fn heartbeat_pings_within_the_window() {
    let mut s = active_session(5, 0);
    let a = s.hb(10);
    assert_eq!(a, HbAction::SendPing);
    assert_eq!(s.state, SessionState::Active);
}

#[test]
fn heartbeat_evicts_a_silent_session() {
    let mut hub = ChatServer::default();
    let (a, _) = hub.handle_connect(Connect);
    let (b, _) = hub.handle_connect(Connect);
    let mut s = active_session(a, 0);
    // no ping or pong ever arrives; past the timeout the monitor evicts
    let act = s.hb(11);
    assert_eq!(act, HbAction::Evict);
    assert_eq!(s.state, SessionState::Closing);
    let d = s.stopping();
    let ds = hub.handle_disconnect(d);
    assert_eq!(hub.room_members("Main"), vec![b]);
    assert_eq!(ds.len(), 1);
    assert_eq!(ds[0].to, b);
    assert_eq!(ds[0].msg.0, "Someone disconnected");
}

#[test]
fn activity_postpones_eviction() {
    let mut s = active_session(5, 0);
    s.handle(WsFrame::Pong(Vec::new()), 8);
    let a = s.hb(15);
    assert_eq!(a, HbAction::SendPing, "15 - 8 is within the timeout");
    let a = s.hb(19);
    assert_eq!(a, HbAction::Evict, "19 - 8 exceeds the timeout");
}
