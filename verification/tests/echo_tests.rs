use chat_relay::echo::MyWebsocket;
use chat_relay::session::HbAction;
use chat_relay::ws::WsFrame;

#[test]
fn echo_starts_with_given_stamp() {
    let w = MyWebsocket::new(3);
    assert_eq!(w.hb, 3);
}

#[test]
fn echo_answers_ping_and_refreshes() {
    let mut w = MyWebsocket::new(0);
    let out = w.handle(WsFrame::Ping(vec![9]), 2);
    assert_eq!(w.hb, 2);
    assert_eq!(out.pong.as_deref(), Some(&[9u8][..]));
    assert!(!out.stop);
}

#[test]
fn echo_pong_refreshes_only() {
    let mut w = MyWebsocket::new(0);
    let out = w.handle(WsFrame::Pong(Vec::new()), 5);
    assert_eq!(w.hb, 5);
    assert!(out.pong.is_none() && out.text.is_none() && out.binary.is_none() && !out.stop);
}

#[test]
fn echo_returns_text_verbatim() {
    let mut w = MyWebsocket::new(0);
    let out = w.handle(WsFrame::Text(String::from("ahoy")), 1);
    assert_eq!(out.text.as_deref(), Some("ahoy"));
    assert!(!out.stop);
    assert_eq!(w.hb, 0, "text does not refresh the stamp");
}

#[test]
fn echo_returns_binary_verbatim() {
    let mut w = MyWebsocket::new(0);
    let out = w.handle(WsFrame::Binary(vec![1, 2]), 1);
    assert_eq!(out.binary.as_deref(), Some(&[1u8, 2][..]));
    assert!(!out.stop);
}

#[test]
fn echo_stops_on_close_and_oddities() {
    for f in [WsFrame::Close, WsFrame::Continuation, WsFrame::Nop, WsFrame::Invalid] {
        let mut w = MyWebsocket::new(0);
        let out = w.handle(f, 1);
        assert!(out.stop);
    }
}

#[test]
fn echo_heartbeat_window() {
    let mut w = MyWebsocket::new(0);
    assert_eq!(w.hb(10), HbAction::SendPing);
    assert_eq!(w.hb(11), HbAction::Evict);
}
