//! One conversation, end to end: two clients register, move to a room,
//! talk, and leave, with the session machines driving the hub exactly as
//! the transport would.

use chat_relay::server::{ChatServer, Connect, Disconnect};
use chat_relay::session::{HubRequest, SessionState, WsChatSession};
use chat_relay::ws::WsFrame;

struct Client {
    session: WsChatSession,
}

impl Client {
    fn connect(hub: &mut ChatServer) -> (Client, Vec<chat_relay::server::Delivery>) {
        let (id, ds) = hub.handle_connect(Connect);
        let mut session = WsChatSession::new(0);
        session.on_registered(id);
        (Client { session }, ds)
    }

    /// Sends one text line; returns (lines echoed to this client, deliveries to others).
    fn say(
        &mut self,
        hub: &mut ChatServer,
        line: &str,
        now: u64,
    ) -> (Vec<String>, Vec<chat_relay::server::Delivery>) {
        let out = self.session.handle(WsFrame::Text(String::from(line)), now);
        let mut deliveries = Vec::new();
        let mut echoed = out.texts;
        match out.request {
            Some(HubRequest::Message(m)) => deliveries = hub.handle_client_message(m),
            Some(HubRequest::Join(j)) => deliveries = hub.handle_join(j),
            Some(HubRequest::List(l)) => echoed.extend(hub.handle_list_rooms(l)),
            None => {},
        }
        (echoed, deliveries)
    }
}

#[test]
fn two_clients_full_conversation() {
    let mut hub = ChatServer::default();

    // A registers and sits in Main.
    let (mut a, _) = Client::connect(&mut hub);
    let a_id = a.session.id;
    assert_eq!(hub.room_members("Main"), vec![a_id]);

    // B registers; A hears about it.
    let (mut b, ds) = Client::connect(&mut hub);
    let b_id = b.session.id;
    assert_eq!(ds.len(), 1);
    assert_eq!(ds[0].to, a_id);

    // A moves to the lobby; B, left behind in Main, is told.
    let (echoed, ds) = a.say(&mut hub, "/join lobby", 1);
    assert_eq!(echoed, vec![String::from("joined")]);
    assert_eq!(ds.len(), 1);
    assert_eq!(ds[0].to, b_id);
    assert_eq!(ds[0].msg.0, "Someone left");

    // B follows; A, already there, is told.
    let (_, ds) = b.say(&mut hub, "/join lobby", 1);
    assert!(ds.iter().any(|d| d.to == a_id && d.msg.0 == "Someone joined"));

    // A names itself and speaks; only B hears, with the name prefixed.
    let (_, ds) = a.say(&mut hub, "/name Alice", 2);
    assert!(ds.is_empty());
    let (echoed, ds) = a.say(&mut hub, "Hello", 3);
    assert!(echoed.is_empty(), "the sender gets nothing back");
    assert_eq!(ds.len(), 1);
    assert_eq!(ds[0].to, b_id);
    assert_eq!(ds[0].msg.0, "Alice: Hello");

    // The room list, as A sees it.
    let (echoed, _) = a.say(&mut hub, "/list", 4);
    assert!(echoed.iter().any(|n| n == "Main"));
    assert!(echoed.iter().any(|n| n == "lobby"));

    // A closes; B hears the disconnect, and the lobby stays listed.
    let out = a.session.handle(WsFrame::Close, 5);
    assert!(out.stop);
    assert_eq!(a.session.state, SessionState::Closing);
    let d: Disconnect = a.session.stopping();
    let ds = hub.handle_disconnect(d);
    assert_eq!(ds.len(), 1);
    assert_eq!(ds[0].to, b_id);
    assert_eq!(ds[0].msg.0, "Someone disconnected");
    assert_eq!(hub.room_members("lobby"), vec![b_id]);
    assert!(hub.handle_list_rooms(chat_relay::server::ListRooms).iter().any(|n| n == "lobby"));
}
