use chat_relay::server::{ChatServer, Connect, Disconnect, Join, ClientMessage, ListRooms};

fn names(hub: &ChatServer) -> Vec<String> {
    hub.handle_list_rooms(ListRooms)
}

#[test]
fn register_joins_main_and_lists_it() {
    let mut hub = ChatServer::default();
    let (a, ds) = hub.handle_connect(Connect);
    assert!(ds.is_empty(), "an empty main room hears nothing");
    assert_eq!(hub.room_members("Main"), vec![a]);
    assert!(names(&hub).iter().any(|n| n == "Main"));
}

#[test]
fn second_register_notifies_first() {
    let mut hub = ChatServer::default();
    let (a, _) = hub.handle_connect(Connect);
    let (b, ds) = hub.handle_connect(Connect);
    assert_ne!(a, b);
    assert_eq!(ds.len(), 1);
    assert_eq!(ds[0].to, a);
    assert_eq!(ds[0].msg.0, "Someone joined lobby");
    assert_eq!(hub.room_members("Main"), vec![a, b]);
}

#[test]
fn register_never_reuses_a_live_id() {
    let mut hub = ChatServer::default();
    let mut ids: Vec<usize> = Vec::new();
    for _ in 0..32 {
        let (id, _) = hub.handle_connect(Connect);
        assert!(!ids.contains(&id), "a live id was handed out twice");
        ids.push(id);
    }
}

#[test]
fn join_moves_session_and_notifies_both_rooms() {
    let mut hub = ChatServer::default();
    let (a, _) = hub.handle_connect(Connect);
    let (b, _) = hub.handle_connect(Connect);
    let ds = hub.handle_join(Join { id: a, room: String::from("lobby") });
    // "Main" keeps b only; "lobby" now exists and holds a.
    assert_eq!(hub.room_members("Main"), vec![b]);
    assert_eq!(hub.room_members("lobby"), vec![a]);
    assert!(names(&hub).iter().any(|n| n == "lobby"));
    // b hears that someone left Main; the empty lobby hears nothing.
    assert_eq!(ds.len(), 1);
    assert_eq!(ds[0].to, b);
    assert_eq!(ds[0].msg.0, "Someone left");
}

#[test]
fn join_notifies_new_room_excluding_joiner() {
    let mut hub = ChatServer::default();
    let (a, _) = hub.handle_connect(Connect);
    let (b, _) = hub.handle_connect(Connect);
    hub.handle_join(Join { id: a, room: String::from("lobby") });
    let ds = hub.handle_join(Join { id: b, room: String::from("lobby") });
    // a (already in lobby) hears both the departure from Main and the arrival.
    let to_a: Vec<&str> = ds.iter().filter(|d| d.to == a).map(|d| d.msg.0.as_str()).collect();
    assert!(to_a.contains(&"Someone joined"));
    assert!(ds.iter().all(|d| d.to != b), "no notice goes back to the joiner");
    assert_eq!(hub.room_members("lobby"), vec![a, b]);
}

#[test]
fn join_of_unknown_id_is_ignored() {
    let mut hub = ChatServer::default();
    let (a, _) = hub.handle_connect(Connect);
    let bogus = a.wrapping_add(1);
    let ds = hub.handle_join(Join { id: bogus, room: String::from("lobby") });
    assert!(ds.is_empty());
    assert!(!names(&hub).iter().any(|n| n == "lobby"), "no room appears for an unknown id");
    assert_eq!(hub.room_members("Main"), vec![a]);
}

#[test]
fn route_message_skips_the_sender() {
    let mut hub = ChatServer::default();
    let (a, _) = hub.handle_connect(Connect);
    let (b, _) = hub.handle_connect(Connect);
    let (c, _) = hub.handle_connect(Connect);
    let ds = hub.handle_client_message(ClientMessage {
        id: a,
        msg: String::from("Alice: Hello"),
        room: String::from("Main"),
    });
    let mut tos: Vec<usize> = ds.iter().map(|d| d.to).collect();
    tos.sort_unstable();
    let mut expected = vec![b, c];
    expected.sort_unstable();
    assert_eq!(tos, expected);
    assert!(ds.iter().all(|d| d.msg.0 == "Alice: Hello"));
    assert!(ds.iter().all(|d| d.to != a), "no self-echo");
}

#[test]
fn route_message_to_unknown_room_is_silent() {
    let mut hub = ChatServer::default();
    let (a, _) = hub.handle_connect(Connect);
    let ds = hub.handle_client_message(ClientMessage {
        id: a,
        msg: String::from("hello"),
        room: String::from("nowhere"),
    });
    assert!(ds.is_empty());
}

#[test]
fn disconnect_notifies_room_and_keeps_it_listed() {
    let mut hub = ChatServer::default();
    let (a, _) = hub.handle_connect(Connect);
    let (b, _) = hub.handle_connect(Connect);
    hub.handle_join(Join { id: a, room: String::from("lobby") });
    hub.handle_join(Join { id: b, room: String::from("lobby") });
    let ds = hub.handle_disconnect(Disconnect { id: a });
    assert_eq!(ds.len(), 1);
    assert_eq!(ds[0].to, b);
    assert_eq!(ds[0].msg.0, "Someone disconnected");
    assert_eq!(hub.room_members("lobby"), vec![b]);
    // the no-deletion policy: an emptied room stays listed
    let ds2 = hub.handle_disconnect(Disconnect { id: b });
    assert!(ds2.is_empty(), "nobody is left to notify");
    assert!(names(&hub).iter().any(|n| n == "lobby"));
    assert!(hub.room_members("lobby").is_empty());
}

#[test]
fn disconnect_twice_is_one_effective_removal() {
    let mut hub = ChatServer::default();
    let (a, _) = hub.handle_connect(Connect);
    let (b, _) = hub.handle_connect(Connect);
    let ds1 = hub.handle_disconnect(Disconnect { id: a });
    assert_eq!(ds1.len(), 1, "b hears the first removal");
    let members_after_first = hub.room_members("Main");
    let rooms_after_first = names(&hub);
    let ds2 = hub.handle_disconnect(Disconnect { id: a });
    assert!(ds2.is_empty(), "the second removal is a no-op");
    assert_eq!(hub.room_members("Main"), members_after_first);
    assert_eq!(names(&hub), rooms_after_first);
    assert_eq!(hub.room_members("Main"), vec![b]);
}

#[test]
fn list_rooms_includes_empty_main() {
    let hub = ChatServer::default();
    let listed = names(&hub);
    assert_eq!(listed, vec![String::from("Main")]);
}
