use socket_io_rust::socket_io_adaptor::chat_room_manager::ChatRoomManager;
use socket_io_rust::socket_io_adaptor::chat_room_manager::Room;
use socket_io_rust::socket_io_adaptor::namespace::{
    Namespace, NamespaceName, NamespaceNameError,
};
use socket_io_rust::socket_io_adaptor::namespace_manager::{NamespaceManager, RegistryError};
use socket_io_rust::socket_io_adaptor::io_adaptor::IoAdaptor;
use socket_io_rust::socket_io_adaptor::socket_io_adaptor_impl::SocketIoAdaptor;

fn set_up() -> ChatRoomManager {
    let mut adaptor = ChatRoomManager::new();
    adaptor.add("sid1", "room1");
    adaptor.add("sid1", "room2");
    adaptor.add("sid2", "room1");
    adaptor.add("sid2", "room3");
    adaptor.add("sid3", "room3");
    adaptor
}

#[test]
fn chat_room_manager_add_test() {
    let mut adaptor = ChatRoomManager::new();
    adaptor.add("sid1", "room1");

    let rooms = adaptor.get_socket_rooms("sid1");
    assert!(rooms.contains(&String::from("room1")));
    assert_eq!(rooms.len(), 1);

    let room = adaptor.get_all_sids_from_rooms(vec!["room1"]);
    assert!(room.contains(&String::from("sid1")));
    assert_eq!(room.len(), 1);
}

#[test]
fn chat_room_manager_delete_test() {
    let mut adaptor = ChatRoomManager::new();
    adaptor.add("sid1", "room1");
    adaptor.add("sid1", "room2");
    adaptor.delete("sid1", "room2");

    let rooms = adaptor.get_socket_rooms("sid1");
    assert!(rooms.contains(&String::from("room1")));
    assert!(!rooms.contains(&String::from("room2")));
    assert_eq!(rooms.len(), 1);

    let room = adaptor.get_all_sids_from_rooms(vec!["room1"]);
    assert!(room.contains(&String::from("sid1")));
    assert_eq!(room.len(), 1);
}

#[test]
fn chat_room_manager_delete_all_test() {
    let mut adaptor = ChatRoomManager::new();
    adaptor.add("sid1", "room1");
    adaptor.add("sid1", "room2");
    adaptor.add("sid2", "room1");
    adaptor.delete_all("sid1");

    assert!(!adaptor.get_all_sids().contains(&String::from("sid1")));
    assert!(adaptor.get_all_sids().contains(&String::from("sid2")));

    let room1 = adaptor.get_all_sids_from_rooms(vec!["room1"]);
    assert!(room1.contains(&String::from("sid2")));
    assert!(!room1.contains(&String::from("sid1")));
}

#[test]
fn chat_room_manager_test_get_all_sids_from_rooms() {
    let adaptor = set_up();

    let mut sids = adaptor.get_all_sids_from_rooms(vec!["room1", "room2"]);
    sids.sort();
    assert_eq!(sids, vec![String::from("sid1"), String::from("sid2")]);
}

#[test]
fn chat_room_manager_test_get_all_sids() {
    let adaptor = set_up();
    let mut sids = adaptor.get_all_sids();
    sids.sort();
    assert_eq!(
        sids,
        vec![
            String::from("sid1"),
            String::from("sid2"),
            String::from("sid3")
        ]
    );
}

#[test]
fn test_get_all_rooms() {
    let adaptor = set_up();
    let mut rooms = adaptor.get_all_rooms();
    rooms.sort();
    assert_eq!(
        rooms,
        vec![
            String::from("room1"),
            String::from("room2"),
            String::from("room3")
        ]
    );
}

fn set_up_impl() -> SocketIoAdaptor {
    let mut adaptor = SocketIoAdaptor::new();
    adaptor.add("sid1", "room1");
    adaptor.add("sid1", "room2");
    adaptor.add("sid2", "room1");
    adaptor.add("sid2", "room3");
    adaptor.add("sid3", "room3");
    adaptor
}

#[test]
fn socket_io_adaptor_impl_add_test() {
    let mut adaptor = SocketIoAdaptor::new();
    adaptor.add("sid1", "room1");

    let rooms = adaptor.get_socket_rooms("sid1").unwrap();
    assert!(rooms.contains(&String::from("room1")));
    assert_eq!(rooms.len(), 1);

    let room = adaptor.get_all_sids_from_rooms(vec!["room1"]);
    assert!(room.contains(&String::from("sid1")));
    assert_eq!(room.len(), 1);
}

#[test]
fn socket_io_adaptor_impl_delete_test() {
    let mut adaptor = SocketIoAdaptor::new();
    adaptor.add("sid1", "room1");
    adaptor.add("sid1", "room2");
    adaptor.delete("sid1", "room2");

    let rooms = adaptor.get_socket_rooms("sid1").unwrap();
    assert!(rooms.contains(&String::from("room1")));
    assert!(!rooms.contains(&String::from("room2")));
    assert_eq!(rooms.len(), 1);

    let room = adaptor.get_all_sids_from_rooms(vec!["room1"]);
    assert!(room.contains(&String::from("sid1")));
    assert_eq!(room.len(), 1);
}

#[test]
fn socket_io_adaptor_impl_delete_all_test() {
    let mut adaptor = SocketIoAdaptor::new();
    adaptor.add("sid1", "room1");
    adaptor.add("sid1", "room2");
    adaptor.add("sid2", "room1");
    adaptor.delete_all("sid1");

    assert!(adaptor.get_socket_rooms("sid1").is_none());
    assert!(adaptor.get_socket_rooms("sid2").is_some());

    let room1 = adaptor.get_all_sids_from_rooms(vec!["room1"]);
    assert!(room1.contains(&String::from("sid2")));
    assert!(!room1.contains(&String::from("sid1")));
}

#[test]
fn socket_io_adaptor_impl_test_get_all_sids_from_rooms() {
    let adaptor = set_up_impl();

    let sids = adaptor.get_all_sids_from_rooms(vec!["room1", "room2"]);

    assert!(sids.contains(&String::from("sid1")));
    assert!(sids.contains(&String::from("sid2")));
    assert_eq!(sids.len(), 2);
}

#[test]
fn socket_io_adaptor_impl_test_get_all_sids() {
    let adaptor = set_up_impl();
    let sids = adaptor.get_all_sids();

    assert!(sids.contains(&String::from("sid1")));
    assert!(sids.contains(&String::from("sid2")));
    assert!(sids.contains(&String::from("sid3")));
    assert_eq!(sids.len(), 3);
}

#[test]
fn manager_test() {
    let mut m: NamespaceManager<u32> = NamespaceManager::new();

    let s = String::from("/hello");
    assert!(m.create_namespace(&s).is_ok());
    assert!(m.get_adaptor(&s).is_some());
}

#[test]
fn room_basics() {
    let mut room = Room::new();
    assert_eq!(room.length(), 0);
    room.add("a");
    room.add("a");
    room.add("b");
    assert_eq!(room.length(), 2);
    assert!(room.delete("a"));
    assert!(!room.delete("a"));
    assert_eq!(room.length(), 1);
}

#[test]
fn namespace_name_validation() {
    assert!(NamespaceName::try_new("/chat").is_ok());
    assert_eq!(
        NamespaceName::try_new("").unwrap_err(),
        NamespaceNameError::EmptyName
    );
    assert_eq!(
        NamespaceName::try_new("chat").unwrap_err(),
        NamespaceNameError::MustStartWithSlash
    );
    assert_eq!(
        NamespaceName::try_new("/a,b").unwrap_err(),
        NamespaceNameError::ContainsComma
    );
}

#[test]
fn create_namespace_errors() {
    let mut m: NamespaceManager<u32> = NamespaceManager::new();
    assert_eq!(
        m.create_namespace("nope").unwrap_err(),
        RegistryError::InvalidName(NamespaceNameError::MustStartWithSlash)
    );
    assert!(m.create_namespace("/dup").is_ok());
    assert_eq!(
        m.create_namespace("/dup").unwrap_err(),
        RegistryError::DuplicateNamespace
    );
    assert!(m.get_adaptor("/missing").is_none());
}

#[test]
fn membership_after_joins_and_removal() {
    // Two connections share a room; removing one leaves the other, and
    // the removed connection's self-room disappears.
    let mut ns: Namespace<u32> = Namespace::new(NamespaceName::try_new("/").unwrap());
    ns.add_socket("a", 1);
    ns.add_socket("b", 2);
    ns.join_room("a", "r");
    ns.join_room("b", "r");

    let mut targets: Vec<String> = ns
        .emit_to("r", "ev", "m")
        .into_iter()
        .map(|d| d.0)
        .collect();
    targets.sort();
    assert_eq!(targets, vec![String::from("a"), String::from("b")]);

    ns.remove_socket("a");
    let targets: Vec<String> = ns
        .emit_to("r", "ev", "m")
        .into_iter()
        .map(|d| d.0)
        .collect();
    assert_eq!(targets, vec![String::from("b")]);
    assert!(ns.emit_to("a", "ev", "m").is_empty());
}

#[test]
fn remove_connection_twice_is_idempotent() {
    let mut first: Namespace<u32> = Namespace::new(NamespaceName::try_new("/").unwrap());
    first.add_socket("a", 1);
    first.add_socket("b", 2);
    first.join_room("a", "shared");
    first.join_room("b", "shared");
    first.remove_socket("a");
    let mut once = first.get_all_sids();
    once.sort();

    first.remove_socket("a");
    let mut twice = first.get_all_sids();
    twice.sort();
    assert_eq!(once, twice);
    assert_eq!(once, vec![String::from("b")]);
}

#[test]
fn room_auto_deletion_after_last_leave() {
    let mut adaptor = ChatRoomManager::new();
    adaptor.add("sid1", "lonely");
    assert!(adaptor.get_all_rooms().contains(&String::from("lonely")));
    adaptor.delete("sid1", "lonely");
    assert!(!adaptor.get_all_rooms().contains(&String::from("lonely")));
    assert!(adaptor.get_all_rooms().is_empty());
}

#[test]
fn emit_to_rooms_delivers_one_frame_each() {
    // Three connections join "lobby"; the fan-out reaches each exactly
    // once with the rendered frame, and not an unrelated fourth.
    let mut ns: Namespace<u8> = Namespace::new(NamespaceName::try_new("/").unwrap());
    ns.add_socket("c1", 1);
    ns.add_socket("c2", 2);
    ns.add_socket("c3", 3);
    ns.add_socket("c4", 4);
    ns.join_room("c1", "lobby");
    ns.join_room("c2", "lobby");
    ns.join_room("c3", "lobby");

    let deliveries = ns.emit_to_rooms(vec!["lobby"], "msg", "hi");
    assert_eq!(deliveries.len(), 3);
    let mut sids: Vec<String> = deliveries.iter().map(|d| d.0.clone()).collect();
    sids.sort();
    assert_eq!(
        sids,
        vec![String::from("c1"), String::from("c2"), String::from("c3")]
    );
    for (_, msg) in &deliveries {
        assert_eq!(msg.render(), "msg,hi");
    }
    assert!(!sids.contains(&String::from("c4")));
}

#[test]
fn emit_to_all_reaches_every_member() {
    let mut ns: Namespace<u8> = Namespace::new(NamespaceName::try_new("/x").unwrap());
    assert_eq!(ns.get_name(), "/x");
    ns.add_socket("a", 1);
    ns.add_socket("b", 2);
    let deliveries = ns.emit_to_all("ev", "payload");
    let mut sids: Vec<String> = deliveries.iter().map(|d| d.0.clone()).collect();
    sids.sort();
    assert_eq!(sids, vec![String::from("a"), String::from("b")]);
}

#[test]
fn io_adaptor_fan_out() {
    let mut adaptor: IoAdaptor<u8> = IoAdaptor::new();
    adaptor.add_socket("a", 1);
    adaptor.add_socket("b", 2);
    adaptor.join_room("a", "g");
    adaptor.join_room("b", "g");
    adaptor.leave_room("b", "g");
    let deliveries = adaptor.emit_to_rooms(vec!["g"], "hello");
    assert_eq!(deliveries.len(), 1);
    assert_eq!(deliveries[0].0, "a");
    assert_eq!(deliveries[0].1, "hello");
    adaptor.remove_socket("a");
    let deliveries = adaptor.emit_to_all("hello");
    let sids: Vec<String> = deliveries.iter().map(|d| d.0.clone()).collect();
    assert_eq!(sids, vec![String::from("b")]);
}
