use pabitell::websocket::WsManager;

#[test]
fn register_and_recipients() {
    let mut manager: WsManager<&str> = WsManager::new();
    assert!(manager.recipients(1).is_empty());
    manager.register(1, 10, "a");
    manager.register(1, 11, "b");
    manager.register(2, 10, "c");
    let mut ids = manager.recipients(1);
    ids.sort();
    assert_eq!(ids, vec![10, 11]);
    assert_eq!(manager.recipients(2), vec![10]);
    assert_eq!(manager.recipient(1, 11), Some(&"b"));
    assert_eq!(manager.recipient(2, 10), Some(&"c"));
    assert_eq!(manager.recipient(2, 11), None);
    assert_eq!(manager.recipient(3, 10), None);
}

#[test]
fn register_same_id_replaces() {
    let mut manager: WsManager<&str> = WsManager::new();
    manager.register(1, 10, "a");
    manager.register(1, 10, "b");
    assert_eq!(manager.recipients(1), vec![10]);
    assert_eq!(manager.recipient(1, 10), Some(&"b"));
}

#[test]
fn disconnect_forgets_client_and_empty_world() {
    let mut manager: WsManager<&str> = WsManager::new();
    manager.register(1, 10, "a");
    manager.register(1, 11, "b");
    manager.disconnect(1, 10);
    assert_eq!(manager.recipients(1), vec![11]);
    manager.disconnect(1, 99);
    assert_eq!(manager.recipients(1), vec![11]);
    manager.disconnect(7, 11);
    assert_eq!(manager.recipients(1), vec![11]);
    manager.disconnect(1, 11);
    assert!(manager.recipients(1).is_empty());
    assert_eq!(manager.recipient(1, 11), None);
}

#[test]
fn connect_gives_a_fresh_id() {
    let mut manager: WsManager<u32> = WsManager::new();
    let id = manager.connect(5, 42);
    assert_eq!(manager.recipients(5), vec![id]);
    assert_eq!(manager.recipient(5, id), Some(&42));
    manager.disconnect(5, id);
    assert!(manager.recipients(5).is_empty());
}

use pabitell::connection::{Beat, ClientFrame, Reply, WsConnection, CLIENT_TIMEOUT_MS, HEARTBEAT_INTERVAL_MS};
use uuid::Uuid;

#[test]
fn connection_frames() {
    let world = Uuid::from_u128(9);
    let mut c = WsConnection::new(0, world);
    assert_eq!(c.id(), None);
    assert!(c.started(Some(4)));
    assert_eq!(c.id(), Some(4));
    assert!(matches!(c.handle(ClientFrame::Ping(vec![1, 2]), 100), Reply::Pong(b) if b == vec![1, 2]));
    match c.handle(ClientFrame::Text("hello".to_string()), 200) {
        Reply::Forward { world_id, text } => {
            assert_eq!(world_id, world);
            assert_eq!(text, "hello");
        },
        other => panic!("unexpected {other:?}"),
    }
    assert!(matches!(c.handle(ClientFrame::Pong, 300), Reply::Nothing));
    assert!(matches!(c.handle(ClientFrame::Binary, 400), Reply::Nothing));
    assert!(matches!(c.handle(ClientFrame::Nop, 400), Reply::Nothing));
    assert!(matches!(c.handle(ClientFrame::Close, 400), Reply::CloseAndStop));
    assert!(matches!(c.handle(ClientFrame::Continuation, 400), Reply::Stop));
    assert!(matches!(c.handle(ClientFrame::Failed, 400), Reply::Stop));
    assert_eq!(c.stopping(), (4, world));
}

#[test]
fn connection_heartbeat() {
    let world = Uuid::from_u128(9);
    let mut c = WsConnection::new(1000, world);
    assert!(HEARTBEAT_INTERVAL_MS < CLIENT_TIMEOUT_MS);
    assert!(matches!(c.heartbeat(1000 + CLIENT_TIMEOUT_MS), Beat::Ping));
    assert!(matches!(c.heartbeat(500), Beat::Ping));
    match c.heartbeat(1001 + CLIENT_TIMEOUT_MS) {
        Beat::Disconnect { id, world_id } => {
            assert_eq!(id, 0);
            assert_eq!(world_id, world);
        },
        Beat::Ping => panic!("silent client kept"),
    }
    // a pong keeps the client alive
    let _ = c.handle(ClientFrame::Pong, 1000 + CLIENT_TIMEOUT_MS);
    assert!(matches!(c.heartbeat(1001 + CLIENT_TIMEOUT_MS), Beat::Ping));
    assert!(!c.started(None));
    assert_eq!(c.stopping(), (0, world));
}
