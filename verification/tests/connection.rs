use ecson::connection::{
    ConnectionIdAllocator, ConnectionMap, ConnectionReader, InboundEvent, RouteAction, SocketRead,
    FIRST_CONNECTION_ID,
};
use ecson::events::NetworkPayload;

fn text(s: &str) -> NetworkPayload {
    NetworkPayload::Text(s.to_string())
}

#[test]
fn ids_start_at_one_and_count_up() {
    let mut ids = ConnectionIdAllocator::new();
    assert_eq!(ids.allocate(), FIRST_CONNECTION_ID);
    assert_eq!(ids.allocate(), 2);
    assert_eq!(ids.allocate(), 3);
}

#[test]
fn ids_are_distinct() {
    let mut ids = ConnectionIdAllocator::new();
    let got: Vec<u64> = (0..100).map(|_| ids.allocate()).collect();
    for i in 0..got.len() {
        for j in (i + 1)..got.len() {
            assert_ne!(got[i], got[j]);
        }
    }
}

#[test]
fn connected_registers_entity() {
    let mut map = ConnectionMap::new();
    let action = map.route(InboundEvent::Connected { id: 7, entity: 42 });
    assert!(matches!(action, RouteAction::Registered { id: 7, entity: 42 }));
    assert_eq!(map.entity_of(7), Some(42));
    assert_eq!(map.0.len(), 1);
}

#[test]
fn message_after_connect_reaches_entity() {
    let mut map = ConnectionMap::new();
    map.route(InboundEvent::Connected { id: 1, entity: 100 });
    let action = map.route(InboundEvent::Message { id: 1, payload: text("Hello, Ecson!") });
    match action {
        RouteAction::Deliver(received) => {
            assert_eq!(received.entity, 100);
            assert_eq!(received.client_id, 1);
            assert_eq!(received.payload, text("Hello, Ecson!"));
        }
        _ => panic!("message was not delivered"),
    }
}

#[test]
fn message_on_unknown_connection_is_dropped() {
    let mut map = ConnectionMap::new();
    map.route(InboundEvent::Connected { id: 1, entity: 100 });
    let action = map.route(InboundEvent::Message { id: 2, payload: NetworkPayload::Binary(vec![1, 2]) });
    assert!(matches!(action, RouteAction::Dropped { id: 2 }));
    assert_eq!(map.0.len(), 1);
}

#[test]
fn reconnect_with_same_id_replaces_entity() {
    let mut map = ConnectionMap::default();
    map.route(InboundEvent::Connected { id: 5, entity: 10 });
    map.route(InboundEvent::Connected { id: 5, entity: 11 });
    assert_eq!(map.entity_of(5), Some(11));
    assert_eq!(map.0.len(), 1);
}

#[test]
fn disconnect_hands_on_entity_and_removes_entry() {
    let mut map = ConnectionMap::new();
    map.route(InboundEvent::Connected { id: 3, entity: 9 });
    map.route(InboundEvent::Connected { id: 4, entity: 10 });
    let action = map.route(InboundEvent::Disconnected { id: 3 });
    match action {
        RouteAction::Disconnect(left) => {
            assert_eq!(left.entity, 9);
            assert_eq!(left.client_id, 3);
        }
        _ => panic!("disconnect did not hand on the entity"),
    }
    assert_eq!(map.entity_of(3), None);
    assert_eq!(map.entity_of(4), Some(10));
    let action = map.route(InboundEvent::Message { id: 3, payload: text("late") });
    assert!(matches!(action, RouteAction::Dropped { id: 3 }));
}

#[test]
fn disconnect_of_unknown_connection_is_closed() {
    let mut map = ConnectionMap::new();
    let action = map.route(InboundEvent::Disconnected { id: 8 });
    assert!(matches!(action, RouteAction::Closed { id: 8 }));
    assert_eq!(map.0.len(), 0);
}

#[test]
fn reader_forwards_frames_then_one_disconnect() {
    let mut reader = ConnectionReader::new(6);
    assert!(!reader.is_closed());
    match reader.on_read(SocketRead::Frame(text("a"))) {
        Some(InboundEvent::Message { id: 6, payload }) => assert_eq!(payload, text("a")),
        _ => panic!("frame was not forwarded"),
    }
    match reader.on_read(SocketRead::Frame(NetworkPayload::Binary(vec![7]))) {
        Some(InboundEvent::Message { id: 6, payload }) => {
            assert_eq!(payload, NetworkPayload::Binary(vec![7]))
        }
        _ => panic!("frame was not forwarded"),
    }
    assert!(matches!(reader.on_read(SocketRead::Close), Some(InboundEvent::Disconnected { id: 6 })));
    assert!(reader.is_closed());
    assert!(reader.on_read(SocketRead::Frame(text("b"))).is_none());
    assert!(reader.on_read(SocketRead::End).is_none());
}

#[test]
fn reader_closes_on_error_and_end() {
    let mut reader = ConnectionReader::new(1);
    assert!(matches!(reader.on_read(SocketRead::Error), Some(InboundEvent::Disconnected { id: 1 })));
    let mut reader = ConnectionReader::new(2);
    assert!(matches!(reader.on_read(SocketRead::End), Some(InboundEvent::Disconnected { id: 2 })));
    assert!(reader.is_closed());
}

#[test]
fn other_connections_unaffected_by_connect() {
    let mut map = ConnectionMap::new();
    map.route(InboundEvent::Connected { id: 1, entity: 100 });
    map.route(InboundEvent::Connected { id: 2, entity: 200 });
    let action = map.route(InboundEvent::Message { id: 1, payload: NetworkPayload::Ping(vec![]) });
    match action {
        RouteAction::Deliver(received) => assert_eq!(received.entity, 100),
        _ => panic!("message was not delivered"),
    }
}
