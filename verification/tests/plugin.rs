use ecson::events::{BroadcastMessage, NetworkPayload};
use ecson::plugin::{FluxionWebSocketPlugin, FluxionWebTransportPlugin, PluginsState};

#[test]
fn websocket_plugin_keeps_address() {
    let plugin = FluxionWebSocketPlugin::new("127.0.0.1:8080");
    assert_eq!(plugin.address, "127.0.0.1:8080");
}

#[test]
fn websocket_plugin_takes_a_string() {
    let plugin = FluxionWebSocketPlugin::new(String::from("0.0.0.0:9000"));
    assert_eq!(plugin.address, "0.0.0.0:9000");
}

#[test]
fn webtransport_plugin_keeps_address() {
    let plugin = FluxionWebTransportPlugin::new("127.0.0.1:4433");
    assert_eq!(plugin.address, "127.0.0.1:4433");
}

#[test]
fn plugins_state_order() {
    assert!(PluginsState::Adding < PluginsState::Ready);
    assert!(PluginsState::Ready < PluginsState::Finished);
    assert!(PluginsState::Finished < PluginsState::Cleaned);
}

#[test]
fn broadcast_message_holds_payload() {
    let b = BroadcastMessage { msg: NetworkPayload::Text("hi".to_string()) };
    assert_eq!(b.msg, NetworkPayload::Text("hi".to_string()));
}
