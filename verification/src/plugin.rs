//! Plugin lifecycle state and the network plugins' configuration.

use vstd::prelude::*;

verus! {

/// The lifecycle state of the registered plugins.
#[derive(PartialEq, Eq, Debug, Clone, Copy, PartialOrd, Ord)]
pub enum PluginsState {
    Adding,
    Ready,
    Finished,
    Cleaned,
}

/// Configuration of the WebSocket server plugin: the address it listens on.
pub struct FluxionWebSocketPlugin {
    pub address: String,
}

impl FluxionWebSocketPlugin {
    /// A plugin that will listen on `address` (for example "127.0.0.1:8080").
    pub fn new<S: Into<String>>(address: S) -> (plugin: Self)
        ensures
            call_ensures(S::into, (address,), plugin.address),
    {
        FluxionWebSocketPlugin { address: address.into() }
    }
}

/// Configuration of the WebTransport server plugin: the address it listens on.
pub struct FluxionWebTransportPlugin {
    pub address: String,
}

impl FluxionWebTransportPlugin {
    /// A plugin that will listen on `address`.
    pub fn new<S: Into<String>>(address: S) -> (plugin: Self)
        ensures
            call_ensures(S::into, (address,), plugin.address),
    {
        FluxionWebTransportPlugin { address: address.into() }
    }
}

} // verus!
