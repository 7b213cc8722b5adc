//! The pluggable transport capability: a narrow connect/listen interface
//! with one reliable-stream implementation and several obfuscating
//! variants, declared but not yet behaviorally implemented.  The circuit
//! layer never depends on which variant is active; moving bytes over an
//! established connection is the caller's business.

use vstd::prelude::*;

verus! {

/// A transport that can dial out to an address and listen on one.
/// Addresses are `"host:port"` strings.
pub trait PluggableTransport {
    /// Connects to a peer at `addr`.
    fn connect(&self, addr: &str) -> Result<(), String>;

    /// Starts listening on `addr`.
    fn listen(&self, addr: &str) -> Result<(), String>;
}

/// The reliable-stream transport: a direct bidirectional byte stream.
pub struct TcpTransport;

impl PluggableTransport for TcpTransport {
    fn connect(&self, _addr: &str) -> Result<(), String> {
        Ok(())
    }

    fn listen(&self, _addr: &str) -> Result<(), String> {
        Ok(())
    }
}

/// A low-latency secure-datagram transport; a placeholder.
pub struct QuicTransport;

impl PluggableTransport for QuicTransport {
    fn connect(&self, _addr: &str) -> Result<(), String> {
        Ok(())
    }

    fn listen(&self, _addr: &str) -> Result<(), String> {
        Ok(())
    }
}

/// A DNS-tunneled carrier transport; a placeholder.
pub struct DohTransport;

impl PluggableTransport for DohTransport {
    fn connect(&self, _addr: &str) -> Result<(), String> {
        Ok(())
    }

    fn listen(&self, _addr: &str) -> Result<(), String> {
        Ok(())
    }
}

/// A packet-shape obfuscation transport; a placeholder.
pub struct Obfs4Transport;

impl PluggableTransport for Obfs4Transport {
    fn connect(&self, _addr: &str) -> Result<(), String> {
        Ok(())
    }

    fn listen(&self, _addr: &str) -> Result<(), String> {
        Ok(())
    }
}

/// A traffic-padding and shaping transport; a placeholder.
pub struct TrafficShapingTransport;

impl PluggableTransport for TrafficShapingTransport {
    fn connect(&self, _addr: &str) -> Result<(), String> {
        Ok(())
    }

    fn listen(&self, _addr: &str) -> Result<(), String> {
        Ok(())
    }
}

/// A web-socket-tunneled carrier transport; a placeholder.
pub struct WebSocketTransport;

impl PluggableTransport for WebSocketTransport {
    fn connect(&self, _addr: &str) -> Result<(), String> {
        Ok(())
    }

    fn listen(&self, _addr: &str) -> Result<(), String> {
        Ok(())
    }
}

} // verus!
