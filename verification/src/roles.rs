//! The roles of the stack: client, fault manager, gateway, server and the
//! backend kinds a gateway routes to, with the server's configuration.
use vstd::prelude::*;

verus! {

/// Which kind of backend serves a component.
#[derive(Debug, Clone, Copy, PartialEq, Eq, Structural)]
pub enum BackendKind {
    /// Diagnostic Fault Manager.
    Dfm,
    /// Classic Diagnostic Adapter: legacy UDS ECU via DoIP/CAN.
    Cda,
    /// Native SOVD server.
    NativeSovd,
    /// Another gateway reached over HTTPS.
    Federated,
}

/// Outbound SOVD REST client instance.
pub struct Client {}

/// Diagnostic Fault Manager instance.
pub struct Dfm {}

/// System-wide SOVD gateway instance.
pub struct Gateway {}

/// SOVD server instance for a single ECU / component.
pub struct Server {}

/// Body of `GET /sovd/v1/health`.
#[derive(Debug)]
pub struct Health {
    /// Always `ok`.
    pub status: String,
    /// Version of the running server.
    pub version: String,
}

/// The health answer of a server running `version`.
pub fn health(version: &str) -> (r: Health)
    ensures
        r.status@ == "ok"@,
        r.version@ == version@,
{
    Health { status: String::from_str("ok"), version: String::from_str(version) }
}

/// Where the server listens.
#[derive(Debug, Clone)]
pub struct ServerConfig {
    /// Address to bind.
    pub address: String,
    /// Port to bind.
    pub port: u16,
}

/// Configuration of the main binary.
#[derive(Debug, Clone)]
pub struct Configuration {
    /// Server settings.
    pub server: ServerConfig,
}

impl Default for Configuration {
    /// Listen on every interface, port 20002.
    fn default() -> (r: Self)
        ensures
            r.server.address@ == "0.0.0.0"@,
            r.server.port == 20002,
    {
        Configuration { server: ServerConfig { address: String::from_str("0.0.0.0"), port: 20002 } }
    }
}

} // verus!
