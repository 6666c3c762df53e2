//! The daemon's request and response vocabulary, as carried over the
//! IPC socket and the websocket: envelopes with an echoed id, the
//! request variants, and the daemon's configuration snapshot.

use vstd::prelude::*;

verus! {

/// A JSON-Patch document as delivered to status subscribers; opaque
/// to the core, produced and consumed by the transports.
#[verifier::external_type_specification]
#[verifier::external_body]
pub struct ExPatch(json_patch::Patch);

/// One operation of a JSON-Patch document; likewise opaque.
#[verifier::external_type_specification]
#[verifier::external_body]
pub struct ExPatchOperation(json_patch::PatchOperation);

/// A request a client may send to the daemon.
#[derive(Debug)]
pub enum DaemonRequest {
    /// Simple ping, answered with Ok or an error.
    Ping,
    /// Fetches the full daemon status.
    GetStatus,
    Daemon(DaemonCommand),
    Pipewire(PipewireCommand),
}

/// A request envelope; the id is echoed so clients can multiplex.
#[derive(Debug)]
pub struct WebsocketRequest {
    pub id: u64,
    pub data: DaemonRequest,
}

/// A response from the daemon.
pub enum DaemonResponse {
    Okay,
    Error(String),
    Patch(json_patch::Patch),
    Status(DaemonStatus),
    Pipewire(PipewireCommandResponse),
}

/// A response envelope carrying the request's id back.
pub struct WebsocketResponse {
    pub id: u64,
    pub data: DaemonResponse,
}

/// Daemon-level commands; none are defined yet, and the placeholder
/// variant is never produced by the transports.
#[derive(Debug)]
pub enum DaemonCommand {
    Reserved,
}

/// Host-graph-level commands; none are defined yet, and the
/// placeholder variant is never produced by the transports.
#[derive(Debug)]
pub enum PipewireCommand {
    Reserved,
}

/// The outcome of a host-graph-level command.
#[derive(Debug)]
pub enum PipewireCommandResponse {
    Okay,
    Error(String),
}

/// The daemon's status snapshot.
#[derive(Debug)]
pub struct DaemonStatus {
    pub config: DaemonConfig,
}

/// The daemon's configuration.
#[derive(Debug)]
pub struct DaemonConfig {
    pub http_settings: HttpSettings,
}

/// The HTTP transport's settings.
#[derive(Debug)]
pub struct HttpSettings {
    pub enabled: bool,
    pub bind_address: String,
    pub cors_enabled: bool,
    pub port: u16,
}

impl Default for HttpSettings {
    /// The zero configuration: disabled, empty address, no CORS,
    /// port 0.
    fn default() -> (r: HttpSettings)
        ensures
            r.enabled == false,
            r.bind_address@ == Seq::<char>::empty(),
            r.cors_enabled == false,
            r.port == 0,
    {
        HttpSettings { enabled: false, bind_address: String::new(), cors_enabled: false, port: 0 }
    }
}

impl Default for DaemonConfig {
    /// Wraps the default HTTP settings.
    fn default() -> (r: DaemonConfig)
        ensures
            r.http_settings.enabled == false,
            r.http_settings.bind_address@ == Seq::<char>::empty(),
            r.http_settings.cors_enabled == false,
            r.http_settings.port == 0,
    {
        DaemonConfig { http_settings: HttpSettings::default() }
    }
}

impl Default for DaemonStatus {
    /// Wraps the default configuration.
    fn default() -> (r: DaemonStatus)
        ensures
            r.config.http_settings.enabled == false,
            r.config.http_settings.bind_address@ == Seq::<char>::empty(),
            r.config.http_settings.cors_enabled == false,
            r.config.http_settings.port == 0,
    {
        DaemonStatus { config: DaemonConfig::default() }
    }
}

} // verus!
