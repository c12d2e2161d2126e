//! Multi-port web server management for a Bevy application: the lifecycle of each
//! server (start, retry, shutdown), the registry of servers by port, the error
//! model and the static-asset rules, with the decisions proved against their contracts.

pub mod access;
pub mod assets;
pub mod error;
pub mod ip;
pub mod laws;
pub mod manager;
pub mod runtime;
pub mod server;
pub mod status;
pub mod text;

pub use access::AccessFailure;
pub use assets::WebStaticFileExtensions;
pub use error::{IoErrorKind, IoFailure, WebServerError, WebServerResult};
pub use ip::{default_ip, IpAddress, DEFAULT_PORT};
pub use manager::WebServerManager;
pub use runtime::{ConnectionGuard, TaskType};
pub use server::{ShutdownAction, ShutdownPhase, WebServer, WebServerConfig};
pub use status::ServerStatus;
