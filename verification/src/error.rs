use vstd::prelude::*;

use crate::ip::{ip_display, ip_text, IpAddress};
use crate::text::{decimal, decimal_text};

verus! {

/// The category of an I/O failure, as `std::io::ErrorKind` names it; kinds this
/// library does not tell apart are `Other`.
#[derive(Clone, Copy, Debug, PartialEq, Eq, Hash, Structural)]
pub enum IoErrorKind {
    AddrInUse,
    AddrNotAvailable,
    PermissionDenied,
    ConnectionRefused,
    ConnectionReset,
    TimedOut,
    Other,
}

/// An I/O failure: its kind and the text that it displays.
#[derive(Clone, Debug)]
pub struct IoFailure {
    pub kind: IoErrorKind,
    pub message: String,
}

pub struct IoFailureView {
    pub kind: IoErrorKind,
    pub message: Seq<char>,
}

impl View for IoFailure {
    type V = IoFailureView;

    open spec fn view(&self) -> IoFailureView {
        IoFailureView { kind: self.kind, message: self.message@ }
    }
}

impl IoFailure {
    pub fn new(kind: IoErrorKind, message: String) -> (r: IoFailure)
        ensures
            r@ == (IoFailureView { kind: kind, message: message@ }),
    {
        IoFailure { kind, message }
    }
}

/// The failure reported when the bind test finds `port` taken.
pub open spec fn port_in_use(port: u16) -> IoFailureView {
    IoFailureView { kind: IoErrorKind::AddrInUse, message: "Port "@ + decimal(port as nat) + " is already in use"@ }
}

/// The failure reported when the bind test finds `port` taken: of kind
/// `AddrInUse`, with the text "Port <port> is already in use".
pub fn port_in_use_failure(port: u16) -> (r: IoFailure)
    ensures
        r@ == port_in_use(port),
{
    let digits = decimal_text(port as u64);
    let mut message = String::from_str("Port ");
    message.append(digits.as_str());
    message.append(" is already in use");
    IoFailure { kind: IoErrorKind::AddrInUse, message }
}

/// Errors of the web server library.
#[derive(Clone, Debug)]
pub enum WebServerError {
    /// Binding a listener to `ip:port` failed.
    BindFailed { ip: IpAddress, port: u16, source: IoFailure },
    /// No server is registered on `port`.
    ServerNotFound { port: u16 },
    /// A server already runs (or is registered) on `port`.
    ServerAlreadyRunning { port: u16 },
    /// The I/O operation `operation` failed.
    IoError { operation: String, source: IoFailure },
    /// An HTTP error with a status code.
    HttpError { status: u16, message: String },
    /// A configuration value is wrong.
    ConfigError { field: String, reason: String },
    /// An operation did not finish within `duration_ms` milliseconds.
    Timeout { operation: String, duration_ms: u64 },
    /// Authentication failed.
    AuthError { reason: String },
    /// A resource of some kind was missing or used up.
    ResourceExhausted { resource_type: String, details: String },
}

/// The mathematical value of a [`WebServerError`]: texts as character sequences.
pub enum WebServerErrorView {
    BindFailed { ip: IpAddress, port: u16, source: IoFailureView },
    ServerNotFound { port: u16 },
    ServerAlreadyRunning { port: u16 },
    IoError { operation: Seq<char>, source: IoFailureView },
    HttpError { status: u16, message: Seq<char> },
    ConfigError { field: Seq<char>, reason: Seq<char> },
    Timeout { operation: Seq<char>, duration_ms: u64 },
    AuthError { reason: Seq<char> },
    ResourceExhausted { resource_type: Seq<char>, details: Seq<char> },
}

impl View for WebServerError {
    type V = WebServerErrorView;

    open spec fn view(&self) -> WebServerErrorView {
        match self {
            WebServerError::BindFailed { ip, port, source } => WebServerErrorView::BindFailed {
                ip: *ip,
                port: *port,
                source: source@,
            },
            WebServerError::ServerNotFound { port } => WebServerErrorView::ServerNotFound {
                port: *port,
            },
            WebServerError::ServerAlreadyRunning { port } =>
                WebServerErrorView::ServerAlreadyRunning { port: *port },
            WebServerError::IoError { operation, source } => WebServerErrorView::IoError {
                operation: operation@,
                source: source@,
            },
            WebServerError::HttpError { status, message } => WebServerErrorView::HttpError {
                status: *status,
                message: message@,
            },
            WebServerError::ConfigError { field, reason } => WebServerErrorView::ConfigError {
                field: field@,
                reason: reason@,
            },
            WebServerError::Timeout { operation, duration_ms } => WebServerErrorView::Timeout {
                operation: operation@,
                duration_ms: *duration_ms,
            },
            WebServerError::AuthError { reason } => WebServerErrorView::AuthError {
                reason: reason@,
            },
            WebServerError::ResourceExhausted { resource_type, details } =>
                WebServerErrorView::ResourceExhausted {
                resource_type: resource_type@,
                details: details@,
            },
        }
    }
}

impl WebServerError {
    pub fn bind_failed(ip: IpAddress, port: u16, source: IoFailure) -> (r: Self)
        ensures
            r@ == (WebServerErrorView::BindFailed { ip, port, source: source@ }),
    {
        WebServerError::BindFailed { ip, port, source }
    }

    pub fn server_not_found(port: u16) -> (r: Self)
        ensures
            r@ == (WebServerErrorView::ServerNotFound { port }),
    {
        WebServerError::ServerNotFound { port }
    }

    pub fn server_already_running(port: u16) -> (r: Self)
        ensures
            r@ == (WebServerErrorView::ServerAlreadyRunning { port }),
    {
        WebServerError::ServerAlreadyRunning { port }
    }

    pub fn io_error(operation: String, source: IoFailure) -> (r: Self)
        ensures
            r@ == (WebServerErrorView::IoError { operation: operation@, source: source@ }),
    {
        WebServerError::IoError { operation, source }
    }

    pub fn http_error(status: u16, message: String) -> (r: Self)
        ensures
            r@ == (WebServerErrorView::HttpError { status, message: message@ }),
    {
        WebServerError::HttpError { status, message }
    }

    pub fn config_error(field: String, reason: String) -> (r: Self)
        ensures
            r@ == (WebServerErrorView::ConfigError { field: field@, reason: reason@ }),
    {
        WebServerError::ConfigError { field, reason }
    }

    pub fn timeout(operation: String, duration_ms: u64) -> (r: Self)
        ensures
            r@ == (WebServerErrorView::Timeout { operation: operation@, duration_ms }),
    {
        WebServerError::Timeout { operation, duration_ms }
    }

    pub fn auth_error(reason: String) -> (r: Self)
        ensures
            r@ == (WebServerErrorView::AuthError { reason: reason@ }),
    {
        WebServerError::AuthError { reason }
    }

    pub fn resource_exhausted(resource_type: String, details: String) -> (r: Self)
        ensures
            r@ == (WebServerErrorView::ResourceExhausted {
                resource_type: resource_type@,
                details: details@,
            }),
    {
        WebServerError::ResourceExhausted { resource_type, details }
    }
}

/// The text that an error displays.
pub open spec fn error_text(e: WebServerErrorView) -> Seq<char> {
    match e {
        WebServerErrorView::BindFailed { ip, port, source } => "Failed to bind to "@ + ip_display(ip) + seq![':']
            + decimal(port as nat) + ": "@ + source.message,
        WebServerErrorView::ServerNotFound { port } => "No server found listening on port "@ + decimal(port as nat),
        WebServerErrorView::ServerAlreadyRunning { port } => "Server already running on port "@ + decimal(port as nat),
        WebServerErrorView::IoError { operation, source } => "IO operation '"@ + operation + "' failed: "@
            + source.message,
        WebServerErrorView::HttpError { status, message } => "HTTP "@ + decimal(status as nat) + " error: "@ + message,
        WebServerErrorView::ConfigError { field, reason } => "Configuration error in '"@ + field + "': "@ + reason,
        WebServerErrorView::Timeout { operation, duration_ms } => "Operation '"@ + operation + "' timed out after "@
            + decimal(duration_ms as nat) + "ms"@,
        WebServerErrorView::AuthError { reason } => "Authentication failed: "@ + reason,
        WebServerErrorView::ResourceExhausted { resource_type, details } => "Resource '"@ + resource_type
            + "' exhausted: "@ + details,
    }
}

/// `a` followed by each of the other texts.
fn concat(a: &str, b: &str, c: &str, d: &str) -> (r: String)
    ensures
        r@ == a@ + b@ + c@ + d@,
{
    let mut r = String::from_str(a);
    r.append(b);
    r.append(c);
    r.append(d);
    r
}

impl WebServerError {
    /// The text that the error displays.
    pub fn message(&self) -> (r: String)
        ensures
            r@ == error_text(self@),
    {
        match self {
            WebServerError::BindFailed { ip, port, source } => {
                let ip = ip_text(*ip);
                let port = decimal_text(*port as u64);
                let head = concat("Failed to bind to ", ip.as_str(), ":", port.as_str());
                let r = concat(head.as_str(), ": ", source.message.as_str(), "");
                proof {
                    reveal_strlit(":");
                    reveal_strlit("");
                    assert(r@ =~= error_text(self@));
                }
                r
            },
            WebServerError::ServerNotFound { port } => {
                let port = decimal_text(*port as u64);
                let r = concat("No server found listening on port ", port.as_str(), "", "");
                proof {
                    reveal_strlit("");
                    assert(r@ =~= error_text(self@));
                }
                r
            },
            WebServerError::ServerAlreadyRunning { port } => {
                let port = decimal_text(*port as u64);
                let r = concat("Server already running on port ", port.as_str(), "", "");
                proof {
                    reveal_strlit("");
                    assert(r@ =~= error_text(self@));
                }
                r
            },
            WebServerError::IoError { operation, source } => {
                let r = concat("IO operation '", operation.as_str(), "' failed: ", source.message.as_str());
                r
            },
            WebServerError::HttpError { status, message } => {
                let status = decimal_text(*status as u64);
                let r = concat("HTTP ", status.as_str(), " error: ", message.as_str());
                r
            },
            WebServerError::ConfigError { field, reason } => {
                let r = concat("Configuration error in '", field.as_str(), "': ", reason.as_str());
                r
            },
            WebServerError::Timeout { operation, duration_ms } => {
                let ms = decimal_text(*duration_ms);
                let head = concat("Operation '", operation.as_str(), "' timed out after ", ms.as_str());
                let r = concat(head.as_str(), "ms", "", "");
                proof {
                    reveal_strlit("");
                    assert(r@ =~= error_text(self@));
                }
                r
            },
            WebServerError::AuthError { reason } => {
                let r = concat("Authentication failed: ", reason.as_str(), "", "");
                proof {
                    reveal_strlit("");
                    assert(r@ =~= error_text(self@));
                }
                r
            },
            WebServerError::ResourceExhausted { resource_type, details } => {
                let r = concat("Resource '", resource_type.as_str(), "' exhausted: ", details.as_str());
                r
            },
        }
    }
}

pub type WebServerResult<T> = Result<T, WebServerError>;

} // verus!
