//! Error taxonomy shared by the daemon, the control channel and the
//! configuration layer. Every variant carries plain strings so that callers
//! outside the library can render them; `message` produces the canonical
//! one-line rendering.

use vstd::prelude::*;
use vstd::string::StringExecFns;

verus! {

#[derive(Debug, Clone)]
pub enum Error {
    Io(String),
    PermissionDenied { path: String, user: String },
    PathNotFound { path: String },
    InvalidBrightness(String),
    Config { location: String, message: String },
    ConfigSyntax(String),
    ConfigValidation(String),
    IpcConnection(String),
    IpcProtocol(String),
    IpcSocket(String),
    X11Connection(String),
    X11Protocol(String),
    Parse(String),
    MonitorUnavailable { monitor_type: String, reason: String, impact: String },
}

impl Error {
    /// Build a configuration error with its location context.
    pub fn config_error(location: String, message: String) -> (r: Error)
        ensures
            r == (Error::Config { location, message }),
    {
        Error::Config { location, message }
    }

    /// Build an IPC connection error.
    pub fn ipc_connection(message: String) -> (r: Error)
        ensures
            r == Error::IpcConnection(message),
    {
        Error::IpcConnection(message)
    }

    /// Build an IPC protocol error.
    pub fn ipc_protocol(message: String) -> (r: Error)
        ensures
            r == Error::IpcProtocol(message),
    {
        Error::IpcProtocol(message)
    }

    /// Build an X11 connection error (recoverable).
    pub fn x11_connection(message: String) -> (r: Error)
        ensures
            r == Error::X11Connection(message),
    {
        Error::X11Connection(message)
    }

    /// Build an error for a monitor that could not be brought up.
    pub fn monitor_unavailable(monitor_type: String, reason: String, impact: String) -> (r: Error)
        ensures
            r == (Error::MonitorUnavailable { monitor_type, reason, impact }),
    {
        Error::MonitorUnavailable { monitor_type, reason, impact }
    }

    /// Errors the daemon survives with degraded functionality.
    pub open spec fn spec_is_recoverable(&self) -> bool {
        self matches Error::X11Connection(_) || self matches Error::X11Protocol(_)
            || self matches Error::MonitorUnavailable { .. }
    }

    /// Whether the daemon can continue after this error.
    pub fn is_recoverable(&self) -> (r: bool)
        ensures
            r == self.spec_is_recoverable(),
    {
        matches!(
            self,
            Error::X11Connection(_) | Error::X11Protocol(_) | Error::MonitorUnavailable { .. }
        )
    }

    /// Errors of the configuration layer.
    pub open spec fn spec_is_config_error(&self) -> bool {
        self matches Error::Config { .. } || self matches Error::ConfigSyntax(_)
            || self matches Error::ConfigValidation(_)
    }

    /// Whether this is a configuration error.
    pub fn is_config_error(&self) -> (r: bool)
        ensures
            r == self.spec_is_config_error(),
    {
        matches!(self, Error::Config { .. } | Error::ConfigSyntax(_) | Error::ConfigValidation(_))
    }

    /// Errors of the control channel.
    pub open spec fn spec_is_ipc_error(&self) -> bool {
        self matches Error::IpcConnection(_) || self matches Error::IpcProtocol(_)
            || self matches Error::IpcSocket(_)
    }

    /// Whether this is a control-channel error.
    pub fn is_ipc_error(&self) -> (r: bool)
        ensures
            r == self.spec_is_ipc_error(),
    {
        matches!(self, Error::IpcConnection(_) | Error::IpcProtocol(_) | Error::IpcSocket(_))
    }

    /// The one-line rendering of each variant.
    pub open spec fn spec_message(&self) -> Seq<char> {
        match self {
            Error::Io(m) => "IO error: "@ + m@,
            Error::PermissionDenied { path, user: _ } => {
                "Permission denied accessing brightness control at "@ + path@
            },
            Error::PathNotFound { path } => "Brightness control path not found: "@ + path@,
            Error::InvalidBrightness(m) => "Invalid brightness value: "@ + m@,
            Error::Config { location, message } => {
                "Configuration error at "@ + location@ + ": "@ + message@
            },
            Error::ConfigSyntax(m) => "Configuration file syntax error: "@ + m@,
            Error::ConfigValidation(m) => "Configuration validation failed: "@ + m@,
            Error::IpcConnection(m) => "IPC communication error: "@ + m@,
            Error::IpcProtocol(m) => "IPC protocol error: "@ + m@,
            Error::IpcSocket(m) => "IPC socket error: "@ + m@,
            Error::X11Connection(m) => "X11 connection error: "@ + m@,
            Error::X11Protocol(m) => "X11 protocol error: "@ + m@,
            Error::Parse(m) => "Parse error: "@ + m@,
            Error::MonitorUnavailable { monitor_type, reason, impact: _ } => {
                "Monitor unavailable: "@ + monitor_type@ + ": "@ + reason@
            },
        }
    }

    /// Render the error as a single line of text.
    pub fn message(&self) -> (r: String)
        ensures
            r@ == self.spec_message(),
    {
        match self {
            Error::Io(m) => {
                let mut s = "IO error: ".to_owned();
                s.append(m.as_str());
                s
            },
            Error::PermissionDenied { path, user: _ } => {
                let mut s = "Permission denied accessing brightness control at ".to_owned();
                s.append(path.as_str());
                s
            },
            Error::PathNotFound { path } => {
                let mut s = "Brightness control path not found: ".to_owned();
                s.append(path.as_str());
                s
            },
            Error::InvalidBrightness(m) => {
                let mut s = "Invalid brightness value: ".to_owned();
                s.append(m.as_str());
                s
            },
            Error::Config { location, message } => {
                let mut s = "Configuration error at ".to_owned();
                s.append(location.as_str());
                s.append(": ");
                s.append(message.as_str());
                s
            },
            Error::ConfigSyntax(m) => {
                let mut s = "Configuration file syntax error: ".to_owned();
                s.append(m.as_str());
                s
            },
            Error::ConfigValidation(m) => {
                let mut s = "Configuration validation failed: ".to_owned();
                s.append(m.as_str());
                s
            },
            Error::IpcConnection(m) => {
                let mut s = "IPC communication error: ".to_owned();
                s.append(m.as_str());
                s
            },
            Error::IpcProtocol(m) => {
                let mut s = "IPC protocol error: ".to_owned();
                s.append(m.as_str());
                s
            },
            Error::IpcSocket(m) => {
                let mut s = "IPC socket error: ".to_owned();
                s.append(m.as_str());
                s
            },
            Error::X11Connection(m) => {
                let mut s = "X11 connection error: ".to_owned();
                s.append(m.as_str());
                s
            },
            Error::X11Protocol(m) => {
                let mut s = "X11 protocol error: ".to_owned();
                s.append(m.as_str());
                s
            },
            Error::Parse(m) => {
                let mut s = "Parse error: ".to_owned();
                s.append(m.as_str());
                s
            },
            Error::MonitorUnavailable { monitor_type, reason, impact: _ } => {
                let mut s = "Monitor unavailable: ".to_owned();
                s.append(monitor_type.as_str());
                s.append(": ");
                s.append(reason.as_str());
                s
            },
        }
    }
}

} // verus!
