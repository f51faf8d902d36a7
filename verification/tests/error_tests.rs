use kbd_backlight::Error;

#[test]
fn test_error_classification() {
    assert!(Error::x11_connection("gone".to_string()).is_recoverable());
    assert!(Error::X11Protocol("bad reply".to_string()).is_recoverable());
    assert!(
        Error::monitor_unavailable("Idle".to_string(), "no seat".to_string(), "off".to_string())
            .is_recoverable()
    );
    assert!(!Error::ipc_protocol("bad frame".to_string()).is_recoverable());

    assert!(Error::ConfigSyntax("oops".to_string()).is_config_error());
    assert!(Error::ConfigValidation("oops".to_string()).is_config_error());
    assert!(Error::config_error("here".to_string(), "oops".to_string()).is_config_error());
    assert!(!Error::Parse("oops".to_string()).is_config_error());

    assert!(Error::ipc_connection("refused".to_string()).is_ipc_error());
    assert!(Error::ipc_protocol("bad".to_string()).is_ipc_error());
    assert!(Error::IpcSocket("stale".to_string()).is_ipc_error());
    assert!(!Error::Io("eof".to_string()).is_ipc_error());
}

#[test]
fn test_error_messages() {
    assert_eq!(Error::Io("eof".to_string()).message(), "IO error: eof");
    assert_eq!(
        Error::ConfigValidation("bad hour".to_string()).message(),
        "Configuration validation failed: bad hour"
    );
    assert_eq!(
        Error::config_error("a.toml".to_string(), "unreadable".to_string()).message(),
        "Configuration error at a.toml: unreadable"
    );
    assert_eq!(
        Error::ipc_protocol("too large".to_string()).message(),
        "IPC protocol error: too large"
    );
    assert_eq!(Error::Parse("bad time".to_string()).message(), "Parse error: bad time");
}
