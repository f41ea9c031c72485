use std::path::PathBuf;
use turbobench::config::{
    default_frontend_type, ignored_args_warnings, parse_frontend, BackendDef, BenchConfig, CliArgs, ConfigBackend,
    ConfigFile, ConfigFrontend, ConfigOptions, FrontendDef, TransportDef,
};
use turbomcp_proxy::proxy::BackendTransport;

#[test]
fn derive_name_stdio() {
    let t = TransportDef::Stdio {
        command: "npx".into(),
        args: vec!["playwright-mcp".into()],
        working_dir: None,
    };
    assert_eq!(t.derive_name(), "npx playwright-mcp");
}

#[test]
fn derive_name_http() {
    let t = TransportDef::Http {
        url: "http://localhost:3000".into(),
        auth_token: None,
    };
    assert_eq!(t.derive_name(), "http://localhost:3000");
}

#[test]
fn to_backend_transport_roundtrip() {
    let t = TransportDef::Tcp {
        host: "10.0.0.1".into(),
        port: 9000,
    };
    let bt = t.to_backend_transport();
    assert!(matches!(bt, BackendTransport::Tcp { host, port } if host == "10.0.0.1" && port == 9000));
}

#[test]
fn derive_name_of_every_transport() {
    let bare = TransportDef::Stdio { command: "server".into(), args: vec![], working_dir: None };
    assert_eq!(bare.derive_name(), "server");
    let many = TransportDef::Stdio {
        command: "a".into(),
        args: vec!["b".into(), "".into(), "c d".into()],
        working_dir: Some("/tmp".into()),
    };
    assert_eq!(many.derive_name(), "a b  c d");
    let tcp = TransportDef::Tcp { host: "localhost".into(), port: 5000 };
    assert_eq!(tcp.derive_name(), "localhost:5000");
    assert_eq!(TransportDef::Tcp { host: "h".into(), port: 0 }.derive_name(), "h:0");
    let ws = TransportDef::WebSocket { url: "ws://localhost:8080".into() };
    assert_eq!(ws.derive_name(), "ws://localhost:8080");
    let unix = TransportDef::Unix { path: "/tmp/mcp.sock".into() };
    assert_eq!(unix.derive_name(), "/tmp/mcp.sock");
}

#[test]
fn every_transport_reaches_the_connector() {
    let stdio = TransportDef::Stdio {
        command: "npx".into(),
        args: vec!["x".into(), "y".into()],
        working_dir: Some("/w".into()),
    };
    assert!(matches!(
        stdio.to_backend_transport(),
        BackendTransport::Stdio { command, args, working_dir }
            if command == "npx" && args == vec!["x".to_string(), "y".to_string()]
                && working_dir.as_deref() == Some("/w")
    ));
    let http = TransportDef::Http { url: "http://h".into(), auth_token: Some("t".into()) };
    assert!(matches!(
        http.to_backend_transport(),
        BackendTransport::Http { url, auth_token } if url == "http://h" && auth_token.as_deref() == Some("t")
    ));
    let ws = TransportDef::WebSocket { url: "ws://h".into() };
    assert!(matches!(ws.to_backend_transport(), BackendTransport::WebSocket { url } if url == "ws://h"));
    let unix = TransportDef::Unix { path: "/s".into() };
    assert!(matches!(unix.to_backend_transport(), BackendTransport::Unix { path } if path == "/s"));
}

#[test]
fn display_name_prefers_the_configured_name() {
    let named = BackendDef {
        name: Some("playwright".into()),
        transport: TransportDef::WebSocket { url: "ws://h".into() },
    };
    assert_eq!(named.display_name(), "playwright");
    let unnamed = BackendDef { name: None, transport: TransportDef::WebSocket { url: "ws://h".into() } };
    assert_eq!(unnamed.display_name(), "ws://h");
}

#[test]
fn frontends() {
    assert!(matches!(parse_frontend("http", "1.2.3.4:5"), FrontendDef::Http { bind } if bind == "1.2.3.4:5"));
    assert!(matches!(parse_frontend("stdio", "x"), FrontendDef::Stdio));
    assert!(matches!(parse_frontend("HTTP", "x"), FrontendDef::Stdio));
    assert!(matches!(parse_frontend("", "x"), FrontendDef::Stdio));
    assert_eq!(default_frontend_type(), "stdio");
}

fn backend(name: &str) -> ConfigBackend {
    ConfigBackend { name: Some(name.into()), transport: TransportDef::WebSocket { url: "ws://h".into() } }
}

#[test]
fn config_file_defaults() {
    let file = ConfigFile { primary: backend("p"), shadow: None, frontend: None, options: None };
    let c = file.into_config();
    assert_eq!(c.primary.name.as_deref(), Some("p"));
    assert!(c.shadow.is_none());
    assert!(matches!(c.frontend, FrontendDef::Stdio));
    assert!(c.output.is_none());
    assert!(!c.quiet);
}

#[test]
fn config_file_in_full() {
    let file = ConfigFile {
        primary: backend("p"),
        shadow: Some(backend("s")),
        frontend: Some(ConfigFrontend { transport_type: "http".into(), bind: None }),
        options: Some(ConfigOptions { output: Some(PathBuf::from("report.json")), quiet: Some(true) }),
    };
    let c = file.into_config();
    assert_eq!(c.shadow.unwrap().name.as_deref(), Some("s"));
    assert!(matches!(c.frontend, FrontendDef::Http { bind } if bind == "127.0.0.1:3000"));
    assert_eq!(c.output, Some(PathBuf::from("report.json")));
    assert!(c.quiet);
}

#[test]
fn config_file_bind_address_and_missing_options() {
    let file = ConfigFile {
        primary: backend("p"),
        shadow: None,
        frontend: Some(ConfigFrontend { transport_type: "http".into(), bind: Some("0.0.0.0:8080".into()) }),
        options: Some(ConfigOptions { output: None, quiet: None }),
    };
    let c = file.into_config();
    assert!(matches!(c.frontend, FrontendDef::Http { bind } if bind == "0.0.0.0:8080"));
    assert!(c.output.is_none());
    assert!(!c.quiet);
}

fn args(url: Option<&str>, backend: &[&str]) -> CliArgs {
    CliArgs {
        name: Some("n".into()),
        output: Some(PathBuf::from("o.json")),
        quiet: true,
        url: url.map(String::from),
        frontend: "http".into(),
        bind: "b".into(),
        backend: backend.iter().map(|s| s.to_string()).collect(),
    }
}

#[test]
fn command_line_without_backend() {
    assert!(BenchConfig::from_args(args(None, &[])).is_none());
}

#[test]
fn command_line_with_command() {
    let c = BenchConfig::from_args(args(None, &["npx", "a", "b"])).unwrap();
    assert_eq!(c.primary.name.as_deref(), Some("n"));
    assert!(matches!(
        c.primary.transport,
        TransportDef::Stdio { command, args, working_dir: None }
            if command == "npx" && args == vec!["a".to_string(), "b".to_string()]
    ));
    assert!(c.shadow.is_none());
    assert!(matches!(c.frontend, FrontendDef::Http { bind } if bind == "b"));
    assert_eq!(c.output, Some(PathBuf::from("o.json")));
    assert!(c.quiet);
}

#[test]
fn command_line_url_goes_first() {
    let c = BenchConfig::from_args(args(Some("http://h"), &["npx"])).unwrap();
    assert!(matches!(c.primary.transport, TransportDef::Http { url, auth_token: None } if url == "http://h"));
}

#[test]
fn command_line_overrides_config_file() {
    let file = ConfigFile {
        primary: backend("p"),
        shadow: None,
        frontend: None,
        options: Some(ConfigOptions { output: Some(PathBuf::from("a")), quiet: Some(false) }),
    };
    let c = file.into_config().with_overrides(Some(PathBuf::from("b")), true);
    assert_eq!(c.output, Some(PathBuf::from("b")));
    assert!(c.quiet);
    let file = ConfigFile {
        primary: backend("p"),
        shadow: None,
        frontend: None,
        options: Some(ConfigOptions { output: Some(PathBuf::from("a")), quiet: Some(true) }),
    };
    let c = file.into_config().with_overrides(None, false);
    assert_eq!(c.output, Some(PathBuf::from("a")));
    assert!(c.quiet);
}

#[test]
fn warnings_about_ignored_arguments() {
    assert!(ignored_args_warnings(false, true, true).is_empty());
    assert!(ignored_args_warnings(true, false, false).is_empty());
    assert_eq!(
        ignored_args_warnings(true, true, false),
        vec!["[turbobench] warning: --url is ignored when --config is provided"]
    );
    assert_eq!(
        ignored_args_warnings(true, true, true),
        vec![
            "[turbobench] warning: --url is ignored when --config is provided",
            "[turbobench] warning: positional backend args are ignored when --config is provided",
        ]
    );
}
