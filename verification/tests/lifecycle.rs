//! Lifecycle behavior: the active-server registry, the WebSocket
//! gateway, and the adapter state machine.

use lsp_gateway::adapter::{InitializeDisposition, RequestOutcome, RustLanguageServer};
use lsp_gateway::adapter::{
    fallback_capabilities, initialize_disposition, interpret_response, request_disposition,
    response_of,
};
use lsp_gateway::connection::notification_frame;
use lsp_gateway::errors::LspError;
use lsp_gateway::gateway::{
    cleanup_on_exit, is_lsp_websocket_running, start_lsp_websocket_server,
    stop_lsp_websocket_server, WebSocketGateway, MAX_BIND_ATTEMPTS,
};
use lsp_gateway::registry::{report_launch_failure, start_lsp_server, ActiveServerRegistry};

#[test]
fn unsupported_language_is_rejected_and_registry_untouched() {
    let mut reg = ActiveServerRegistry::new();
    let r = start_lsp_server(&mut reg, "cobol", "/tmp/file.cob", true);
    match r {
        Err(LspError::UnsupportedLanguage { language }) => {
            assert_eq!(language, "cobol");
        }
        other => panic!("expected UnsupportedLanguage, got {:?}", other),
    }
    assert_eq!(reg.active_count(), 0);
    assert!(!reg.is_active("cobol"));
}

#[test]
fn unsupported_language_message_lists_supported_ones() {
    let err = LspError::UnsupportedLanguage {
        language: String::from("go"),
    };
    assert_eq!(
        err.message(),
        "Language 'go' is not supported. Currently supported languages are: rust"
    );
}

#[test]
fn missing_path_is_rejected() {
    let mut reg = ActiveServerRegistry::new();
    let r = start_lsp_server(&mut reg, "rust", "/definitely/not/there.rs", false);
    match r {
        Err(LspError::PathNotFound { path }) => {
            assert_eq!(path, "/definitely/not/there.rs");
        }
        other => panic!("expected PathNotFound, got {:?}", other),
    }
    assert_eq!(reg.active_count(), 0);
}

#[test]
fn starting_twice_keeps_a_single_entry() {
    let mut reg = ActiveServerRegistry::new();
    let first = start_lsp_server(&mut reg, "rust", "/p/main.rs", true).unwrap();
    assert!(first.launch);
    assert_eq!(first.message, "Started LSP server for rust");
    let second = start_lsp_server(&mut reg, "rust", "/p/main.rs", true).unwrap();
    assert!(!second.launch);
    assert_eq!(second.message, "LSP server for rust is already running");
    assert_eq!(reg.active_count(), 1);
    assert!(reg.is_active("rust"));
}

#[test]
fn unknown_language_is_inferred_from_rs_extension() {
    let mut reg_a = ActiveServerRegistry::new();
    let mut reg_b = ActiveServerRegistry::new();
    let by_unknown = start_lsp_server(&mut reg_a, "unknown", "/x/y.rs", true).unwrap();
    let by_name = start_lsp_server(&mut reg_b, "rust", "/x/y.rs", true).unwrap();
    assert_eq!(by_unknown.message, by_name.message);
    assert_eq!(by_unknown.language, "rust");
    assert_eq!(by_unknown.launch, by_name.launch);
    assert!(reg_a.is_active("rust"));
    assert!(reg_b.is_active("rust"));
}

#[test]
fn spawn_failure_unregisters_and_allows_retry() {
    let mut reg = ActiveServerRegistry::new();
    let ack = start_lsp_server(&mut reg, "rust", "/p/main.rs", true).unwrap();
    assert!(ack.launch);

    let mut adapter = RustLanguageServer::new("/p");
    let _cmd = adapter.begin_initialize();
    let spawn = adapter.process_spawned(false, "No such file or directory");
    match spawn {
        Err(LspError::ProcessSpawnError { detail }) => {
            assert_eq!(detail, "No such file or directory");
        }
        other => panic!("expected ProcessSpawnError, got {:?}", other),
    }
    assert!(!adapter.is_running());

    report_launch_failure(&mut reg, &ack.language);
    assert!(!reg.is_active("rust"));
    assert_eq!(reg.active_count(), 0);

    let retry = start_lsp_server(&mut reg, "rust", "/p/main.rs", true).unwrap();
    assert!(retry.launch);
    assert!(reg.is_active("rust"));
}

#[test]
fn occupied_port_counts_as_already_running() {
    let mut gw = WebSocketGateway::new();
    let r = start_lsp_websocket_server(&mut gw, 9000, false).unwrap();
    assert_eq!(r, "LSP WebSocket server is already running on port 9000");
    assert!(is_lsp_websocket_running(&gw));
}

#[test]
fn exhausting_all_bind_attempts_ends_not_running() {
    let mut gw = WebSocketGateway::new();
    let ack = start_lsp_websocket_server(&mut gw, 9000, true).unwrap();
    assert_eq!(
        ack,
        "Starting LSP WebSocket server on port 9000 (or next available)"
    );
    assert!(gw.is_running());
    let mut port: u16 = 9000;
    for attempt in 0..MAX_BIND_ATTEMPTS {
        match gw.bind_attempt_failed(attempt, port) {
            Some(next) => port = next,
            None => assert_eq!(attempt, MAX_BIND_ATTEMPTS - 1),
        }
    }
    assert_eq!(port, 9004);
    assert!(!gw.is_running());
}

#[test]
fn successful_bind_keeps_running() {
    let mut gw = WebSocketGateway::new();
    let _ = start_lsp_websocket_server(&mut gw, 9000, true).unwrap();
    let first = gw.bind_attempt_failed(0, 9000);
    assert_eq!(first, Some(9001));
    gw.bind_succeeded(9001);
    assert!(gw.is_running());
}

#[test]
fn start_when_running_changes_nothing() {
    let mut gw = WebSocketGateway::new();
    let _ = start_lsp_websocket_server(&mut gw, 9000, true).unwrap();
    let again = start_lsp_websocket_server(&mut gw, 9000, true).unwrap();
    assert_eq!(again, "LSP WebSocket server already running on port 9000");
    assert!(gw.is_running());
}

#[test]
fn stop_when_not_running_is_a_successful_noop() {
    let mut gw = WebSocketGateway::new();
    let r = stop_lsp_websocket_server(&mut gw).unwrap();
    assert_eq!(r, "LSP WebSocket server not running");
    assert!(!is_lsp_websocket_running(&gw));
    let r2 = stop_lsp_websocket_server(&mut gw).unwrap();
    assert_eq!(r2, "LSP WebSocket server not running");
    assert!(!is_lsp_websocket_running(&gw));
}

#[test]
fn stop_after_start_stops() {
    let mut gw = WebSocketGateway::new();
    let _ = start_lsp_websocket_server(&mut gw, 9000, true).unwrap();
    let r = stop_lsp_websocket_server(&mut gw).unwrap();
    assert_eq!(r, "LSP WebSocket server stopped");
    assert!(!gw.is_running());
}

#[test]
fn cleanup_on_exit_always_ends_stopped() {
    let mut gw = WebSocketGateway::new();
    cleanup_on_exit(&mut gw);
    assert!(!gw.is_running());
    let _ = start_lsp_websocket_server(&mut gw, 9000, true).unwrap();
    cleanup_on_exit(&mut gw);
    assert!(!gw.is_running());
}

#[test]
fn adapter_reports_identity_and_config() {
    let adapter = RustLanguageServer::new("/proj");
    assert_eq!(adapter.id(), "rust-analyzer");
    assert_eq!(adapter.name(), "Rust Analyzer");
    let config = adapter.config();
    assert_eq!(config.root_path, "/proj");
    assert_eq!(config.executable_path.as_deref(), Some("rust-analyzer"));
    assert_eq!(config.env_vars.len(), 1);
    assert_eq!(config.env_vars[0].0, "RUST_BACKTRACE");
    assert_eq!(config.env_vars[0].1, "1");
}

#[test]
fn adapter_launch_command_follows_config() {
    let mut adapter = RustLanguageServer::new("/proj");
    let cmd = adapter.begin_initialize();
    assert_eq!(cmd.program, "rust-analyzer");
    assert_eq!(cmd.current_dir, "/proj");
    assert!(cmd.args.is_empty());
    assert_eq!(cmd.env, vec![(String::from("RUST_BACKTRACE"), String::from("1"))]);
    assert!(!adapter.is_running());
    adapter.process_spawned(true, "").unwrap();
    assert!(adapter.is_running());
}

#[test]
fn adapter_shutdown_is_idempotent() {
    let mut adapter = RustLanguageServer::new("/proj");
    let _ = adapter.begin_initialize();
    adapter.process_spawned(true, "").unwrap();
    let notices = adapter.shutdown().expect("first shutdown says goodbye");
    assert_eq!(
        notices.shutdown_frame,
        "Content-Length: 37\r\n\r\n{\"jsonrpc\":\"2.0\",\"method\":\"shutdown\"}"
    );
    assert_eq!(
        notices.exit_frame,
        "Content-Length: 33\r\n\r\n{\"jsonrpc\":\"2.0\",\"method\":\"exit\"}"
    );
    assert_eq!(notices.shutdown_frame, notification_frame("shutdown", None));
    assert!(!adapter.is_running());
    assert!(adapter.shutdown().is_none());
    assert!(!adapter.is_running());
}

#[test]
fn response_interpretation_follows_the_protocol() {
    let remote = interpret_response(Some((-32601, String::from("method not found"))), None);
    match remote {
        Err(LspError::RemoteProtocolError { code, message }) => {
            assert_eq!(code, -32601);
            assert_eq!(message, "method not found");
            assert_eq!(
                LspError::RemoteProtocolError { code, message }.message(),
                "LSP error: method not found (code: -32601)"
            );
        }
        other => panic!("expected RemoteProtocolError, got {:?}", other),
    }
    assert_eq!(
        interpret_response(None, Some(String::from("{\"ok\":true}"))).unwrap(),
        "{\"ok\":true}"
    );
    assert!(matches!(
        interpret_response(None, None),
        Err(LspError::ResponseParseError)
    ));
}

#[test]
fn initialize_fails_only_when_the_launch_fails() {
    assert!(matches!(
        initialize_disposition(false, false, false),
        InitializeDisposition::FailLaunch
    ));
    assert!(matches!(
        initialize_disposition(true, true, true),
        InitializeDisposition::UseParsed
    ));
    // A failed or malformed handshake degrades to the default
    // capability set instead of aborting the session.
    assert!(matches!(
        initialize_disposition(true, false, true),
        InitializeDisposition::UseFallback
    ));
    assert!(matches!(
        initialize_disposition(true, true, false),
        InitializeDisposition::UseFallback
    ));
}

#[test]
fn forwarded_requests_never_fail_the_caller() {
    assert!(matches!(
        request_disposition(true, false, true),
        RequestOutcome::UseParsed
    ));
    assert!(matches!(
        request_disposition(false, false, true),
        RequestOutcome::NoResult
    ));
    assert!(matches!(
        request_disposition(true, true, true),
        RequestOutcome::NoResult
    ));
    assert!(matches!(
        request_disposition(true, false, false),
        RequestOutcome::NoResult
    ));
}

#[test]
fn response_bodies_follow_the_outcome_policy() {
    let ok = response_of(b"{\"jsonrpc\":\"2.0\",\"id\":1,\"result\":{\"x\":1}}");
    assert_eq!(ok.unwrap(), "{\"x\":1}");

    let remote = response_of(
        b"{\"jsonrpc\":\"2.0\",\"id\":1,\"error\":{\"code\":-32601,\"message\":\"nope\"}}",
    );
    match remote {
        Err(LspError::RemoteProtocolError { code, message }) => {
            assert_eq!(code, -32601);
            assert_eq!(message, "nope");
        }
        other => panic!("expected RemoteProtocolError, got {:?}", other),
    }

    assert!(matches!(
        response_of(b"{\"jsonrpc\":\"2.0\",\"id\":1}"),
        Err(LspError::ResponseParseError)
    ));
    assert!(matches!(
        response_of(b"not json"),
        Err(LspError::ResponseParseError)
    ));
}

#[test]
fn fallback_capabilities_cover_basic_operation() {
    let caps = fallback_capabilities();
    assert!(caps.text_document_sync_incremental);
    assert!(caps.hover && caps.definition && caps.references && caps.document_formatting);
    assert!(caps.completion_resolve && caps.code_lens_resolve && caps.rename_prepare);
    assert_eq!(caps.completion_trigger_characters, vec![".", "::"]);
    assert_eq!(caps.signature_help_trigger_characters, vec!["(", ","]);
    assert!(caps.workspace_folders && caps.workspace_folder_change_notifications);
    assert!(caps.folding_range && caps.declaration && caps.call_hierarchy);
    assert!(caps.type_definition && caps.implementation && caps.document_highlight);
    assert!(caps.document_symbol && caps.workspace_symbol && caps.code_action);
    assert_eq!(caps.server_name, "rust-analyzer");
    assert_eq!(caps.server_version, "1.0.0");
}
