//! Wire protocol behavior: framing, request correlation, and the
//! document store.

use lsp_gateway::adapter::RustLanguageServer;
use lsp_gateway::connection::{
    frame_message, notification_frame, request_frame, ConnEvent, FrameBuffer, FrameStep,
    ProcessConnection,
};
use lsp_gateway::documents::{DiagnosticRecord, DocumentStore};

fn framed(body: &str) -> String {
    format!("Content-Length: {}\r\n\r\n{}", body.len(), body)
}

#[test]
fn frames_carry_the_byte_length() {
    assert_eq!(frame_message("hello"), "Content-Length: 5\r\n\r\nhello");
    assert_eq!(frame_message(""), "Content-Length: 0\r\n\r\n");
    // The header counts bytes, not characters.
    assert_eq!(frame_message("é"), "Content-Length: 2\r\n\r\né");
}

#[test]
fn requests_serialize_with_id_method_and_params() {
    let body = "{\"jsonrpc\":\"2.0\",\"id\":7,\"method\":\"initialize\",\"params\":{\"x\":1}}";
    assert_eq!(request_frame(7, "initialize", Some("{\"x\":1}")), framed(body));
    let bare = "{\"jsonrpc\":\"2.0\",\"id\":0,\"method\":\"shutdown\"}";
    assert_eq!(request_frame(0, "shutdown", None), framed(bare));
}

#[test]
fn notifications_serialize_without_an_id() {
    let body = "{\"jsonrpc\":\"2.0\",\"method\":\"initialized\",\"params\":{}}";
    assert_eq!(notification_frame("initialized", Some("{}")), framed(body));
}

#[test]
fn method_names_are_json_escaped() {
    let body = "{\"jsonrpc\":\"2.0\",\"method\":\"a\\\"b\\\\c\\nd\"}";
    assert_eq!(notification_frame("a\"b\\c\nd", None), framed(body));
}

#[test]
fn frame_buffer_reassembles_split_chunks() {
    let mut buf = FrameBuffer::new();
    buf.push_chunk(b"Content-Length: 5\r\n");
    assert!(matches!(buf.take_frame(), FrameStep::NeedMore));
    buf.push_chunk(b"\r\nhel");
    assert!(matches!(buf.take_frame(), FrameStep::NeedMore));
    buf.push_chunk(b"loContent-Length: 2\r\n\r\nok");
    match buf.take_frame() {
        FrameStep::Frame(payload) => assert_eq!(payload, b"hello"),
        other => panic!("expected a frame, got {:?}", frame_kind(&other)),
    }
    match buf.take_frame() {
        FrameStep::Frame(payload) => assert_eq!(payload, b"ok"),
        other => panic!("expected a frame, got {:?}", frame_kind(&other)),
    }
    assert!(matches!(buf.take_frame(), FrameStep::NeedMore));
}

#[test]
fn header_without_a_length_is_corrupt() {
    let mut buf = FrameBuffer::new();
    buf.push_chunk(b"X-Whatever: 3\r\n\r\nabc");
    assert!(matches!(buf.take_frame(), FrameStep::Corrupt));
}

fn frame_kind(step: &FrameStep) -> &'static str {
    match step {
        FrameStep::NeedMore => "NeedMore",
        FrameStep::Frame(_) => "Frame",
        FrameStep::Corrupt => "Corrupt",
    }
}

#[test]
fn correlation_ids_are_assigned_monotonically() {
    let mut conn = ProcessConnection::new();
    let (id0, frame0) = conn.begin_request("initialize", Some("{}"));
    let (id1, _frame1) = conn.begin_request("textDocument/hover", None);
    assert_eq!(id0, 0);
    assert_eq!(id1, 1);
    assert_eq!(conn.pending_count(), 2);
    assert!(frame0.starts_with("Content-Length: "));
}

#[test]
fn matching_response_completes_its_request() {
    let mut conn = ProcessConnection::new();
    let (id, _) = conn.begin_request("initialize", Some("{}"));
    let payload = format!("{{\"jsonrpc\":\"2.0\",\"id\":{},\"result\":{{}}}}", id);
    match conn.on_payload(payload.as_bytes()) {
        ConnEvent::Response { id: rid } => assert_eq!(rid, id),
        _ => panic!("expected a response event"),
    }
    assert_eq!(conn.pending_count(), 0);
}

#[test]
fn response_with_unknown_id_is_dropped() {
    let mut conn = ProcessConnection::new();
    let (_id, _) = conn.begin_request("initialize", Some("{}"));
    let stray = b"{\"jsonrpc\":\"2.0\",\"id\":99,\"result\":{}}";
    assert!(matches!(conn.on_payload(stray), ConnEvent::Discarded));
    assert_eq!(conn.pending_count(), 1);
}

#[test]
fn notification_payloads_are_classified_by_method() {
    let mut conn = ProcessConnection::new();
    let note = b"{\"jsonrpc\":\"2.0\",\"method\":\"textDocument/publishDiagnostics\",\"params\":{}}";
    match conn.on_payload(note) {
        ConnEvent::Notification { method } => {
            assert_eq!(method, "textDocument/publishDiagnostics");
        }
        _ => panic!("expected a notification event"),
    }
    assert_eq!(conn.pending_count(), 0);
}

#[test]
fn garbage_payloads_are_dropped_without_crashing() {
    let mut conn = ProcessConnection::new();
    assert!(matches!(conn.on_payload(b"not json at all"), ConnEvent::Discarded));
    assert!(matches!(conn.on_payload(b"{}"), ConnEvent::Discarded));
    assert_eq!(conn.pending_count(), 0);
}

fn diag(message: &str) -> DiagnosticRecord {
    DiagnosticRecord {
        message: String::from(message),
        severity: 1,
        start_line: 0,
        start_character: 0,
        end_line: 0,
        end_character: 1,
    }
}

#[test]
fn change_after_open_returns_the_changed_text() {
    let mut store = DocumentStore::new();
    store.did_open("file:///a.rs", "fn main() {}");
    store.did_change("file:///a.rs", "fn main() { panic!() }");
    assert_eq!(
        store.get_content("file:///a.rs").as_deref(),
        Some("fn main() { panic!() }")
    );
}

#[test]
fn change_keeps_existing_diagnostics() {
    let mut store = DocumentStore::new();
    store.did_open("file:///a.rs", "one");
    store.publish_diagnostics("file:///a.rs", vec![diag("boom")]);
    store.did_change("file:///a.rs", "two");
    let diags = store.get_diagnostics("file:///a.rs").unwrap();
    assert_eq!(diags.len(), 1);
    assert_eq!(diags[0].message, "boom");
    assert_eq!(store.get_content("file:///a.rs").as_deref(), Some("two"));
}

#[test]
fn close_removes_and_later_diagnostics_start_fresh() {
    let mut store = DocumentStore::new();
    store.did_open("file:///a.rs", "text");
    store.publish_diagnostics("file:///a.rs", vec![diag("old")]);
    store.did_close("file:///a.rs");
    assert!(!store.contains("file:///a.rs"));
    assert!(store.get_content("file:///a.rs").is_none());

    store.publish_diagnostics("file:///a.rs", vec![diag("new")]);
    assert!(store.contains("file:///a.rs"));
    assert_eq!(store.get_content("file:///a.rs").as_deref(), Some(""));
    let diags = store.get_diagnostics("file:///a.rs").unwrap();
    assert_eq!(diags.len(), 1);
    assert_eq!(diags[0].message, "new");
}

#[test]
fn adapter_forwards_document_lifecycle() {
    let mut adapter = RustLanguageServer::new("/proj");
    let open_frame = adapter.did_open("file:///m.rs", "a", "{\"p\":1}");
    assert_eq!(
        open_frame,
        framed("{\"jsonrpc\":\"2.0\",\"method\":\"textDocument/didOpen\",\"params\":{\"p\":1}}")
    );

    let changes = vec![String::from("b"), String::from("c")];
    let _ = adapter.did_change("file:///m.rs", &changes, "{}");
    assert_eq!(
        adapter.documents().get_content("file:///m.rs").as_deref(),
        Some("c")
    );

    let no_changes: Vec<String> = Vec::new();
    let _ = adapter.did_change("file:///m.rs", &no_changes, "{}");
    assert_eq!(
        adapter.documents().get_content("file:///m.rs").as_deref(),
        Some("c")
    );

    let _ = adapter.did_save("{}");
    let _ = adapter.did_close("file:///m.rs", "{}");
    assert!(adapter.documents().get_content("file:///m.rs").is_none());
}

#[test]
fn adapter_relays_only_diagnostics_notifications() {
    let mut adapter = RustLanguageServer::new("/proj");
    let relayed = adapter.process_notification(
        "textDocument/publishDiagnostics",
        "file:///m.rs",
        vec![diag("oops")],
    );
    assert!(relayed);
    let diags = adapter.documents().get_diagnostics("file:///m.rs").unwrap();
    assert_eq!(diags[0].message, "oops");

    let ignored = adapter.process_notification("window/logMessage", "file:///m.rs", Vec::new());
    assert!(!ignored);
}
