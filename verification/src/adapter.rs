//! The per-language adapter, here for the Rust analyzer.
//!
//! The adapter owns the launch configuration, the lifecycle phase, the
//! document store and the process-connection state. The host spawns the
//! process described by [`RustLanguageServer::begin_initialize`], reports
//! the outcome, writes the returned wire frames to the child's input and
//! feeds the child's output back in.

use vstd::prelude::*;

use crate::connection::{
    decode_response_fields, error_field_of, framed, notification_json, notification_frame,
    result_field_of, ProcessConnection,
};
use crate::documents::{DiagnosticRecord, DocumentStore};
use crate::errors::LspError;
use crate::text::str_eq;

verus! {

/// An immutable description of how to launch one language's analyzer.
pub struct ServerConfig {
    /// The project root directory the analyzer runs in.
    pub root_path: String,
    /// The analyzer executable; a compiled-in default applies when absent.
    pub executable_path: Option<String>,
    /// Extra command-line arguments, in order.
    pub additional_args: Vec<String>,
    /// Extra environment variables, name to value.
    pub env_vars: Vec<(String, String)>,
}

impl ServerConfig {
    /// Creates a configuration rooted at the given directory.
    pub fn new(root_path: &str) -> (r: ServerConfig)
        ensures
            r.root_path@ == root_path@,
            r.executable_path is None,
            r.additional_args@.len() == 0,
            r.env_vars@.len() == 0,
    {
        ServerConfig {
            root_path: root_path.to_owned(),
            executable_path: None,
            additional_args: Vec::new(),
            env_vars: Vec::new(),
        }
    }

    /// Sets the analyzer executable.
    pub fn with_executable(self, exe: &str) -> (r: ServerConfig)
        ensures
            r.root_path == self.root_path,
            r.executable_path matches Some(e) && e@ == exe@,
            r.additional_args == self.additional_args,
            r.env_vars == self.env_vars,
    {
        ServerConfig { executable_path: Some(exe.to_owned()), ..self }
    }

    /// Appends one command-line argument.
    pub fn with_arg(self, arg: &str) -> (r: ServerConfig)
        ensures
            r.root_path == self.root_path,
            r.executable_path == self.executable_path,
            r.additional_args@.len() == self.additional_args@.len() + 1,
            r.additional_args@.last()@ == arg@,
            forall|i: int|
                0 <= i < self.additional_args@.len() ==> r.additional_args@[i]
                    == self.additional_args@[i],
            r.env_vars == self.env_vars,
    {
        let mut args = self.additional_args;
        args.push(arg.to_owned());
        ServerConfig { additional_args: args, ..self }
    }

    /// Appends one environment variable.
    pub fn with_env_var(self, name: &str, value: &str) -> (r: ServerConfig)
        ensures
            r.root_path == self.root_path,
            r.executable_path == self.executable_path,
            r.additional_args == self.additional_args,
            r.env_vars@.len() == self.env_vars@.len() + 1,
            r.env_vars@.last().0@ == name@,
            r.env_vars@.last().1@ == value@,
            forall|i: int| 0 <= i < self.env_vars@.len() ==> r.env_vars@[i] == self.env_vars@[i],
    {
        let mut vars = self.env_vars;
        vars.push((name.to_owned(), value.to_owned()));
        ServerConfig { env_vars: vars, ..self }
    }
}

/// Where the adapter stands in its lifecycle.
#[derive(Clone, Copy, Debug, PartialEq, Eq, Structural)]
pub enum AdapterPhase {
    /// No process has been launched yet.
    Uninitialized,
    /// A launch is under way.
    Starting,
    /// The analyzer process is up and the connection is open.
    Running,
    /// A teardown is under way.
    ShuttingDown,
    /// The adapter was shut down.
    Stopped,
    /// The launch failed.
    Failed,
}

/// What the host must execute to launch the analyzer.
pub struct LaunchCommand {
    /// The executable to spawn.
    pub program: String,
    /// Its command-line arguments, in order.
    pub args: Vec<String>,
    /// Environment variables to set for it.
    pub env: Vec<(String, String)>,
    /// The working directory to spawn it in.
    pub current_dir: String,
}

/// The wire frames of the best-effort goodbye to the child.
pub struct ShutdownNotices {
    /// The framed `shutdown` notification.
    pub shutdown_frame: String,
    /// The framed `exit` notification.
    pub exit_frame: String,
}

/// The adapter implementing the LSP server role for Rust, backed by an
/// external analyzer process.
pub struct RustLanguageServer {
    config: ServerConfig,
    phase: AdapterPhase,
    documents: DocumentStore,
    connection: ProcessConnection,
}

impl RustLanguageServer {
    /// The adapter's launch configuration.
    pub closed spec fn config_spec(self) -> ServerConfig {
        self.config
    }

    /// The adapter's lifecycle phase.
    pub closed spec fn phase_spec(self) -> AdapterPhase {
        self.phase
    }

    /// The adapter's document store.
    pub closed spec fn documents_spec(self) -> DocumentStore {
        self.documents
    }

    /// The adapter's connection state.
    pub closed spec fn connection_spec(self) -> ProcessConnection {
        self.connection
    }

    /// Borrows the document store, for reading document state out.
    pub fn documents(&self) -> (r: &DocumentStore)
        ensures
            *r == self.documents_spec(),
    {
        &self.documents
    }

    /// Mutably borrows the connection state, for the host's read loop.
    pub fn connection_mut(&mut self) -> (r: &mut ProcessConnection)
        ensures
            *r == old(self).connection_spec(),
            final(self).connection_spec() == *final(r),
            final(self).phase_spec() == old(self).phase_spec(),
            final(self).config_spec() == old(self).config_spec(),
            final(self).documents_spec() == old(self).documents_spec(),
    {
        &mut self.connection
    }

    /// The identifier of the backing analyzer.
    pub fn id(&self) -> (r: &'static str)
        ensures
            r@ == "rust-analyzer"@,
    {
        "rust-analyzer"
    }

    /// The human-readable name of the backing analyzer.
    pub fn name(&self) -> (r: &'static str)
        ensures
            r@ == "Rust Analyzer"@,
    {
        "Rust Analyzer"
    }

    /// The launch configuration.
    pub fn config(&self) -> (r: &ServerConfig)
        ensures
            *r == self.config_spec(),
    {
        &self.config
    }

    /// Creates an adapter for the project rooted at `root_path`, not yet
    /// launched: the analyzer defaults to `rust-analyzer` with backtraces
    /// enabled.
    pub fn new(root_path: &str) -> (r: RustLanguageServer)
        ensures
            r.phase_spec() is Uninitialized,
            r.config_spec().root_path@ == root_path@,
            r.config_spec().executable_path matches Some(e) && e@ == "rust-analyzer"@,
            r.config_spec().env_vars@.len() == 1,
            r.config_spec().env_vars@[0].0@ == "RUST_BACKTRACE"@,
            r.config_spec().env_vars@[0].1@ == "1"@,
            r.documents_spec().docs() == Map::<Seq<char>, crate::documents::DocumentRecord>::empty(),
            r.connection_spec().wf(),
            r.connection_spec().next_id_spec() == 0,
    {
        let config = ServerConfig::new(root_path).with_executable("rust-analyzer").with_env_var(
            "RUST_BACKTRACE",
            "1",
        );
        RustLanguageServer {
            config,
            phase: AdapterPhase::Uninitialized,
            documents: DocumentStore::new(),
            connection: ProcessConnection::new(),
        }
    }

    /// Whether the analyzer is up.
    pub fn is_running(&self) -> (r: bool)
        ensures
            r == (self.phase_spec() is Running),
    {
        matches!(self.phase, AdapterPhase::Running)
    }

    /// Starts the launch: the adapter moves to `Starting` and the host
    /// receives the command to spawn, built from the configuration.
    pub fn begin_initialize(&mut self) -> (r: LaunchCommand)
        requires
            !(old(self).phase_spec() is Running),
        ensures
            final(self).phase_spec() is Starting,
            final(self).config_spec() == old(self).config_spec(),
            final(self).documents_spec() == old(self).documents_spec(),
            final(self).connection_spec() == old(self).connection_spec(),
            r.program@ == match old(self).config_spec().executable_path {
                Some(e) => e@,
                None => "rust-analyzer"@,
            },
            r.args@ == old(self).config_spec().additional_args@,
            r.env@ == old(self).config_spec().env_vars@,
            r.current_dir == old(self).config_spec().root_path,
    {
        self.phase = AdapterPhase::Starting;
        let program = match &self.config.executable_path {
            Some(e) => e.clone(),
            None => String::from_str("rust-analyzer"),
        };
        LaunchCommand {
            program,
            args: clone_string_vec(&self.config.additional_args),
            env: clone_env_vec(&self.config.env_vars),
            current_dir: self.config.root_path.clone(),
        }
    }

    /// Records the outcome of the spawn the host performed.
    ///
    /// On success the adapter is `Running`; on failure it is `Failed` and
    /// the spawn error is returned, so the command layer can unregister
    /// the language for a later retry.
    pub fn process_spawned(&mut self, ok: bool, detail: &str) -> (r: Result<(), LspError>)
        ensures
            final(self).config_spec() == old(self).config_spec(),
            final(self).documents_spec() == old(self).documents_spec(),
            final(self).connection_spec() == old(self).connection_spec(),
            ok ==> final(self).phase_spec() is Running && r is Ok,
            !ok ==> final(self).phase_spec() is Failed && (r matches Err(e)
                && e matches LspError::ProcessSpawnError { detail: d } && d@ == detail@),
    {
        if ok {
            self.phase = AdapterPhase::Running;
            Ok(())
        } else {
            self.phase = AdapterPhase::Failed;
            Err(LspError::ProcessSpawnError { detail: detail.to_owned() })
        }
    }

    /// Tears the adapter down, idempotently.
    ///
    /// When the analyzer was up (or still starting), the best-effort
    /// `shutdown` and `exit` notifications to write are returned; the
    /// host then kills the process. Shutting down an adapter that is
    /// already stopped is a successful no-op.
    pub fn shutdown(&mut self) -> (r: Option<ShutdownNotices>)
        ensures
            final(self).phase_spec() is Stopped,
            final(self).config_spec() == old(self).config_spec(),
            final(self).documents_spec() == old(self).documents_spec(),
            final(self).connection_spec() == old(self).connection_spec(),
            (old(self).phase_spec() is Running || old(self).phase_spec() is Starting) <==> r
                is Some,
            r matches Some(n) ==> n.shutdown_frame@ == framed(notification_json("shutdown"@, None))
                && n.exit_frame@ == framed(notification_json("exit"@, None)),
    {
        let was_up = matches!(self.phase, AdapterPhase::Running | AdapterPhase::Starting);
        self.phase = AdapterPhase::Stopped;
        if was_up {
            Some(
                ShutdownNotices {
                    shutdown_frame: notification_frame("shutdown", None),
                    exit_frame: notification_frame("exit", None),
                },
            )
        } else {
            None
        }
    }

    /// Records an opened document and renders the `didOpen` notification
    /// to forward, with the front-end's params passed through verbatim.
    pub fn did_open(&mut self, uri: &str, text: &str, params_json: &str) -> (frame: String)
        ensures
            final(self).phase_spec() == old(self).phase_spec(),
            final(self).config_spec() == old(self).config_spec(),
            final(self).connection_spec() == old(self).connection_spec(),
            final(self).documents_spec().docs() == old(self).documents_spec().docs().insert(
                uri@,
                final(self).documents_spec().docs()[uri@],
            ),
            final(self).documents_spec().docs()[uri@].content@ == text@,
            final(self).documents_spec().docs()[uri@].diagnostics@.len() == 0,
            frame@ == framed(notification_json("textDocument/didOpen"@, Some(params_json@))),
    {
        self.documents.did_open(uri, text);
        notification_frame("textDocument/didOpen", Some(params_json))
    }

    /// Records a document change and renders the `didChange` notification
    /// to forward.
    ///
    /// The document's content becomes the text of the last change in the
    /// list; a notification with no changes updates nothing but is still
    /// forwarded.
    pub fn did_change(&mut self, uri: &str, changes: &Vec<String>, params_json: &str) -> (frame:
        String)
        ensures
            final(self).phase_spec() == old(self).phase_spec(),
            final(self).config_spec() == old(self).config_spec(),
            final(self).connection_spec() == old(self).connection_spec(),
            changes@.len() == 0 ==> final(self).documents_spec() == old(self).documents_spec(),
            changes@.len() > 0 ==> {
                &&& final(self).documents_spec().docs() == old(self).documents_spec().docs().insert(
                    uri@,
                    final(self).documents_spec().docs()[uri@],
                )
                &&& final(self).documents_spec().docs()[uri@].content@ == changes@.last()@
                &&& (old(self).documents_spec().docs().contains_key(uri@) ==> final(self).documents_spec().docs()[uri@].diagnostics == old(self).documents_spec().docs()[uri@].diagnostics)
                &&& (!old(self).documents_spec().docs().contains_key(uri@) ==> final(self).documents_spec().docs()[uri@].diagnostics@.len() == 0)
            },
            frame@ == framed(notification_json("textDocument/didChange"@, Some(params_json@))),
    {
        if changes.len() > 0 {
            let last = &changes[changes.len() - 1];
            self.documents.did_change(uri, last.as_str());
        }
        notification_frame("textDocument/didChange", Some(params_json))
    }

    /// Renders the `didSave` notification to forward; the store is not
    /// touched.
    pub fn did_save(&mut self, params_json: &str) -> (frame: String)
        ensures
            *final(self) == *old(self),
            frame@ == framed(notification_json("textDocument/didSave"@, Some(params_json@))),
    {
        notification_frame("textDocument/didSave", Some(params_json))
    }

    /// Forgets the document and renders the `didClose` notification to
    /// forward.
    pub fn did_close(&mut self, uri: &str, params_json: &str) -> (frame: String)
        ensures
            final(self).phase_spec() == old(self).phase_spec(),
            final(self).config_spec() == old(self).config_spec(),
            final(self).connection_spec() == old(self).connection_spec(),
            final(self).documents_spec().docs() == old(self).documents_spec().docs().remove(uri@),
            frame@ == framed(notification_json("textDocument/didClose"@, Some(params_json@))),
    {
        self.documents.did_close(uri);
        notification_frame("textDocument/didClose", Some(params_json))
    }

    /// Handles one notification drained from the connection.
    ///
    /// `textDocument/publishDiagnostics` replaces the document's
    /// diagnostics — inserting a fresh entry when the document is not
    /// tracked — and asks the host to relay them to the front-end; any
    /// other method is dropped.
    pub fn process_notification(
        &mut self,
        method: &str,
        uri: &str,
        diagnostics: Vec<DiagnosticRecord>,
    ) -> (relay: bool)
        ensures
            final(self).phase_spec() == old(self).phase_spec(),
            final(self).config_spec() == old(self).config_spec(),
            final(self).connection_spec() == old(self).connection_spec(),
            relay == (method@ == "textDocument/publishDiagnostics"@),
            !relay ==> final(self).documents_spec() == old(self).documents_spec(),
            relay ==> {
                &&& final(self).documents_spec().docs() == old(self).documents_spec().docs().insert(
                    uri@,
                    final(self).documents_spec().docs()[uri@],
                )
                &&& final(self).documents_spec().docs()[uri@].diagnostics == diagnostics
                &&& (old(self).documents_spec().docs().contains_key(uri@) ==> final(self).documents_spec().docs()[uri@].content == old(self).documents_spec().docs()[uri@].content)
                &&& (!old(self).documents_spec().docs().contains_key(uri@) ==> final(self).documents_spec().docs()[uri@].content@.len() == 0)
            },
    {
        if str_eq(method, "textDocument/publishDiagnostics") {
            self.documents.publish_diagnostics(uri, diagnostics);
            true
        } else {
            false
        }
    }
}

/// Interprets a correlated response body, as its decoded `error` and
/// `result` members.
///
/// A protocol-level error is surfaced with its code and message; a
/// result is handed through; a response with neither cannot be used.
pub fn interpret_response(error: Option<(i64, String)>, result_json: Option<String>) -> (r: Result<
    String,
    LspError,
>)
    ensures
        match error {
            Some((code, message)) => (r matches Err(e)
                && e matches LspError::RemoteProtocolError { code: c, message: m } && c == code && m
                == message),
            None => match result_json {
                Some(body) => r matches Ok(b) && b == body,
                None => r matches Err(e) && e is ResponseParseError,
            },
        },
{
    match error {
        Some((code, message)) => Err(LspError::RemoteProtocolError { code, message }),
        None => match result_json {
            Some(body) => Ok(body),
            None => Err(LspError::ResponseParseError),
        },
    }
}

/// Decodes a correlated response body and applies the outcome policy:
/// a protocol-level `error` member is surfaced with its code and
/// message, a `result` member is handed through as JSON text, and a
/// response with neither cannot be used.
pub fn response_of(payload: &[u8]) -> (r: Result<String, LspError>)
    ensures
        match error_field_of(payload@) {
            Some(f) => (r matches Err(e) && e matches LspError::RemoteProtocolError {
                code,
                message,
            } && code == f.0 && message@ == f.1),
            None => match result_field_of(payload@) {
                Some(b) => r matches Ok(body) && body@ == b,
                None => r matches Err(e) && e is ResponseParseError,
            },
        },
{
    let fields = decode_response_fields(payload);
    interpret_response(fields.0, fields.1)
}

/// How the front-end-facing `initialize` call ends.
#[derive(Clone, Copy, Debug, PartialEq, Eq, Structural)]
pub enum InitializeDisposition {
    /// The analyzer could not be launched: the call fails.
    FailLaunch,
    /// The analyzer's capabilities are returned as parsed.
    UseParsed,
    /// The forwarded handshake failed or its reply was malformed: a
    /// conservative default capability set is returned so the session
    /// can continue.
    UseFallback,
}

/// Decides the front-end-facing `initialize` outcome from the three
/// things that can go wrong: the spawn, the forwarded handshake, and the
/// decoding of its reply. Only a failed launch fails the call; a failed
/// or malformed handshake degrades to the default capability set, so the
/// front-end session does not abort outright.
pub fn initialize_disposition(spawn_ok: bool, forward_ok: bool, parse_ok: bool) -> (r:
    InitializeDisposition)
    ensures
        !spawn_ok ==> r is FailLaunch,
        spawn_ok && forward_ok && parse_ok ==> r is UseParsed,
        spawn_ok && !(forward_ok && parse_ok) ==> r is UseFallback,
{
    if !spawn_ok {
        InitializeDisposition::FailLaunch
    } else if forward_ok && parse_ok {
        InitializeDisposition::UseParsed
    } else {
        InitializeDisposition::UseFallback
    }
}

/// The conservative default capability set, as plain values.
///
/// When the forwarded `initialize` handshake fails or its reply is
/// malformed, this is what the front-end is told, so the session can
/// continue with basic operation.
pub struct DefaultCapabilities {
    /// Documents are synchronized by incremental changes.
    pub text_document_sync_incremental: bool,
    /// Hover answers are served.
    pub hover: bool,
    /// Completion items can be resolved lazily.
    pub completion_resolve: bool,
    /// The characters that trigger completion.
    pub completion_trigger_characters: Vec<String>,
    /// The characters that trigger signature help.
    pub signature_help_trigger_characters: Vec<String>,
    /// Go-to-definition is served.
    pub definition: bool,
    /// Go-to-type-definition is served.
    pub type_definition: bool,
    /// Go-to-implementation is served.
    pub implementation: bool,
    /// Find-references is served.
    pub references: bool,
    /// Document highlights are served.
    pub document_highlight: bool,
    /// Document symbols are served.
    pub document_symbol: bool,
    /// Workspace symbols are served.
    pub workspace_symbol: bool,
    /// Code actions are served.
    pub code_action: bool,
    /// Code lenses can be resolved lazily.
    pub code_lens_resolve: bool,
    /// Whole-document formatting is served.
    pub document_formatting: bool,
    /// Renames can be prepared.
    pub rename_prepare: bool,
    /// Folding ranges are served.
    pub folding_range: bool,
    /// Go-to-declaration is served.
    pub declaration: bool,
    /// Workspace folders are supported.
    pub workspace_folders: bool,
    /// Workspace-folder changes are notified.
    pub workspace_folder_change_notifications: bool,
    /// The call hierarchy is served.
    pub call_hierarchy: bool,
    /// The server name the front-end is told.
    pub server_name: String,
    /// The server version the front-end is told.
    pub server_version: String,
}

/// Builds the conservative default capability set.
pub fn fallback_capabilities() -> (r: DefaultCapabilities)
    ensures
        r.text_document_sync_incremental,
        r.hover,
        r.completion_resolve,
        r.completion_trigger_characters@.len() == 2,
        r.completion_trigger_characters@[0]@ == "."@,
        r.completion_trigger_characters@[1]@ == "::"@,
        r.signature_help_trigger_characters@.len() == 2,
        r.signature_help_trigger_characters@[0]@ == "("@,
        r.signature_help_trigger_characters@[1]@ == ","@,
        r.definition,
        r.type_definition,
        r.implementation,
        r.references,
        r.document_highlight,
        r.document_symbol,
        r.workspace_symbol,
        r.code_action,
        r.code_lens_resolve,
        r.document_formatting,
        r.rename_prepare,
        r.folding_range,
        r.declaration,
        r.workspace_folders,
        r.workspace_folder_change_notifications,
        r.call_hierarchy,
        r.server_name@ == "rust-analyzer"@,
        r.server_version@ == "1.0.0"@,
{
    let mut completion_triggers: Vec<String> = Vec::new();
    completion_triggers.push(String::from_str("."));
    completion_triggers.push(String::from_str("::"));
    let mut signature_triggers: Vec<String> = Vec::new();
    signature_triggers.push(String::from_str("("));
    signature_triggers.push(String::from_str(","));
    DefaultCapabilities {
        text_document_sync_incremental: true,
        hover: true,
        completion_resolve: true,
        completion_trigger_characters: completion_triggers,
        signature_help_trigger_characters: signature_triggers,
        definition: true,
        type_definition: true,
        implementation: true,
        references: true,
        document_highlight: true,
        document_symbol: true,
        workspace_symbol: true,
        code_action: true,
        code_lens_resolve: true,
        document_formatting: true,
        rename_prepare: true,
        folding_range: true,
        declaration: true,
        workspace_folders: true,
        workspace_folder_change_notifications: true,
        call_hierarchy: true,
        server_name: String::from_str("rust-analyzer"),
        server_version: String::from_str("1.0.0"),
    }
}

/// What one front-end request gets back.
#[derive(Clone, Copy, Debug, PartialEq, Eq, Structural)]
pub enum RequestOutcome {
    /// The analyzer's answer is returned as parsed.
    UseParsed,
    /// The request is answered with "no result".
    NoResult,
}

/// Decides the outcome of one forwarded request (completion, hover,
/// definition, references, formatting) from what came back: only a
/// successfully sent request with a non-null, well-formed answer yields
/// a result. A failed request, a `null` answer, or an answer the
/// adapter's types cannot hold is "no result" — never an error to the
/// caller.
pub fn request_disposition(send_ok: bool, result_null: bool, parse_ok: bool) -> (r: RequestOutcome)
    ensures
        send_ok && !result_null && parse_ok ==> r is UseParsed,
        !send_ok || result_null || !parse_ok ==> r is NoResult,
{
    if send_ok && !result_null && parse_ok {
        RequestOutcome::UseParsed
    } else {
        RequestOutcome::NoResult
    }
}

fn clone_string_vec(v: &Vec<String>) -> (r: Vec<String>)
    ensures
        r@ == v@,
{
    let mut r: Vec<String> = Vec::new();
    let mut i: usize = 0;
    while i < v.len()
        invariant
            i <= v.len(),
            r@ =~= v@.subrange(0, i as int),
        decreases v.len() - i,
    {
        r.push(v[i].clone());
        proof {
            assert(v@.subrange(0, i + 1) =~= v@.subrange(0, i as int).push(v@[i as int]));
        }
        i = i + 1;
    }
    proof {
        assert(v@.subrange(0, v@.len() as int) =~= v@);
    }
    r
}

fn clone_env_vec(v: &Vec<(String, String)>) -> (r: Vec<(String, String)>)
    ensures
        r@ == v@,
{
    let mut r: Vec<(String, String)> = Vec::new();
    let mut i: usize = 0;
    while i < v.len()
        invariant
            i <= v.len(),
            r@ =~= v@.subrange(0, i as int),
        decreases v.len() - i,
    {
        let pair = &v[i];
        r.push((pair.0.clone(), pair.1.clone()));
        proof {
            assert(v@.subrange(0, i + 1) =~= v@.subrange(0, i as int).push(v@[i as int]));
        }
        i = i + 1;
    }
    proof {
        assert(v@.subrange(0, v@.len() as int) =~= v@);
    }
    r
}

} // verus!
