//! The error taxonomy of the gateway.
//!
//! Validation failures are reported synchronously by the command layer;
//! failures after an optimistic acknowledgment are reflected only in later
//! state queries. Each variant carries what its human-readable message
//! needs.

use vstd::prelude::*;
use vstd::string::StringExecFns;

use crate::text::{dec_rep, dec_rep_signed, dec_string_i64, dec_string_u64};

verus! {

/// Everything a gateway command can fail with.
#[derive(Debug, Clone, PartialEq, Eq)]
pub enum LspError {
    /// The file path given to a command does not exist.
    PathNotFound { path: String },
    /// The requested language has no adapter implementation.
    UnsupportedLanguage { language: String },
    /// The requested language is not even recognized for routing.
    UnrecognizedLanguage { language: String },
    /// The analyzer executable could not be launched.
    ProcessSpawnError { detail: String },
    /// The analyzer process or its pipes are gone.
    ConnectionDisconnected,
    /// The analyzer answered a request with a protocol-level error.
    RemoteProtocolError { code: i64, message: String },
    /// No port in the retry window could be bound.
    PortBindFailure { port: u16 },
    /// The analyzer's answer could not be decoded.
    ResponseParseError,
}

impl LspError {
    /// The human-readable message for this error.
    pub open spec fn spec_message(self) -> Seq<char> {
        match self {
            LspError::PathNotFound { path } => "Specified path does not exist: "@ + path@,
            LspError::UnsupportedLanguage { language } => "Language '"@ + language@
                + "' is not supported. Currently supported languages are: rust"@,
            LspError::UnrecognizedLanguage { language } => "Can't recognize '"@ + language@
                + "' Language. Recognized languages: rust, javascript, typescript, python"@,
            LspError::ProcessSpawnError { detail } => "Failed to start language server process: "@
                + detail@,
            LspError::ConnectionDisconnected => "No connection to language server"@,
            LspError::RemoteProtocolError { code, message } => "LSP error: "@ + message@
                + " (code: "@ + dec_rep_signed(code as int) + ")"@,
            LspError::PortBindFailure { port } => "Cannot start WebSocket server on port "@
                + dec_rep(port as nat),
            LspError::ResponseParseError => "Failed to parse response from language server"@,
        }
    }

    /// Renders the message of this error.
    pub fn message(&self) -> (r: String)
        ensures
            r@ == self.spec_message(),
    {
        match self {
            LspError::PathNotFound { path } => {
                let mut s = String::from_str("Specified path does not exist: ");
                s.append(path.as_str());
                s
            },
            LspError::UnsupportedLanguage { language } => {
                let mut s = String::from_str("Language '");
                s.append(language.as_str());
                s.append("' is not supported. Currently supported languages are: rust");
                s
            },
            LspError::UnrecognizedLanguage { language } => {
                let mut s = String::from_str("Can't recognize '");
                s.append(language.as_str());
                s.append("' Language. Recognized languages: rust, javascript, typescript, python");
                s
            },
            LspError::ProcessSpawnError { detail } => {
                let mut s = String::from_str("Failed to start language server process: ");
                s.append(detail.as_str());
                s
            },
            LspError::ConnectionDisconnected => String::from_str(
                "No connection to language server",
            ),
            LspError::RemoteProtocolError { code, message } => {
                let mut s = String::from_str("LSP error: ");
                s.append(message.as_str());
                s.append(" (code: ");
                let num = dec_string_i64(*code);
                s.append(num.as_str());
                s.append(")");
                s
            },
            LspError::PortBindFailure { port } => {
                let mut s = String::from_str("Cannot start WebSocket server on port ");
                let num = dec_string_u64(*port as u64);
                s.append(num.as_str());
                s
            },
            LspError::ResponseParseError => String::from_str(
                "Failed to parse response from language server",
            ),
        }
    }
}

} // verus!
