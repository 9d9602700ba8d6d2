//! Lifecycle of the WebSocket front-end endpoint.
//!
//! Starting is idempotent: a start request while the gateway is running,
//! or while the requested port is already bound by somebody else, is
//! acknowledged without binding again. The actual listener is bound by
//! the host, which reports each bind attempt back; after five failed
//! attempts on consecutive ports the gateway gives up and clears its
//! running flag. Stopping when not running is a successful no-op.

use vstd::prelude::*;
use vstd::string::StringExecFns;

use crate::errors::LspError;
use crate::text::{dec_rep, dec_string_u64};

verus! {

/// How many consecutive ports a start request may try to bind.
pub const MAX_BIND_ATTEMPTS: u8 = 5;

/// The state of the WebSocket endpoint.
pub struct WebSocketGateway {
    running: bool,
    bound_port: Option<u16>,
}

impl WebSocketGateway {
    /// Whether the gateway believes it is serving.
    pub closed spec fn running_spec(self) -> bool {
        self.running
    }

    /// The port the listener was bound on, once a bind has succeeded.
    pub closed spec fn bound_port_spec(self) -> Option<u16> {
        self.bound_port
    }

    /// A port is recorded only while the gateway is running.
    pub open spec fn wf(self) -> bool {
        self.bound_port_spec() is Some ==> self.running_spec()
    }

    /// Creates a stopped gateway.
    pub fn new() -> (r: WebSocketGateway)
        ensures
            r.wf(),
            !r.running_spec(),
            r.bound_port_spec() is None,
    {
        WebSocketGateway { running: false, bound_port: None }
    }

    /// Whether the gateway believes it is serving. This reflects only the
    /// running flag; it does not verify that the socket accepts
    /// connections.
    pub fn is_running(&self) -> (r: bool)
        ensures
            r == self.running_spec(),
    {
        self.running
    }

    /// Acknowledges a start request.
    ///
    /// The caller probes whether `port` is free and passes the outcome in
    /// `port_free`. An occupied port is taken for a prior instance of this
    /// same gateway, so the request still succeeds and the gateway counts
    /// as running. Only when the gateway was stopped and the port is free
    /// does the caller owe the actual bind loop, reported through
    /// [`Self::bind_succeeded`] and [`Self::bind_attempt_failed`].
    pub fn start(&mut self, port: u16, port_free: bool) -> (r: Result<String, LspError>)
        requires
            old(self).wf(),
        ensures
            final(self).wf(),
            final(self).running_spec(),
            old(self).running_spec() ==> *final(self) == *old(self),
            !old(self).running_spec() ==> final(self).bound_port_spec() is None,
            match r {
                Ok(msg) => {
                    &&& (old(self).running_spec() ==> msg@ == "LSP WebSocket server already running on port "@
                        + dec_rep(port as nat))
                    &&& (!old(self).running_spec() && !port_free
                        ==> msg@ == "LSP WebSocket server is already running on port "@ + dec_rep(
                        port as nat,
                    ))
                    &&& (!old(self).running_spec() && port_free
                        ==> msg@ == "Starting LSP WebSocket server on port "@ + dec_rep(port as nat)
                        + " (or next available)"@)
                },
                Err(_) => false,
            },
    {
        if self.running {
            let mut msg = String::from_str("LSP WebSocket server already running on port ");
            let num = dec_string_u64(port as u64);
            msg.append(num.as_str());
            return Ok(msg);
        }
        if !port_free {
            self.running = true;
            let mut msg = String::from_str("LSP WebSocket server is already running on port ");
            let num = dec_string_u64(port as u64);
            msg.append(num.as_str());
            return Ok(msg);
        }
        self.running = true;
        self.bound_port = None;
        let mut msg = String::from_str("Starting LSP WebSocket server on port ");
        let num = dec_string_u64(port as u64);
        msg.append(num.as_str());
        msg.append(" (or next available)");
        Ok(msg)
    }

    /// Records that the listener was bound on `port`.
    pub fn bind_succeeded(&mut self, port: u16)
        ensures
            final(self).wf(),
            final(self).running_spec(),
            final(self).bound_port_spec() == Some(port),
    {
        self.running = true;
        self.bound_port = Some(port);
    }

    /// Records that bind attempt number `attempt` (counted from zero) on
    /// `port` failed, and says which port to try next.
    ///
    /// Before the last allowed attempt the next adjacent port is returned
    /// and the gateway still counts as starting. After the last attempt
    /// the gateway gives up: the running flag is cleared, so a start that
    /// exhausts all of its candidate ports ends not running.
    pub fn bind_attempt_failed(&mut self, attempt: u8, port: u16) -> (retry: Option<u16>)
        requires
            old(self).wf(),
            attempt < MAX_BIND_ATTEMPTS,
            attempt + 1 < MAX_BIND_ATTEMPTS ==> port < 0xffff,
        ensures
            final(self).wf(),
            attempt + 1 < MAX_BIND_ATTEMPTS ==> retry == Some((port + 1) as u16) && *final(self)
                == *old(self),
            attempt + 1 == MAX_BIND_ATTEMPTS ==> retry is None && !final(self).running_spec()
                && final(self).bound_port_spec() is None,
    {
        if attempt + 1 < MAX_BIND_ATTEMPTS {
            Some(port + 1)
        } else {
            self.running = false;
            self.bound_port = None;
            None
        }
    }

    /// Acknowledges a stop request.
    ///
    /// Stopping a gateway that is not running succeeds and alters nothing;
    /// otherwise the running flag and the recorded port are cleared.
    pub fn stop(&mut self) -> (r: Result<String, LspError>)
        requires
            old(self).wf(),
        ensures
            final(self).wf(),
            !final(self).running_spec(),
            final(self).bound_port_spec() is None,
            !old(self).running_spec() ==> *final(self) == *old(self),
            match r {
                Ok(msg) => {
                    &&& (!old(self).running_spec() ==> msg@ == "LSP WebSocket server not running"@)
                    &&& (old(self).running_spec() ==> msg@ == "LSP WebSocket server stopped"@)
                },
                Err(_) => false,
            },
    {
        if !self.running {
            return Ok(String::from_str("LSP WebSocket server not running"));
        }
        self.running = false;
        self.bound_port = None;
        Ok(String::from_str("LSP WebSocket server stopped"))
    }

    /// Best-effort stop for process-wide teardown; never fails.
    pub fn cleanup_on_exit(&mut self)
        requires
            old(self).wf(),
        ensures
            final(self).wf(),
            !final(self).running_spec(),
            final(self).bound_port_spec() is None,
            !old(self).running_spec() ==> *final(self) == *old(self),
    {
        let _ = self.stop();
    }
}

/// Acknowledges a start request for the WebSocket endpoint; see
/// [`WebSocketGateway::start`].
pub fn start_lsp_websocket_server(
    gateway: &mut WebSocketGateway,
    port: u16,
    port_free: bool,
) -> (r: Result<String, LspError>)
    requires
        old(gateway).wf(),
    ensures
        final(gateway).wf(),
        final(gateway).running_spec(),
        old(gateway).running_spec() ==> *final(gateway) == *old(gateway),
        !old(gateway).running_spec() ==> final(gateway).bound_port_spec() is None,
        match r {
            Ok(msg) => {
                &&& (old(gateway).running_spec()
                    ==> msg@ == "LSP WebSocket server already running on port "@ + dec_rep(
                    port as nat,
                ))
                &&& (!old(gateway).running_spec() && !port_free
                    ==> msg@ == "LSP WebSocket server is already running on port "@ + dec_rep(
                    port as nat,
                ))
                &&& (!old(gateway).running_spec() && port_free
                    ==> msg@ == "Starting LSP WebSocket server on port "@ + dec_rep(port as nat)
                    + " (or next available)"@)
            },
            Err(_) => false,
        },
{
    gateway.start(port, port_free)
}

/// Whether the WebSocket endpoint believes it is serving.
pub fn is_lsp_websocket_running(gateway: &WebSocketGateway) -> (r: bool)
    ensures
        r == gateway.running_spec(),
{
    gateway.is_running()
}

/// Acknowledges a stop request for the WebSocket endpoint; see
/// [`WebSocketGateway::stop`].
pub fn stop_lsp_websocket_server(gateway: &mut WebSocketGateway) -> (r: Result<String, LspError>)
    requires
        old(gateway).wf(),
    ensures
        final(gateway).wf(),
        !final(gateway).running_spec(),
        final(gateway).bound_port_spec() is None,
        !old(gateway).running_spec() ==> *final(gateway) == *old(gateway),
        match r {
            Ok(msg) => {
                &&& (!old(gateway).running_spec() ==> msg@ == "LSP WebSocket server not running"@)
                &&& (old(gateway).running_spec() ==> msg@ == "LSP WebSocket server stopped"@)
            },
            Err(_) => false,
        },
{
    gateway.stop()
}

/// Best-effort stop during process-wide teardown.
pub fn cleanup_on_exit(gateway: &mut WebSocketGateway)
    requires
        old(gateway).wf(),
    ensures
        final(gateway).wf(),
        !final(gateway).running_spec(),
        !old(gateway).running_spec() ==> *final(gateway) == *old(gateway),
{
    gateway.cleanup_on_exit();
}

} // verus!
