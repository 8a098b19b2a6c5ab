//! The messages Herdr errors are reported with.

use vstd::prelude::*;
use crate::herdr::HerdrError;
use crate::text::{extend_str, string_of};
use crate::zellij::{decimal, io_error_text, json_error_text, push_decimal, push_signed, signed_decimal};

verus! {

/// An exit status as text: the code, or `unknown` for a signal.
pub open spec fn status_text(status: Option<i32>) -> Seq<char> {
    match status {
        Some(c) => signed_decimal(c as int),
        None => "unknown"@,
    }
}

/// The message of every error that carries no I/O or JSON error of its own.
/// `None` for those that do: their message ends with that error's own text.
pub open spec fn spec_herdr_message(e: HerdrError) -> Option<Seq<char>> {
    match e {
        HerdrError::CommandFailed { command, status, stdout, stderr } => Some(
            seq!['`'] + command@ + "` failed with status "@ + status_text(status) + if stderr@.len()
                > 0 {
                ": "@ + stderr@
            } else if stdout@.len() > 0 {
                ": "@ + stdout@
            } else {
                seq![]
            },
        ),
        HerdrError::Cli { command, status, code, message } => Some(
            seq!['`'] + command@ + "` failed with status "@ + status_text(status) + " ("@ + code@
                + "): "@ + message@,
        ),
        HerdrError::UnexpectedOutput { command, output } => Some(
            seq!['`'] + command@ + "` returned unexpected output: "@ + output@,
        ),
        HerdrError::UnexpectedResult { expected, found } => Some(
            "expected Herdr result `"@ + expected@ + "`, got `"@ + found@ + seq!['`'],
        ),
        HerdrError::InvalidArgument { name, message } => Some(
            "invalid "@ + name@ + ": "@ + message@,
        ),
        HerdrError::InvalidVersion { component, found } => Some(
            component@ + " reported invalid Herdr version `"@ + found@ + seq!['`'],
        ),
        HerdrError::UnsupportedVersion { component, found, minimum } => Some(
            component@ + " Herdr version "@ + found@ + " is unsupported; require >= "@ + minimum@,
        ),
        HerdrError::UnsupportedProtocol { component, found, required } => Some(
            component@ + " Herdr protocol "@ + decimal(found as nat)
                + " is unsupported; require protocol "@ + decimal(required as nat) + " or "@ + decimal(
                crate::herdr::ALTERNATE_PROTOCOL as nat,
            ),
        ),
        HerdrError::ProtocolMismatch { client, server } => Some(
            "Herdr client/server protocol mismatch (client "@ + decimal(client as nat)
                + ", server "@ + decimal(server as nat) + seq![')'],
        ),
        HerdrError::MissingStatusField { component, field } => Some(
            component@ + " Herdr status is missing `"@ + field@ + seq!['`'],
        ),
        HerdrError::ServerNotRunning { socket } => Some(
            "Herdr server is not running at "@ + socket@,
        ),
        HerdrError::ServerNotReady { timeout_ms, last_error } => Some(
            "Herdr server did not become ready within "@ + decimal(timeout_ms as nat) + "ms"@
                + match last_error {
                Some(l) => ": "@ + l@,
                None => seq![],
            },
        ),
        HerdrError::UnexpectedResponseId { expected, found } => Some(
            "Herdr socket response id mismatch: expected `"@ + expected@ + "`, got `"@ + found@
                + seq!['`'],
        ),
        HerdrError::UnsupportedOperation { operation, reason } => Some(
            operation@ + " is unsupported: "@ + reason@,
        ),
        HerdrError::AmbiguousRecovery { label, root_cwd, matches } => Some(
            "cannot recover Herdr workspace: "@ + decimal(matches as nat)
                + " exact matches for label `"@ + label@ + "` and cwd "@ + root_cwd@,
        ),
        HerdrError::OwnershipMismatch { workspace_id, label, root_cwd } => Some(
            "managed Herdr workspace `"@ + workspace_id@
                + "` still exists but no longer matches owned label `"@ + label@ + "` and root "@
                + root_cwd@ + "; refusing to discard ownership"@,
        ),
        HerdrError::StateHomeUnavailable => Some(
            "cannot locate XDG state home (HOME is unset)"@,
        ),
        HerdrError::StatePath { path, message } => Some(
            "invalid state path "@ + path@ + ": "@ + message@,
        ),
        HerdrError::UnsupportedStateVersion { path, found, supported } => Some(
            "state index "@ + path@ + " has version "@ + decimal(found as nat)
                + "; supported version is "@ + decimal(supported as nat),
        ),
        HerdrError::StateLocked { path, timeout_ms } => Some(
            "state index is locked at "@ + path@ + " after waiting "@ + decimal(timeout_ms as nat)
                + "ms"@,
        ),
        _ => None,
    }
}

/// The beginning of the message of an error that carries an I/O or JSON
/// error; that error's own text follows it.
pub open spec fn herdr_message_prefix(e: HerdrError) -> Seq<char> {
    match e {
        HerdrError::Execute { command, .. } => "failed to execute `"@ + command@ + "`: "@,
        HerdrError::Spawn { command, .. } => "failed to start detached `"@ + command@ + "`: "@,
        HerdrError::InvalidJson { command, .. } => seq!['`'] + command@
            + "` returned invalid JSON ("@,
        HerdrError::SocketIo { operation, path, .. } => "failed to "@ + operation@
            + " Herdr socket at "@ + path@ + ": "@,
        HerdrError::SocketJson { operation, .. } => "failed to "@ + operation@ + ": "@,
        HerdrError::StateIo { operation, path, .. } => "failed to "@ + operation@ + " state at "@
            + path@ + ": "@,
        HerdrError::StateJson { operation, path, .. } => "failed to "@ + operation@
            + " state JSON at "@ + path@ + ": "@,
        _ => seq![],
    }
}

fn push_status(out: &mut Vec<char>, status: Option<i32>)
    ensures
        final(out)@ == old(out)@ + status_text(status),
{
    match status {
        Some(c) => push_signed(out, c),
        None => extend_str(out, "unknown"),
    }
}

fn push_number(out: &mut Vec<char>, n: u64)
    ensures
        final(out)@ == old(out)@ + decimal(n as nat),
{
    push_decimal(out, n)
}

impl HerdrError {
    /// The message shown to the user.
    pub fn message(&self) -> (r: String)
        ensures
            match spec_herdr_message(*self) {
                Some(m) => r@ == m,
                None => r@.len() >= herdr_message_prefix(*self).len() && r@.subrange(
                    0,
                    herdr_message_prefix(*self).len() as int,
                ) == herdr_message_prefix(*self),
            },
            self matches HerdrError::InvalidJson { output, .. } ==> exists|detail: Seq<char>|
                r@ == herdr_message_prefix(*self) + detail + "): "@ + output@,
    {
        let mut out: Vec<char> = Vec::new();
        match self {
            HerdrError::Execute { command, source } => {
                extend_str(&mut out, "failed to execute `");
                extend_str(&mut out, command.as_str());
                extend_str(&mut out, "`: ");
                let ghost p = out@;
                let t = io_error_text(source);
                extend_str(&mut out, t.as_str());
                assert(out@.subrange(0, p.len() as int) == p);
            },
            HerdrError::Spawn { command, source } => {
                extend_str(&mut out, "failed to start detached `");
                extend_str(&mut out, command.as_str());
                extend_str(&mut out, "`: ");
                let ghost p = out@;
                let t = io_error_text(source);
                extend_str(&mut out, t.as_str());
                assert(out@.subrange(0, p.len() as int) == p);
            },
            HerdrError::CommandFailed { command, status, stdout, stderr } => {
                out.push('`');
                extend_str(&mut out, command.as_str());
                extend_str(&mut out, "` failed with status ");
                push_status(&mut out, *status);
                if !stderr.as_str().is_empty() {
                    extend_str(&mut out, ": ");
                    extend_str(&mut out, stderr.as_str());
                } else if !stdout.as_str().is_empty() {
                    extend_str(&mut out, ": ");
                    extend_str(&mut out, stdout.as_str());
                }
            },
            HerdrError::Cli { command, status, code, message } => {
                out.push('`');
                extend_str(&mut out, command.as_str());
                extend_str(&mut out, "` failed with status ");
                push_status(&mut out, *status);
                extend_str(&mut out, " (");
                extend_str(&mut out, code.as_str());
                extend_str(&mut out, "): ");
                extend_str(&mut out, message.as_str());
            },
            HerdrError::InvalidJson { command, output, source } => {
                out.push('`');
                extend_str(&mut out, command.as_str());
                extend_str(&mut out, "` returned invalid JSON (");
                let ghost p = out@;
                let t = json_error_text(source);
                extend_str(&mut out, t.as_str());
                extend_str(&mut out, "): ");
                extend_str(&mut out, output.as_str());
                assert(out@.subrange(0, p.len() as int) == p);
                proof {
                    reveal_strlit("` returned invalid JSON (");
                    assert(p =~= herdr_message_prefix(*self));
                    assert(out@ =~= herdr_message_prefix(*self) + t@ + "): "@ + output@);
                }
            },
            HerdrError::UnexpectedOutput { command, output } => {
                out.push('`');
                extend_str(&mut out, command.as_str());
                extend_str(&mut out, "` returned unexpected output: ");
                extend_str(&mut out, output.as_str());
            },
            HerdrError::UnexpectedResult { expected, found } => {
                extend_str(&mut out, "expected Herdr result `");
                extend_str(&mut out, expected);
                extend_str(&mut out, "`, got `");
                extend_str(&mut out, found.as_str());
                out.push('`');
            },
            HerdrError::InvalidArgument { name, message } => {
                extend_str(&mut out, "invalid ");
                extend_str(&mut out, name);
                extend_str(&mut out, ": ");
                extend_str(&mut out, message.as_str());
            },
            HerdrError::InvalidVersion { component, found } => {
                extend_str(&mut out, component);
                extend_str(&mut out, " reported invalid Herdr version `");
                extend_str(&mut out, found.as_str());
                out.push('`');
            },
            HerdrError::UnsupportedVersion { component, found, minimum } => {
                extend_str(&mut out, component);
                extend_str(&mut out, " Herdr version ");
                extend_str(&mut out, found.as_str());
                extend_str(&mut out, " is unsupported; require >= ");
                extend_str(&mut out, minimum);
            },
            HerdrError::UnsupportedProtocol { component, found, required } => {
                extend_str(&mut out, component);
                extend_str(&mut out, " Herdr protocol ");
                push_number(&mut out, *found as u64);
                extend_str(&mut out, " is unsupported; require protocol ");
                push_number(&mut out, *required as u64);
                extend_str(&mut out, " or ");
                push_number(&mut out, crate::herdr::ALTERNATE_PROTOCOL as u64);
            },
            HerdrError::ProtocolMismatch { client, server } => {
                extend_str(&mut out, "Herdr client/server protocol mismatch (client ");
                push_number(&mut out, *client as u64);
                extend_str(&mut out, ", server ");
                push_number(&mut out, *server as u64);
                out.push(')');
            },
            HerdrError::MissingStatusField { component, field } => {
                extend_str(&mut out, component);
                extend_str(&mut out, " Herdr status is missing `");
                extend_str(&mut out, field);
                out.push('`');
            },
            HerdrError::ServerNotRunning { socket } => {
                extend_str(&mut out, "Herdr server is not running at ");
                extend_str(&mut out, socket.as_str());
            },
            HerdrError::ServerNotReady { timeout_ms, last_error } => {
                extend_str(&mut out, "Herdr server did not become ready within ");
                push_number(&mut out, *timeout_ms);
                extend_str(&mut out, "ms");
                if let Some(l) = last_error {
                    extend_str(&mut out, ": ");
                    extend_str(&mut out, l.as_str());
                }
            },
            HerdrError::SocketIo { operation, path, source } => {
                extend_str(&mut out, "failed to ");
                extend_str(&mut out, operation);
                extend_str(&mut out, " Herdr socket at ");
                extend_str(&mut out, path.as_str());
                extend_str(&mut out, ": ");
                let ghost p = out@;
                let t = io_error_text(source);
                extend_str(&mut out, t.as_str());
                assert(out@.subrange(0, p.len() as int) == p);
            },
            HerdrError::SocketJson { operation, source } => {
                extend_str(&mut out, "failed to ");
                extend_str(&mut out, operation);
                extend_str(&mut out, ": ");
                let ghost p = out@;
                let t = json_error_text(source);
                extend_str(&mut out, t.as_str());
                assert(out@.subrange(0, p.len() as int) == p);
            },
            HerdrError::UnexpectedResponseId { expected, found } => {
                extend_str(&mut out, "Herdr socket response id mismatch: expected `");
                extend_str(&mut out, expected);
                extend_str(&mut out, "`, got `");
                extend_str(&mut out, found.as_str());
                out.push('`');
            },
            HerdrError::UnsupportedOperation { operation, reason } => {
                extend_str(&mut out, operation);
                extend_str(&mut out, " is unsupported: ");
                extend_str(&mut out, reason);
            },
            HerdrError::AmbiguousRecovery { label, root_cwd, matches } => {
                extend_str(&mut out, "cannot recover Herdr workspace: ");
                push_number(&mut out, *matches as u64);
                extend_str(&mut out, " exact matches for label `");
                extend_str(&mut out, label.as_str());
                extend_str(&mut out, "` and cwd ");
                extend_str(&mut out, root_cwd.as_str());
            },
            HerdrError::OwnershipMismatch { workspace_id, label, root_cwd } => {
                extend_str(&mut out, "managed Herdr workspace `");
                extend_str(&mut out, workspace_id.as_str());
                extend_str(&mut out, "` still exists but no longer matches owned label `");
                extend_str(&mut out, label.as_str());
                extend_str(&mut out, "` and root ");
                extend_str(&mut out, root_cwd.as_str());
                extend_str(&mut out, "; refusing to discard ownership");
            },
            HerdrError::StateHomeUnavailable => {
                extend_str(&mut out, "cannot locate XDG state home (HOME is unset)");
            },
            HerdrError::StatePath { path, message } => {
                extend_str(&mut out, "invalid state path ");
                extend_str(&mut out, path.as_str());
                extend_str(&mut out, ": ");
                extend_str(&mut out, message.as_str());
            },
            HerdrError::StateIo { operation, path, source } => {
                extend_str(&mut out, "failed to ");
                extend_str(&mut out, operation);
                extend_str(&mut out, " state at ");
                extend_str(&mut out, path.as_str());
                extend_str(&mut out, ": ");
                let ghost p = out@;
                let t = io_error_text(source);
                extend_str(&mut out, t.as_str());
                assert(out@.subrange(0, p.len() as int) == p);
            },
            HerdrError::StateJson { operation, path, source } => {
                extend_str(&mut out, "failed to ");
                extend_str(&mut out, operation);
                extend_str(&mut out, " state JSON at ");
                extend_str(&mut out, path.as_str());
                extend_str(&mut out, ": ");
                let ghost p = out@;
                let t = json_error_text(source);
                extend_str(&mut out, t.as_str());
                assert(out@.subrange(0, p.len() as int) == p);
            },
            HerdrError::UnsupportedStateVersion { path, found, supported } => {
                extend_str(&mut out, "state index ");
                extend_str(&mut out, path.as_str());
                extend_str(&mut out, " has version ");
                push_number(&mut out, *found as u64);
                extend_str(&mut out, "; supported version is ");
                push_number(&mut out, *supported as u64);
            },
            HerdrError::StateLocked { path, timeout_ms } => {
                extend_str(&mut out, "state index is locked at ");
                extend_str(&mut out, path.as_str());
                extend_str(&mut out, " after waiting ");
                push_number(&mut out, *timeout_ms);
                extend_str(&mut out, "ms");
            },
        }
        string_of(out.as_slice())
    }
}

} // verus!
