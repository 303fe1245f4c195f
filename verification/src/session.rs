//! The host's side of an active terminal session: what it does on output
//! of the shell, on desktop frames, on client messages and on silence; the
//! audit record of a connection; and the choice of the default shell.
use vstd::prelude::*;
use crate::host::{state_fingerprint, HandshakeState};
use crate::protocol::{ClientToHost, HostToClient};
use crate::text::{string_append, string_from};

verus! {

/// The state of an active session.
pub struct PtySession {
    /// The host is headless: desktop capture stays off.
    pub headless: bool,
    /// Desktop frames are being captured and sent.
    pub streaming: bool,
    pub cols: u16,
    pub rows: u16,
}

/// What happens during a session.
#[derive(Debug)]
pub enum SessionEvent {
    /// The shell wrote output.
    PtyOutput(Vec<u8>),
    /// A desktop frame was rendered.
    DesktopFrame(String),
    /// The client sent a message.
    Message(ClientToHost),
    /// The connection failed.
    ReceiveFailed,
    /// The client stayed silent beyond the keep-alive limit.
    TimedOut,
}

/// What the host does during a session.
#[derive(Debug)]
pub enum SessionAction {
    Send(HostToClient),
    /// Feed input to the shell.
    WritePty(Vec<u8>),
    /// Resize the shell's terminal.
    ResizePty { cols: u16, rows: u16 },
    StartDesktopStream,
    StopDesktopStream,
    /// End the session and stop the shell.
    End,
}

/// The actions are exactly the one given.
pub open spec fn only(actions: Seq<SessionAction>, a: SessionAction) -> bool {
    actions.len() == 1 && actions[0] == a
}

/// A session goes, on an event, to its next state and the actions that
/// carry it out.
pub open spec fn session_next(
    s: PtySession,
    event: SessionEvent,
    s2: PtySession,
    actions: Seq<SessionAction>,
) -> bool {
    match event {
        SessionEvent::PtyOutput(bytes) => s2 == s && only(actions, SessionAction::Send(HostToClient::PtyOutput { bytes })),
        SessionEvent::DesktopFrame(frame_text) => s2 == s && only(actions, SessionAction::Send(HostToClient::DesktopFrame { frame_text })),
        SessionEvent::Message(msg) => match msg {
            ClientToHost::PtyInput { bytes } => s2 == s && only(actions, SessionAction::WritePty(bytes)),
            ClientToHost::PtyResize { cols, rows } => s2 == (PtySession { cols, rows, ..s })
                && only(actions, SessionAction::ResizePty { cols, rows }),
            ClientToHost::StartDesktopStream => if !s.streaming && !s.headless {
                s2 == (PtySession { streaming: true, ..s }) && only(actions, SessionAction::StartDesktopStream)
            } else {
                s2 == s && actions.len() == 0
            },
            ClientToHost::StopDesktopStream => if s.streaming {
                s2 == (PtySession { streaming: false, ..s }) && only(actions, SessionAction::StopDesktopStream)
            } else {
                s2 == s && actions.len() == 0
            },
            ClientToHost::Ping => s2 == s && actions.len() == 1 && actions[0] matches SessionAction::Send(
                HostToClient::Pong,
            ),
            ClientToHost::Close => s2 == s && only(actions, SessionAction::End),
            _ => s2 == s && actions.len() == 0,
        },
        SessionEvent::ReceiveFailed => s2 == s && only(actions, SessionAction::End),
        SessionEvent::TimedOut => s2 == s && only(actions, SessionAction::End),
    }
}

impl PtySession {
    /// A session on an 80 by 24 terminal, without desktop capture.
    pub fn new(headless: bool) -> (r: PtySession)
        ensures
            r == (PtySession { headless, streaming: false, cols: 80, rows: 24 }),
    {
        PtySession { headless, streaming: false, cols: 80, rows: 24 }
    }

    /// Handles one event.
    pub fn step(&mut self, event: SessionEvent) -> (r: Vec<SessionAction>)
        ensures
            session_next(*old(self), event, *final(self), r@),
    {
        let mut actions: Vec<SessionAction> = Vec::new();
        match event {
            SessionEvent::PtyOutput(bytes) => {
                actions.push(SessionAction::Send(HostToClient::PtyOutput { bytes }));
            },
            SessionEvent::DesktopFrame(frame_text) => {
                actions.push(SessionAction::Send(HostToClient::DesktopFrame { frame_text }));
            },
            SessionEvent::Message(msg) => match msg {
                ClientToHost::PtyInput { bytes } => {
                    actions.push(SessionAction::WritePty(bytes));
                },
                ClientToHost::PtyResize { cols, rows } => {
                    self.cols = cols;
                    self.rows = rows;
                    actions.push(SessionAction::ResizePty { cols, rows });
                },
                ClientToHost::StartDesktopStream => {
                    if !self.streaming && !self.headless {
                        self.streaming = true;
                        actions.push(SessionAction::StartDesktopStream);
                    }
                },
                ClientToHost::StopDesktopStream => {
                    if self.streaming {
                        self.streaming = false;
                        actions.push(SessionAction::StopDesktopStream);
                    }
                },
                ClientToHost::Ping => {
                    actions.push(SessionAction::Send(HostToClient::Pong));
                },
                ClientToHost::Close => {
                    actions.push(SessionAction::End);
                },
                _ => {},
            },
            SessionEvent::ReceiveFailed => {
                actions.push(SessionAction::End);
            },
            SessionEvent::TimedOut => {
                actions.push(SessionAction::End);
            },
        }
        actions
    }
}

/// Capture is started only when it is off, and is then on: no second
/// capture runs beside the first.
pub proof fn law_capture_starts_once(
    s: PtySession,
    event: SessionEvent,
    s2: PtySession,
    actions: Seq<SessionAction>,
)
    requires
        session_next(s, event, s2, actions),
    ensures
        (exists|i: int| 0 <= i < actions.len() && #[trigger] actions[i] is StartDesktopStream)
            ==> !s.streaming && s2.streaming,
        (exists|i: int| 0 <= i < actions.len() && #[trigger] actions[i] is StopDesktopStream)
            ==> s.streaming && !s2.streaming,
        s2.headless == s.headless,
{
}

/// A headless host never captures its desktop: a session that starts
/// without capture keeps it off whatever the client asks.
pub proof fn law_headless_never_captures(
    s: PtySession,
    event: SessionEvent,
    s2: PtySession,
    actions: Seq<SessionAction>,
)
    requires
        session_next(s, event, s2, actions),
        s.headless,
        !s.streaming,
    ensures
        s2.headless,
        !s2.streaming,
        forall|i: int| 0 <= i < actions.len() ==> !(#[trigger] actions[i] is StartDesktopStream),
{
}

/// Every ping is answered with a pong, and the session goes on.
pub proof fn law_ping_answered(s: PtySession, s2: PtySession, actions: Seq<SessionAction>)
    requires
        session_next(s, SessionEvent::Message(ClientToHost::Ping), s2, actions),
    ensures
        s2 == s,
        actions.len() == 1,
        actions[0] matches SessionAction::Send(HostToClient::Pong),
{
}

/// The facts recorded in the audit log for one connection.
pub struct AuditFacts {
    pub fingerprint: String,
    pub decision: String,
    /// Whether the session's duration is recorded.
    pub with_duration: bool,
}

/// The fingerprint an audit record gives: the client's, where its hello
/// made it known, else `UNKNOWN`.
pub open spec fn recorded_fingerprint(fingerprint: Option<String>) -> Seq<char> {
    match fingerprint {
        Some(f) => f@,
        None => "UNKNOWN"@,
    }
}

/// The audit record of a connection, from how its handshake ended and, for
/// an accepted client, whether the session completed without error.
pub open spec fn audit_facts(outcome: HandshakeState, session_completed: bool) -> (
    Seq<char>,
    Seq<char>,
    bool,
) {
    match outcome {
        HandshakeState::Accepted { client } => (
            client.fingerprint@,
            if session_completed {
                "Completed"@
            } else {
                "Error"@
            },
            true,
        ),
        HandshakeState::Failed { fingerprint, .. } => (
            recorded_fingerprint(fingerprint),
            "Handshake Error"@,
            false,
        ),
        _ => (recorded_fingerprint(state_fingerprint(outcome)), "Denied"@, false),
    }
}

fn fingerprint_text(fingerprint: &Option<String>) -> (r: String)
    ensures
        r@ == recorded_fingerprint(*fingerprint),
{
    match fingerprint {
        Some(f) => string_from(f.as_str()),
        None => string_from("UNKNOWN"),
    }
}

/// Builds the audit record of a connection.
pub fn session_audit(outcome: &HandshakeState, session_completed: bool) -> (r: AuditFacts)
    ensures
        (r.fingerprint@, r.decision@, r.with_duration) == audit_facts(*outcome, session_completed),
{
    match outcome {
        HandshakeState::Accepted { client } => AuditFacts {
            fingerprint: string_from(client.fingerprint.as_str()),
            decision: if session_completed {
                string_from("Completed")
            } else {
                string_from("Error")
            },
            with_duration: true,
        },
        HandshakeState::Failed { fingerprint, .. } => AuditFacts {
            fingerprint: fingerprint_text(fingerprint),
            decision: string_from("Handshake Error"),
            with_duration: false,
        },
        HandshakeState::Denied { fingerprint } => AuditFacts {
            fingerprint: fingerprint_text(fingerprint),
            decision: string_from("Denied"),
            with_duration: false,
        },
        HandshakeState::AwaitHello => AuditFacts {
            fingerprint: string_from("UNKNOWN"),
            decision: string_from("Denied"),
            with_duration: false,
        },
        HandshakeState::AwaitChallengeResponse { client, .. } | HandshakeState::AwaitPairingCode {
            client,
            ..
        } | HandshakeState::AwaitConsent { client, .. } => AuditFacts {
            fingerprint: string_from(client.fingerprint.as_str()),
            decision: string_from("Denied"),
            with_duration: false,
        },
    }
}

/// An audit record holds nothing of the host's secrets, its pairing code
/// among them: its fingerprint is the client's own, as the handshake state
/// records it, or `UNKNOWN`, and its outcome is one of four fixed words.
pub proof fn law_audit_holds_only_client_facts(outcome: HandshakeState, session_completed: bool)
    ensures
        ({
            let (fingerprint, decision, _) = audit_facts(outcome, session_completed);
            &&& fingerprint == recorded_fingerprint(state_fingerprint(outcome))
            &&& decision == "Completed"@ || decision == "Error"@ || decision == "Denied"@
                || decision == "Handshake Error"@
        }),
{
}

/// The shell whose presence decides the default: PowerShell on Windows,
/// bash elsewhere.
pub fn preferred_shell(windows: bool) -> (r: &'static str)
    ensures
        r@ == if windows {
            "powershell.exe"@
        } else {
            "/bin/bash"@
        },
{
    if windows {
        "powershell.exe"
    } else {
        "/bin/bash"
    }
}

/// The default shell: the preferred one where it was found, else
/// `cmd.exe` on Windows and `/bin/sh` elsewhere.
pub fn default_shell(windows: bool, preferred_found: bool) -> (r: String)
    ensures
        r@ == if preferred_found {
            if windows {
                "powershell.exe"@
            } else {
                "/bin/bash"@
            }
        } else if windows {
            "cmd.exe"@
        } else {
            "/bin/sh"@
        },
{
    if preferred_found {
        string_from(preferred_shell(windows))
    } else if windows {
        string_from("cmd.exe")
    } else {
        string_from("/bin/sh")
    }
}

/// The shell the fallback is when the preferred one is missing: `cmd.exe`
/// on Windows, `/bin/sh` elsewhere.
pub open spec fn fallback_shell_text(windows: bool) -> Seq<char> {
    if windows {
        "cmd.exe"@
    } else {
        "/bin/sh"@
    }
}

/// The fallback shell.
pub fn fallback_shell(windows: bool) -> (r: &'static str)
    ensures
        r@ == fallback_shell_text(windows),
{
    if windows {
        "cmd.exe"
    } else {
        "/bin/sh"
    }
}

/// The diagnostics line for the default shell: the first of the preferred
/// and the fallback shell that is present, marked active, or `None found`.
pub fn shell_report(windows: bool, preferred_found: bool, fallback_found: bool) -> (r: String)
    ensures
        r@ == if preferred_found {
            (if windows {
                "powershell.exe"@
            } else {
                "/bin/bash"@
            }) + " (Active)"@
        } else if fallback_found {
            fallback_shell_text(windows) + " (Active)"@
        } else {
            "None found"@
        },
{
    if preferred_found {
        let mut r = string_from(preferred_shell(windows));
        string_append(&mut r, " (Active)");
        r
    } else if fallback_found {
        let mut r = string_from(fallback_shell(windows));
        string_append(&mut r, " (Active)");
        r
    } else {
        string_from("None found")
    }
}

} // verus!
