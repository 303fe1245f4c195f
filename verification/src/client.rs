//! The client: its hello, the decisions of its side of the handshake, the
//! decisions of an interactive session, and the bytes it sends for keys.
use vstd::prelude::*;
use vstd::utf8::encode_utf8;
use crate::config::{Config, ConfigManager};
use crate::keys::{
    base64_decode, base64_decoding, base64_encode, base64_encoding, ed25519_signature_of,
    fingerprint_of, get_fingerprint, key_bytes_from_text, parse_signing_key,
};
use crate::protocol::{Capability, ClientToHost, HostToClient};
use crate::text::{byte_len, push_utf8, string_from};

verus! {

/// How the client is run.
#[derive(Debug, Clone)]
pub struct ClientOptions {
    pub connect_url: String,
    pub pairing_code: Option<String>,
    pub name: Option<String>,
    pub config_path: Option<String>,
    pub rendezvous: Option<String>,
}

/// A client that opens a remote terminal session.
pub struct Client {
    options: ClientOptions,
    config_manager: ConfigManager,
    config: Config,
}

/// Where the client stands in the handshake.
#[derive(Debug)]
pub enum ClientHandshake {
    AwaitHelloAck,
    AwaitAuthRequest,
    /// The user is asked for the pairing code.
    AwaitPairingCodeInput,
    AwaitAuthResult,
    Established,
    Failed(ClientFailure),
}

/// Why a handshake failed.
#[derive(Debug)]
pub enum ClientFailure {
    ExpectedHelloAck(HostToClient),
    ExpectedAuthRequired(HostToClient),
    UnexpectedAfterAuth(HostToClient),
    AuthDenied(String),
    InvalidKey,
    Transport,
}

/// What happens next on the client's side.
#[derive(Debug)]
pub enum ClientEvent {
    Message(HostToClient),
    ReceiveFailed,
    /// The user typed the pairing code.
    PairingCodeEntered(String),
}

/// What the client does in reply.
#[derive(Debug)]
pub enum ClientAction {
    Send(ClientToHost),
    /// Show which host answered.
    ShowHost { name: String, fingerprint: String },
    /// Ask the user for the pairing code.
    PromptPairingCode,
    /// The session may begin.
    Connected,
}

/// The capabilities the client announces.
pub open spec fn client_capabilities() -> Seq<Capability> {
    seq![Capability::TerminalPty, Capability::TerminalResize]
}

impl Client {
    pub closed spec fn options_view(&self) -> ClientOptions {
        self.options
    }

    pub closed spec fn config_view(&self) -> Config {
        self.config
    }

    pub closed spec fn manager_view(&self) -> ConfigManager {
        self.config_manager
    }

    /// A client with its options and loaded configuration.
    pub fn new(options: ClientOptions, config_manager: ConfigManager, config: Config) -> (r: Client)
        ensures
            r.options_view() == options,
            r.config_view() == config,
            r.manager_view() == config_manager,
    {
        Client { options, config_manager, config }
    }

    /// The options the client runs with.
    pub fn options(&self) -> (r: &ClientOptions)
        ensures
            *r == self.options_view(),
    {
        &self.options
    }

    /// The configuration the client runs with.
    pub fn config(&self) -> (r: &Config)
        ensures
            *r == self.config_view(),
    {
        &self.config
    }

    /// Where the configuration is kept.
    pub fn config_manager(&self) -> (r: &ConfigManager)
        ensures
            *r == self.manager_view(),
    {
        &self.config_manager
    }

    /// The name the client announces: the configured name, else the
    /// device name.
    pub fn display_name(&self) -> (r: String)
        ensures
            r@ == match self.options_view().name {
                Some(n) => n@,
                None => self.config_view().device_name@,
            },
    {
        match &self.options.name {
            Some(n) => string_from(n.as_str()),
            None => string_from(self.config.device_name.as_str()),
        }
    }

    /// The hello the client opens with: protocol 1.0, its name, its public
    /// key and its capabilities. Fails where the public key text is not
    /// Base64.
    pub fn hello(&self) -> (r: Result<ClientToHost, String>)
        ensures
            match r {
                Ok(msg) => msg matches ClientToHost::Hello {
                    protocol_version,
                    client_name,
                    client_public_key,
                    capabilities,
                } && protocol_version@ == "1.0"@ && client_name@ == match self.options_view().name {
                    Some(n) => n@,
                    None => self.config_view().device_name@,
                } && base64_decoding(self.config_view().public_key@) == Some(
                    client_public_key@,
                ) && capabilities@ == client_capabilities(),
                Err(_) => base64_decoding(self.config_view().public_key@) is None,
            },
    {
        let key = base64_decode(self.config.public_key.as_str())?;
        let mut capabilities: Vec<Capability> = Vec::new();
        capabilities.push(Capability::TerminalPty);
        capabilities.push(Capability::TerminalResize);
        assert(capabilities@ =~= client_capabilities());
        Ok(
            ClientToHost::Hello {
                protocol_version: string_from("1.0"),
                client_name: self.display_name(),
                client_public_key: key,
                capabilities,
            },
        )
    }

    /// One step of the client's handshake.
    pub fn handshake_step(&self, state: ClientHandshake, event: ClientEvent) -> (r: (
        ClientHandshake,
        Vec<ClientAction>,
    ))
        ensures
            client_next(*self, state, event, r.0, r.1@),
    {
        match state {
            ClientHandshake::AwaitHelloAck => match event {
                ClientEvent::Message(HostToClient::HelloAck { host_name, host_public_key, .. }) => {
                    let _ = byte_len(host_public_key.as_slice());
                    let key_text = base64_encode(host_public_key.as_slice());
                    let fingerprint = get_fingerprint(key_text.as_str());
                    let mut actions: Vec<ClientAction> = Vec::new();
                    actions.push(ClientAction::ShowHost { name: host_name, fingerprint });
                    (ClientHandshake::AwaitAuthRequest, actions)
                },
                ClientEvent::Message(other) => (
                    ClientHandshake::Failed(ClientFailure::ExpectedHelloAck(other)),
                    Vec::new(),
                ),
                ClientEvent::ReceiveFailed => (
                    ClientHandshake::Failed(ClientFailure::Transport),
                    Vec::new(),
                ),
                ClientEvent::PairingCodeEntered(_) => (ClientHandshake::AwaitHelloAck, Vec::new()),
            },
            ClientHandshake::AwaitAuthRequest => match event {
                ClientEvent::Message(HostToClient::AuthRequired { challenge }) => {
                    if challenge.len() > 0 {
                        match parse_signing_key(self.config.private_key.as_str()) {
                            Ok(key) => {
                                let signature = key.sign(challenge.as_slice());
                                let mut actions: Vec<ClientAction> = Vec::new();
                                actions.push(
                                    ClientAction::Send(
                                        ClientToHost::ChallengeResponse { signature },
                                    ),
                                );
                                (ClientHandshake::AwaitAuthResult, actions)
                            },
                            Err(_) => (
                                ClientHandshake::Failed(ClientFailure::InvalidKey),
                                Vec::new(),
                            ),
                        }
                    } else {
                        match &self.options.pairing_code {
                            Some(code) => {
                                let mut actions: Vec<ClientAction> = Vec::new();
                                actions.push(
                                    ClientAction::Send(
                                        ClientToHost::PairingCode {
                                            code: string_from(code.as_str()),
                                        },
                                    ),
                                );
                                (ClientHandshake::AwaitAuthResult, actions)
                            },
                            None => {
                                let mut actions: Vec<ClientAction> = Vec::new();
                                actions.push(ClientAction::PromptPairingCode);
                                (ClientHandshake::AwaitPairingCodeInput, actions)
                            },
                        }
                    }
                },
                ClientEvent::Message(HostToClient::AuthAccepted) => (
                    ClientHandshake::AwaitAuthResult,
                    Vec::new(),
                ),
                ClientEvent::Message(HostToClient::AuthDenied { reason }) => (
                    ClientHandshake::Failed(ClientFailure::AuthDenied(reason)),
                    Vec::new(),
                ),
                ClientEvent::Message(other) => (
                    ClientHandshake::Failed(ClientFailure::ExpectedAuthRequired(other)),
                    Vec::new(),
                ),
                ClientEvent::ReceiveFailed => (
                    ClientHandshake::Failed(ClientFailure::Transport),
                    Vec::new(),
                ),
                ClientEvent::PairingCodeEntered(_) => (
                    ClientHandshake::AwaitAuthRequest,
                    Vec::new(),
                ),
            },
            ClientHandshake::AwaitPairingCodeInput => match event {
                ClientEvent::PairingCodeEntered(code) => {
                    let mut actions: Vec<ClientAction> = Vec::new();
                    actions.push(ClientAction::Send(ClientToHost::PairingCode { code }));
                    (ClientHandshake::AwaitAuthResult, actions)
                },
                _ => (ClientHandshake::AwaitPairingCodeInput, Vec::new()),
            },
            ClientHandshake::AwaitAuthResult => match event {
                ClientEvent::Message(HostToClient::AuthAccepted) => {
                    let mut actions: Vec<ClientAction> = Vec::new();
                    actions.push(ClientAction::Connected);
                    (ClientHandshake::Established, actions)
                },
                ClientEvent::Message(HostToClient::AuthDenied { reason }) => (
                    ClientHandshake::Failed(ClientFailure::AuthDenied(reason)),
                    Vec::new(),
                ),
                ClientEvent::Message(other) => (
                    ClientHandshake::Failed(ClientFailure::UnexpectedAfterAuth(other)),
                    Vec::new(),
                ),
                ClientEvent::ReceiveFailed => (
                    ClientHandshake::Failed(ClientFailure::Transport),
                    Vec::new(),
                ),
                ClientEvent::PairingCodeEntered(_) => (ClientHandshake::AwaitAuthResult, Vec::new()),
            },
            other => (other, Vec::new()),
        }
    }
}

/// The actions are none.
pub open spec fn silent(actions: Seq<ClientAction>) -> bool {
    actions.len() == 0
}

/// The client's handshake, one step at a time.
pub open spec fn client_next(
    client: Client,
    state: ClientHandshake,
    event: ClientEvent,
    state2: ClientHandshake,
    actions: Seq<ClientAction>,
) -> bool {
    match state {
        ClientHandshake::AwaitHelloAck => match event {
            ClientEvent::Message(HostToClient::HelloAck { host_name, host_public_key, .. }) => {
                &&& state2 is AwaitAuthRequest
                &&& actions.len() == 1
                &&& actions[0] matches ClientAction::ShowHost { name, fingerprint } && name
                    == host_name && fingerprint@ == fingerprint_of(
                    base64_encoding(host_public_key@),
                )
            },
            ClientEvent::Message(other) => state2 == ClientHandshake::Failed(
                ClientFailure::ExpectedHelloAck(other),
            ) && silent(actions),
            ClientEvent::ReceiveFailed => state2 == ClientHandshake::Failed(
                ClientFailure::Transport,
            ) && silent(actions),
            ClientEvent::PairingCodeEntered(_) => state2 is AwaitHelloAck && silent(actions),
        },
        ClientHandshake::AwaitAuthRequest => match event {
            ClientEvent::Message(HostToClient::AuthRequired { challenge }) => if challenge@.len()
                > 0 {
                match key_bytes_from_text(client.config_view().private_key@) {
                    Some(seed) => {
                        &&& state2 is AwaitAuthResult
                        &&& actions.len() == 1
                        &&& actions[0] matches ClientAction::Send(
                            ClientToHost::ChallengeResponse { signature },
                        ) && signature@ == ed25519_signature_of(seed, challenge@)
                    },
                    None => state2 == ClientHandshake::Failed(ClientFailure::InvalidKey) && silent(
                        actions,
                    ),
                }
            } else {
                match client.options_view().pairing_code {
                    Some(code) => {
                        &&& state2 is AwaitAuthResult
                        &&& actions.len() == 1
                        &&& actions[0] matches ClientAction::Send(
                            ClientToHost::PairingCode { code: sent },
                        ) && sent@ == code@
                    },
                    None => state2 is AwaitPairingCodeInput && actions.len() == 1
                        && actions[0] is PromptPairingCode,
                }
            },
            ClientEvent::Message(HostToClient::AuthAccepted) => state2 is AwaitAuthResult && silent(
                actions,
            ),
            ClientEvent::Message(HostToClient::AuthDenied { reason }) => state2
                == ClientHandshake::Failed(ClientFailure::AuthDenied(reason)) && silent(actions),
            ClientEvent::Message(other) => state2 == ClientHandshake::Failed(
                ClientFailure::ExpectedAuthRequired(other),
            ) && silent(actions),
            ClientEvent::ReceiveFailed => state2 == ClientHandshake::Failed(
                ClientFailure::Transport,
            ) && silent(actions),
            ClientEvent::PairingCodeEntered(_) => state2 is AwaitAuthRequest && silent(actions),
        },
        ClientHandshake::AwaitPairingCodeInput => match event {
            ClientEvent::PairingCodeEntered(code) => state2 is AwaitAuthResult && actions.len() == 1
                && actions[0] == ClientAction::Send(ClientToHost::PairingCode { code }),
            _ => state2 is AwaitPairingCodeInput && silent(actions),
        },
        ClientHandshake::AwaitAuthResult => match event {
            ClientEvent::Message(HostToClient::AuthAccepted) => state2 is Established
                && actions.len() == 1 && actions[0] is Connected,
            ClientEvent::Message(HostToClient::AuthDenied { reason }) => state2
                == ClientHandshake::Failed(ClientFailure::AuthDenied(reason)) && silent(actions),
            ClientEvent::Message(other) => state2 == ClientHandshake::Failed(
                ClientFailure::UnexpectedAfterAuth(other),
            ) && silent(actions),
            ClientEvent::ReceiveFailed => state2 == ClientHandshake::Failed(
                ClientFailure::Transport,
            ) && silent(actions),
            ClientEvent::PairingCodeEntered(_) => state2 is AwaitAuthResult && silent(actions),
        },
        _ => state2 == state && silent(actions),
    }
}

/// The client signs only a challenge the host sent, and with its own key.
pub proof fn law_client_signs_only_challenges(
    client: Client,
    state: ClientHandshake,
    event: ClientEvent,
    state2: ClientHandshake,
    actions: Seq<ClientAction>,
    i: int,
)
    requires
        client_next(client, state, event, state2, actions),
        0 <= i < actions.len(),
        actions[i] matches ClientAction::Send(ClientToHost::ChallengeResponse { .. }),
    ensures
        state is AwaitAuthRequest,
        event matches ClientEvent::Message(HostToClient::AuthRequired { challenge })
            && actions[i] matches ClientAction::Send(ClientToHost::ChallengeResponse { signature })
            && key_bytes_from_text(client.config_view().private_key@) matches Some(seed)
            && challenge@.len() > 0 && signature@ == ed25519_signature_of(seed, challenge@),
{
}

/// The host asks for authentication without a challenge.
pub open spec fn asks_for_code(event: ClientEvent) -> bool {
    event matches ClientEvent::Message(HostToClient::AuthRequired { challenge }) && challenge@.len()
        == 0
}

/// The client gives a pairing code only when the host asks for one
/// without a challenge (directly or after the user typed it).
pub proof fn law_client_gives_code_only_when_asked(
    client: Client,
    state: ClientHandshake,
    event: ClientEvent,
    state2: ClientHandshake,
    actions: Seq<ClientAction>,
    i: int,
)
    requires
        client_next(client, state, event, state2, actions),
        0 <= i < actions.len(),
        actions[i] matches ClientAction::Send(ClientToHost::PairingCode { .. }),
    ensures
        (state is AwaitAuthRequest && asks_for_code(event)) || (state is AwaitPairingCodeInput
            && event is PairingCodeEntered),
{
}

/// The session begins only once the host has accepted the client.
pub proof fn law_established_only_after_acceptance(
    client: Client,
    state: ClientHandshake,
    event: ClientEvent,
    state2: ClientHandshake,
    actions: Seq<ClientAction>,
)
    requires
        client_next(client, state, event, state2, actions),
        state2 is Established,
        !(state is Established),
    ensures
        state is AwaitAuthResult,
        event == ClientEvent::Message(HostToClient::AuthAccepted),
{
}

// ---------------------------------------------------------------------------
// Keys
// ---------------------------------------------------------------------------
/// A key of the local keyboard.
#[derive(Debug, Clone, Copy, PartialEq, Eq, Structural)]
pub enum KeyCode {
    Char(char),
    Enter,
    Backspace,
    Tab,
    Esc,
    Up,
    Down,
    Right,
    Left,
    Home,
    End,
    Delete,
    Other,
}

/// A key event of the local keyboard.
#[derive(Debug, Clone, Copy, PartialEq, Eq, Structural)]
pub struct KeyInput {
    pub code: KeyCode,
    /// The Control modifier is held.
    pub ctrl: bool,
    /// The key went down (releases and repeats are not sent).
    pub press: bool,
}

/// ASCII lower case of a character; other characters are unchanged.
pub open spec fn ascii_lower(c: char) -> char {
    if 'A' <= c <= 'Z' {
        ((c as u32) + 32) as char
    } else {
        c
    }
}

/// The bytes a terminal sends for a key: the character in UTF-8, a
/// control code for Control with a letter, and the usual escape
/// sequences; nothing for other keys.
pub open spec fn key_bytes(code: KeyCode, ctrl: bool) -> Option<Seq<u8>> {
    match code {
        KeyCode::Char(c) => if ctrl {
            let l = ascii_lower(c);
            if 'a' <= l <= 'z' {
                Some(seq![((l as u32) - 96) as u8])
            } else {
                None
            }
        } else {
            Some(encode_utf8(seq![c]))
        },
        KeyCode::Enter => Some(seq![13u8]),
        KeyCode::Backspace => Some(seq![127u8]),
        KeyCode::Tab => Some(seq![9u8]),
        KeyCode::Esc => Some(seq![27u8]),
        KeyCode::Up => Some(seq![27u8, 91u8, 65u8]),
        KeyCode::Down => Some(seq![27u8, 91u8, 66u8]),
        KeyCode::Right => Some(seq![27u8, 91u8, 67u8]),
        KeyCode::Left => Some(seq![27u8, 91u8, 68u8]),
        KeyCode::Home => Some(seq![27u8, 91u8, 72u8]),
        KeyCode::End => Some(seq![27u8, 91u8, 70u8]),
        KeyCode::Delete => Some(seq![27u8, 91u8, 51u8, 126u8]),
        KeyCode::Other => None,
    }
}

/// With Ctrl held, every ASCII letter, in either case, gives the single
/// control byte of its place in the alphabet: Ctrl+A is 1, Ctrl+Z is 26,
/// and a capital gives the same byte as its small letter.
pub proof fn law_ctrl_letters(c: char)
    requires
        'a' <= c <= 'z' || 'A' <= c <= 'Z',
    ensures
        ({
            let place = if 'a' <= c <= 'z' {
                c as int - 'a' as int
            } else {
                c as int - 'A' as int
            };
            &&& key_bytes(KeyCode::Char(c), true) == Some(seq![(place + 1) as u8])
            &&& 0 <= place < 26
        }),
{
}

fn bytes_of(b: &[u8]) -> (r: Vec<u8>)
    ensures
        r@ == b@,
{
    vstd::slice::slice_to_vec(b)
}

/// The bytes the client sends for a key.
pub fn key_event_to_bytes(key: KeyInput) -> (r: Option<Vec<u8>>)
    ensures
        match r {
            Some(v) => key_bytes(key.code, key.ctrl) == Some(v@),
            None => key_bytes(key.code, key.ctrl) is None,
        },
{
    match key.code {
        KeyCode::Char(c) => {
            if key.ctrl {
                let v: u32 = c as u32;
                let l: u32 = if 65 <= v && v <= 90 {
                    v + 32
                } else {
                    v
                };
                if 97 <= l && l <= 122 {
                    let mut out: Vec<u8> = Vec::new();
                    out.push((l - 96) as u8);
                    assert(out@ =~= seq![((ascii_lower(c) as u32) - 96) as u8]);
                    Some(out)
                } else {
                    None
                }
            } else {
                let mut out: Vec<u8> = Vec::new();
                push_utf8(&mut out, c);
                assert(out@ =~= encode_utf8(seq![c]));
                Some(out)
            }
        },
        KeyCode::Enter => Some(bytes_of(&[13u8])),
        KeyCode::Backspace => Some(bytes_of(&[127u8])),
        KeyCode::Tab => Some(bytes_of(&[9u8])),
        KeyCode::Esc => Some(bytes_of(&[27u8])),
        KeyCode::Up => Some(bytes_of(&[27u8, 91u8, 65u8])),
        KeyCode::Down => Some(bytes_of(&[27u8, 91u8, 66u8])),
        KeyCode::Right => Some(bytes_of(&[27u8, 91u8, 67u8])),
        KeyCode::Left => Some(bytes_of(&[27u8, 91u8, 68u8])),
        KeyCode::Home => Some(bytes_of(&[27u8, 91u8, 72u8])),
        KeyCode::End => Some(bytes_of(&[27u8, 91u8, 70u8])),
        KeyCode::Delete => Some(bytes_of(&[27u8, 91u8, 51u8, 126u8])),
        KeyCode::Other => None,
    }
}

// ---------------------------------------------------------------------------
// Interactive session
// ---------------------------------------------------------------------------
/// What happens during the client's session.
#[derive(Debug)]
pub enum SessionInput {
    /// The keep-alive timer fired; seconds since the last pong.
    Tick { secs_since_pong: u64 },
    Key(KeyInput),
    Resize { cols: u16, rows: u16 },
    Host(HostToClient),
    HostFailed,
}

/// What the client does during its session.
#[derive(Debug)]
pub enum SessionOutput {
    Send(ClientToHost),
    /// Write the host's terminal output to the local terminal.
    Display(Vec<u8>),
    /// A pong arrived: the host is alive.
    ResetPongTimer,
    /// End the session; with the remote shell's exit code where it exited.
    Exit { exit_code: Option<i32> },
}

/// The longest silence of the host, in seconds, before the client gives
/// up.
pub open spec fn pong_timeout_secs() -> u64 {
    15
}

/// The client's reaction to one input of its session.
pub open spec fn session_reaction(input: SessionInput, out: Seq<SessionOutput>) -> bool {
    match input {
        SessionInput::Tick { secs_since_pong } => if secs_since_pong > pong_timeout_secs() {
            out.len() == 1 && out[0] == SessionOutput::Exit { exit_code: None }
        } else {
            out.len() == 1 && out[0] == SessionOutput::Send(ClientToHost::Ping)
        },
        SessionInput::Key(key) => if key.press && key_bytes(key.code, key.ctrl) is Some {
            &&& out.len() == 1
            &&& out[0] matches SessionOutput::Send(ClientToHost::PtyInput { bytes }) && Some(bytes@)
                == key_bytes(key.code, key.ctrl)
        } else {
            out.len() == 0
        },
        SessionInput::Resize { cols, rows } => out.len() == 1 && out[0] == SessionOutput::Send(
            ClientToHost::PtyResize { cols, rows },
        ),
        SessionInput::Host(msg) => match msg {
            HostToClient::PtyOutput { bytes } => out.len() == 1 && out[0] == SessionOutput::Display(
                bytes,
            ),
            HostToClient::PtyExit { exit_code } => out.len() == 1 && out[0]
                == SessionOutput::Exit { exit_code: Some(exit_code) },
            HostToClient::Pong => out.len() == 1 && out[0] is ResetPongTimer,
            HostToClient::Close => out.len() == 1 && out[0] == SessionOutput::Exit {
                exit_code: None,
            },
            _ => out.len() == 0,
        },
        SessionInput::HostFailed => out.len() == 1 && out[0] == SessionOutput::Exit {
            exit_code: None,
        },
    }
}

/// Decides the client's reaction to one input of its session.
pub fn react(input: SessionInput) -> (r: Vec<SessionOutput>)
    ensures
        session_reaction(input, r@),
{
    let mut out: Vec<SessionOutput> = Vec::new();
    match input {
        SessionInput::Tick { secs_since_pong } => {
            if secs_since_pong > 15 {
                out.push(SessionOutput::Exit { exit_code: None });
            } else {
                out.push(SessionOutput::Send(ClientToHost::Ping));
            }
        },
        SessionInput::Key(key) => {
            if key.press {
                match key_event_to_bytes(key) {
                    Some(bytes) => out.push(SessionOutput::Send(ClientToHost::PtyInput { bytes })),
                    None => {},
                }
            }
        },
        SessionInput::Resize { cols, rows } => {
            out.push(SessionOutput::Send(ClientToHost::PtyResize { cols, rows }));
        },
        SessionInput::Host(msg) => match msg {
            HostToClient::PtyOutput { bytes } => out.push(SessionOutput::Display(bytes)),
            HostToClient::PtyExit { exit_code } => out.push(
                SessionOutput::Exit { exit_code: Some(exit_code) },
            ),
            HostToClient::Pong => out.push(SessionOutput::ResetPongTimer),
            HostToClient::Close => out.push(SessionOutput::Exit { exit_code: None }),
            _ => {},
        },
        SessionInput::HostFailed => out.push(SessionOutput::Exit { exit_code: None }),
    }
    out
}

/// The terminal size first announced to the host: the local one, else 80
/// by 24.
pub fn initial_size(local: Option<(u16, u16)>) -> (r: (u16, u16))
    ensures
        r == match local {
            Some(size) => size,
            None => (80u16, 24u16),
        },
{
    match local {
        Some(size) => size,
        None => (80, 24),
    }
}

} // verus!
